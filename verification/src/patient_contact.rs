//! The contact parties of a patient.
use crate::json::{DecodeError, Json, JsonV, arr_view, entries_view, group_json_views, lookup, put_json, put_opt_str, seq_views, spec_opt_str, spec_req_arr, take_opt_str, take_req_arr};
use crate::data_types::address::{Address, AddressV, lemma_address_round_trip, spec_encode_address, spec_opt_address, take_opt_address};
use crate::data_types::codeable_concept::{CodeableConcept, CodeableConceptV, decode_codeable_concept_arr, encode_codeable_concept_arr, lemma_codeable_concept_all_round_trip, lemma_codeable_concept_round_trip, spec_decode_codeable_concept_all, spec_encode_codeable_concept, spec_encode_codeable_concept_all};
use crate::data_types::contact_point::{ContactPoint, ContactPointV, decode_contact_point_arr, encode_contact_point_arr, lemma_contact_point_all_round_trip, lemma_contact_point_round_trip, spec_decode_contact_point_all, spec_encode_contact_point, spec_encode_contact_point_all};
use crate::data_types::reference::{Reference, ReferenceV, lemma_reference_round_trip, spec_encode_reference, spec_opt_reference, take_opt_reference};
use crate::human_name::{HumanName, HumanNameV, lemma_human_name_round_trip, spec_encode_human_name, spec_opt_human_name, take_opt_human_name};
use crate::period::{Period, PeriodV, lemma_period_round_trip, spec_encode_period, spec_opt_period, take_opt_period};
use vstd::prelude::*;

verus! {

/// A contact party for a patient, such as a guardian or friend.
#[derive(Debug, Clone, PartialEq)]
pub struct PatientContact {
    relationship: Vec<CodeableConcept>,
    name: Option<HumanName>,
    telecom: Vec<ContactPoint>,
    address: Option<Address>,
    gender: Option<String>,
    organization: Option<Reference>,
    period: Option<Period>,
}

/// The mathematical shape of a `PatientContact` value.
pub struct PatientContactV {
    pub relationship: Seq<CodeableConceptV>,
    pub name: Option<HumanNameV>,
    pub telecom: Seq<ContactPointV>,
    pub address: Option<AddressV>,
    pub gender: Option<Seq<char>>,
    pub organization: Option<ReferenceV>,
    pub period: Option<PeriodV>,
}

impl View for PatientContact {
    type V = PatientContactV;

    closed spec fn view(&self) -> PatientContactV {
        PatientContactV {
            relationship: seq_views(self.relationship@),
            name: match self.name {
                Option::Some(ref x) => Option::Some(x@),
                Option::None => Option::None,
            },
            telecom: seq_views(self.telecom@),
            address: match self.address {
                Option::Some(ref x) => Option::Some(x@),
                Option::None => Option::None,
            },
            gender: match self.gender {
                Option::Some(ref s) => Option::Some(s@),
                Option::None => Option::None,
            },
            organization: match self.organization {
                Option::Some(ref x) => Option::Some(x@),
                Option::None => Option::None,
            },
            period: match self.period {
                Option::Some(ref x) => Option::Some(x@),
                Option::None => Option::None,
            },
        }
    }
}

impl PatientContact {
    /// A contact with every part absent.
    pub fn new() -> (r: PatientContact)
        ensures
            r@ == (PatientContactV {
                relationship: Seq::empty(),
                name: Option::None,
                telecom: Seq::empty(),
                address: Option::None,
                gender: Option::None,
                organization: Option::None,
                period: Option::None,
            }),
    {
        broadcast use group_json_views;

        let r = PatientContact {
            relationship: Vec::new(),
            name: Option::None,
            telecom: Vec::new(),
            address: Option::None,
            gender: Option::None,
            organization: Option::None,
            period: Option::None,
        };
        proof {
            assert(r@.relationship =~= Seq::<CodeableConceptV>::empty());
            assert(r@.telecom =~= Seq::<ContactPointV>::empty());
        }
        r
    }

    /// A contact with only its name set.
    pub fn with_name(name: HumanName) -> (r: PatientContact)
        ensures
            r@ == (PatientContactV {
                relationship: Seq::empty(),
                name: Option::Some(name@),
                telecom: Seq::empty(),
                address: Option::None,
                gender: Option::None,
                organization: Option::None,
                period: Option::None,
            }),
    {
        broadcast use group_json_views;

        let r = PatientContact {
            relationship: Vec::new(),
            name: Option::Some(name),
            telecom: Vec::new(),
            address: Option::None,
            gender: Option::None,
            organization: Option::None,
            period: Option::None,
        };
        proof {
            assert(r@.relationship =~= Seq::<CodeableConceptV>::empty());
            assert(r@.telecom =~= Seq::<ContactPointV>::empty());
        }
        r
    }

    /// The relationships, in order.
    pub fn relationship(&self) -> (r: &[CodeableConcept])
        ensures
            seq_views(r@) == self@.relationship,
    {
        self.relationship.as_slice()
    }

    /// The name, when set.
    pub fn name(&self) -> (r: Option<&HumanName>)
        ensures
            match r {
                Option::Some(x) => self@.name == Option::Some(x@),
                Option::None => self@.name is None,
            },
    {
        match &self.name {
            Option::Some(x) => Option::Some(x),
            Option::None => Option::None,
        }
    }

    /// The contact points, in order.
    pub fn telecom(&self) -> (r: &[ContactPoint])
        ensures
            seq_views(r@) == self@.telecom,
    {
        self.telecom.as_slice()
    }

    /// The address, when set.
    pub fn address(&self) -> (r: Option<&Address>)
        ensures
            match r {
                Option::Some(x) => self@.address == Option::Some(x@),
                Option::None => self@.address is None,
            },
    {
        match &self.address {
            Option::Some(x) => Option::Some(x),
            Option::None => Option::None,
        }
    }

    /// The gender, when set.
    pub fn gender(&self) -> (r: Option<&str>)
        ensures
            match r {
                Option::Some(s) => self@.gender == Option::Some(s@),
                Option::None => self@.gender is None,
            },
    {
        match &self.gender {
            Option::Some(s) => Option::Some(s.as_str()),
            Option::None => Option::None,
        }
    }

    /// The organization, when set.
    pub fn organization(&self) -> (r: Option<&Reference>)
        ensures
            match r {
                Option::Some(x) => self@.organization == Option::Some(x@),
                Option::None => self@.organization is None,
            },
    {
        match &self.organization {
            Option::Some(x) => Option::Some(x),
            Option::None => Option::None,
        }
    }

    /// The period, when set.
    pub fn period(&self) -> (r: Option<&Period>)
        ensures
            match r {
                Option::Some(x) => self@.period == Option::Some(x@),
                Option::None => self@.period is None,
            },
    {
        match &self.period {
            Option::Some(x) => Option::Some(x),
            Option::None => Option::None,
        }
    }

    /// Replaces the relationships.
    pub fn set_relationship(&mut self, relationship: Vec<CodeableConcept>)
        ensures
            final(self)@ == (PatientContactV { relationship: seq_views(relationship@), ..old(self)@ }),
    {
        self.relationship = relationship;
    }

    /// Appends a relationship.
    pub fn add_relationship(&mut self, x: CodeableConcept)
        ensures
            final(self)@ == (PatientContactV { relationship: old(self)@.relationship.push(x@), ..old(self)@ }),
    {
        broadcast use group_json_views;

        self.relationship.push(x);
    }

    /// Replaces the name.
    pub fn set_name(&mut self, name: Option<HumanName>)
        ensures
            final(self)@ == (PatientContactV { name: match name {
                Option::Some(ref x) => Option::Some(x@),
                Option::None => Option::None,
            }, ..old(self)@ }),
    {
        self.name = name;
    }

    /// Replaces the contact points.
    pub fn set_telecom(&mut self, telecom: Vec<ContactPoint>)
        ensures
            final(self)@ == (PatientContactV { telecom: seq_views(telecom@), ..old(self)@ }),
    {
        self.telecom = telecom;
    }

    /// Appends a contact point.
    pub fn add_telecom(&mut self, x: ContactPoint)
        ensures
            final(self)@ == (PatientContactV { telecom: old(self)@.telecom.push(x@), ..old(self)@ }),
    {
        broadcast use group_json_views;

        self.telecom.push(x);
    }

    /// Replaces the address.
    pub fn set_address(&mut self, address: Option<Address>)
        ensures
            final(self)@ == (PatientContactV { address: match address {
                Option::Some(ref x) => Option::Some(x@),
                Option::None => Option::None,
            }, ..old(self)@ }),
    {
        self.address = address;
    }

    /// Replaces the gender.
    pub fn set_gender(&mut self, gender: Option<String>)
        ensures
            final(self)@ == (PatientContactV { gender: match gender {
                Option::Some(ref s) => Option::Some(s@),
                Option::None => Option::None,
            }, ..old(self)@ }),
    {
        self.gender = gender;
    }

    /// Replaces the organization.
    pub fn set_organization(&mut self, organization: Option<Reference>)
        ensures
            final(self)@ == (PatientContactV { organization: match organization {
                Option::Some(ref x) => Option::Some(x@),
                Option::None => Option::None,
            }, ..old(self)@ }),
    {
        self.organization = organization;
    }

    /// Replaces the period.
    pub fn set_period(&mut self, period: Option<Period>)
        ensures
            final(self)@ == (PatientContactV { period: match period {
                Option::Some(ref x) => Option::Some(x@),
                Option::None => Option::None,
            }, ..old(self)@ }),
    {
        self.period = period;
    }

    /// Encodes the value as an object in fixed field order, omitting
    /// absent optional fields.
    pub fn encode(&self) -> (r: Json)
        ensures
            r@ == spec_encode_patient_contact(self@),
    {
        broadcast use group_json_views;

        let mut entries: Vec<(String, Json)> = Vec::new();
        proof {
            assert(entries_view(entries@) =~= Seq::<(Seq<char>, JsonV)>::empty());
        }
        put_json(&mut entries, "relationship", encode_codeable_concept_arr(&self.relationship));
        match &self.name {
            Option::Some(x) => put_json(&mut entries, "name", x.encode()),
            Option::None => (),
        };
        put_json(&mut entries, "telecom", encode_contact_point_arr(&self.telecom));
        match &self.address {
            Option::Some(x) => put_json(&mut entries, "address", x.encode()),
            Option::None => (),
        };
        put_opt_str(&mut entries, "gender", &self.gender);
        match &self.organization {
            Option::Some(x) => put_json(&mut entries, "organization", x.encode()),
            Option::None => (),
        };
        match &self.period {
            Option::Some(x) => put_json(&mut entries, "period", x.encode()),
            Option::None => (),
        };
        let r = Json::Obj(entries);
        proof {
            assert(r@->Obj_0 =~= spec_encode_patient_contact(self@)->Obj_0);
        }
        r
    }

    /// Decodes a value from an object, treating a missing key as an
    /// absent optional field; fails on any other shape.
    pub fn decode(j: &Json) -> (r: Result<PatientContact, DecodeError>)
        ensures
            match r {
                Ok(x) => spec_decode_patient_contact(j@) == Ok::<PatientContactV, DecodeError>(x@),
                Err(e) => spec_decode_patient_contact(j@) == Err::<PatientContactV, DecodeError>(e),
            },
    {
        match j {
            Json::Obj(entries) => {
                proof {
                    assert(j@->Obj_0 =~= entries_view(entries@));
                }
                let relationship = match take_req_arr(entries, "relationship") {
                    Ok(a) => match decode_codeable_concept_arr(a) {
                        Ok(v) => v,
                        Err(e) => return Err(e),
                    },
                    Err(e) => return Err(e),
                };
                let name = match take_opt_human_name(entries, "name") {
                    Ok(v) => v,
                    Err(e) => return Err(e),
                };
                let telecom = match take_req_arr(entries, "telecom") {
                    Ok(a) => match decode_contact_point_arr(a) {
                        Ok(v) => v,
                        Err(e) => return Err(e),
                    },
                    Err(e) => return Err(e),
                };
                let address = match take_opt_address(entries, "address") {
                    Ok(v) => v,
                    Err(e) => return Err(e),
                };
                let gender = match take_opt_str(entries, "gender") {
                    Ok(v) => v,
                    Err(e) => return Err(e),
                };
                let organization = match take_opt_reference(entries, "organization") {
                    Ok(v) => v,
                    Err(e) => return Err(e),
                };
                let period = match take_opt_period(entries, "period") {
                    Ok(v) => v,
                    Err(e) => return Err(e),
                };
                Ok(PatientContact { relationship, name, telecom, address, gender, organization, period })
            },
            _ => Err(DecodeError::TypeMismatch),
        }
    }
}

impl Default for PatientContact {
    /// A contact with every part absent.
    fn default() -> (r: PatientContact)
        ensures
            r@ == (PatientContactV {
                relationship: Seq::empty(),
                name: Option::None,
                telecom: Seq::empty(),
                address: Option::None,
                gender: Option::None,
                organization: Option::None,
                period: Option::None,
            }),
    {
        PatientContact::new()
    }
}

/// The encoded form of a `PatientContact` value: its fields in declaration order, each
/// optional field present exactly when set.
pub open spec fn spec_encode_patient_contact(v: PatientContactV) -> JsonV {
    let o = Seq::<(Seq<char>, JsonV)>::empty();
    let o = o.push((("relationship")@, JsonV::Arr(spec_encode_codeable_concept_all(v.relationship))));
    let o = if v.name is Some {
        o.push((("name")@, spec_encode_human_name(v.name->Some_0)))
    } else {
        o
    };
    let o = o.push((("telecom")@, JsonV::Arr(spec_encode_contact_point_all(v.telecom))));
    let o = if v.address is Some {
        o.push((("address")@, spec_encode_address(v.address->Some_0)))
    } else {
        o
    };
    let o = if v.gender is Some {
        o.push((("gender")@, JsonV::Str(v.gender->Some_0)))
    } else {
        o
    };
    let o = if v.organization is Some {
        o.push((("organization")@, spec_encode_reference(v.organization->Some_0)))
    } else {
        o
    };
    let o = if v.period is Some {
        o.push((("period")@, spec_encode_period(v.period->Some_0)))
    } else {
        o
    };
    JsonV::Obj(o)
}

/// The decoded reading of a `PatientContact` value.
pub open spec fn spec_decode_patient_contact(j: JsonV) -> Result<PatientContactV, DecodeError> {
    match j {
        JsonV::Obj(o) => match spec_req_arr(o, ("relationship")@) {
            Ok(relationship_arr) => match spec_decode_codeable_concept_all(relationship_arr) {
                Ok(relationship) => match spec_opt_human_name(o, ("name")@) {
                Ok(name) => match spec_req_arr(o, ("telecom")@) {
                    Ok(telecom_arr) => match spec_decode_contact_point_all(telecom_arr) {
                        Ok(telecom) => match spec_opt_address(o, ("address")@) {
                        Ok(address) => match spec_opt_str(o, ("gender")@) {
                            Ok(gender) => match spec_opt_reference(o, ("organization")@) {
                                Ok(organization) => match spec_opt_period(o, ("period")@) {
                                    Ok(period) => Ok(PatientContactV { relationship, name, telecom, address, gender, organization, period }),
                                    Err(e) => Err(e),
                                },
                                Err(e) => Err(e),
                            },
                            Err(e) => Err(e),
                        },
                        Err(e) => Err(e),
                    },
                        Err(e) => Err(e),
                    },
                    Err(e) => Err(e),
                },
                Err(e) => Err(e),
            },
                Err(e) => Err(e),
            },
            Err(e) => Err(e),
        },
        _ => Err(DecodeError::TypeMismatch),
    }
}

/// Decoding an encoded PatientContact yields the value back.
pub proof fn lemma_patient_contact_round_trip(v: PatientContactV)
    ensures
        spec_decode_patient_contact(spec_encode_patient_contact(v)) == Ok::<PatientContactV, DecodeError>(v),
{
    broadcast use group_json_views;

    reveal_strlit("relationship");
    reveal_strlit("name");
    reveal_strlit("telecom");
    reveal_strlit("address");
    reveal_strlit("gender");
    reveal_strlit("organization");
    reveal_strlit("period");
    assert(("relationship")@.len() == 12);
    assert(("name")@.len() == 4);
    assert(("telecom")@.len() == 7);
    assert(("address")@.len() == 7);
    assert(("gender")@.len() == 6);
    assert(("organization")@.len() == 12);
    assert(("period")@.len() == 6);
    assert(("relationship")@[0] != ("organization")@[0]);
    assert(("telecom")@[0] != ("address")@[0]);
    assert(("gender")@[0] != ("period")@[0]);
    lemma_codeable_concept_all_round_trip(v.relationship);
    if v.name is Some {
        lemma_human_name_round_trip(v.name->Some_0);
    }
    lemma_contact_point_all_round_trip(v.telecom);
    if v.address is Some {
        lemma_address_round_trip(v.address->Some_0);
    }
    if v.organization is Some {
        lemma_reference_round_trip(v.organization->Some_0);
    }
    if v.period is Some {
        lemma_period_round_trip(v.period->Some_0);
    }
    let o = spec_encode_patient_contact(v)->Obj_0;
    assert(lookup(o, ("relationship")@) == Option::Some(JsonV::Arr(spec_encode_codeable_concept_all(v.relationship))));
    assert(lookup(o, ("name")@) == (if v.name is Some {
            Option::Some(spec_encode_human_name(v.name->Some_0))
        } else {
            Option::None
        }));
    assert(lookup(o, ("telecom")@) == Option::Some(JsonV::Arr(spec_encode_contact_point_all(v.telecom))));
    assert(lookup(o, ("address")@) == (if v.address is Some {
            Option::Some(spec_encode_address(v.address->Some_0))
        } else {
            Option::None
        }));
    assert(lookup(o, ("gender")@) == (if v.gender is Some {
            Option::Some(JsonV::Str(v.gender->Some_0))
        } else {
            Option::None
        }));
    assert(lookup(o, ("organization")@) == (if v.organization is Some {
            Option::Some(spec_encode_reference(v.organization->Some_0))
        } else {
            Option::None
        }));
    assert(lookup(o, ("period")@) == (if v.period is Some {
            Option::Some(spec_encode_period(v.period->Some_0))
        } else {
            Option::None
        }));
}

/// The encoded form of a sequence of `PatientContact` values, in order.
pub open spec fn spec_encode_patient_contact_all(vs: Seq<PatientContactV>) -> Seq<JsonV>
    decreases vs,
{
    if vs.len() == 0 {
        Seq::empty()
    } else {
        spec_encode_patient_contact_all(vs.drop_last()).push(spec_encode_patient_contact(vs.last()))
    }
}

/// The decoded reading of an array of `PatientContact` values: all elements must
/// decode, and the first offending element decides the error.
pub open spec fn spec_decode_patient_contact_all(a: Seq<JsonV>) -> Result<Seq<PatientContactV>, DecodeError>
    decreases a,
{
    if a.len() == 0 {
        Ok(Seq::empty())
    } else {
        match spec_decode_patient_contact_all(a.drop_last()) {
            Ok(rest) => match spec_decode_patient_contact(a.last()) {
                Ok(x) => Ok(rest.push(x)),
                Err(e) => Err(e),
            },
            Err(e) => Err(e),
        }
    }
}

/// Decoding an encoded sequence of `PatientContact` values yields the sequence back.
pub proof fn lemma_patient_contact_all_round_trip(vs: Seq<PatientContactV>)
    ensures
        spec_decode_patient_contact_all(spec_encode_patient_contact_all(vs)) == Ok::<Seq<PatientContactV>, DecodeError>(vs),
    decreases vs,
{
    if vs.len() > 0 {
        lemma_patient_contact_all_round_trip(vs.drop_last());
        lemma_patient_contact_round_trip(vs.last());
        let a = spec_encode_patient_contact_all(vs);
        assert(a.drop_last() =~= spec_encode_patient_contact_all(vs.drop_last()));
        assert(vs.drop_last().push(vs.last()) =~= vs);
    } else {
        assert(vs =~= Seq::<PatientContactV>::empty());
    }
}

/// When a prefix of the array decodes and the element after it does not,
/// the whole array fails with that element's error.
proof fn lemma_patient_contact_all_error_at(a: Seq<JsonV>, i: int)
    requires
        0 <= i < a.len(),
        spec_decode_patient_contact_all(a.subrange(0, i)) is Ok,
        spec_decode_patient_contact(a[i]) is Err,
    ensures
        spec_decode_patient_contact_all(a) == Err::<Seq<PatientContactV>, DecodeError>(spec_decode_patient_contact(a[i])->Err_0),
    decreases a,
{
    if i < a.len() - 1 {
        assert(a.drop_last().subrange(0, i) =~= a.subrange(0, i));
        lemma_patient_contact_all_error_at(a.drop_last(), i);
    } else {
        assert(a.drop_last() =~= a.subrange(0, i));
    }
}

/// Encodes a vector of `PatientContact` values as a JSON array.
#[verifier::loop_isolation(false)]
pub fn encode_patient_contact_arr(v: &Vec<PatientContact>) -> (r: Json)
    ensures
        r@ == JsonV::Arr(spec_encode_patient_contact_all(seq_views(v@))),
{
    broadcast use group_json_views;

    let ghost vs = seq_views(v@);
    let mut a: Vec<Json> = Vec::new();
    let n = v.len();
    let mut i: usize = 0;
    proof {
        assert(vs.subrange(0, 0) =~= Seq::<PatientContactV>::empty());
    }
    while i < n
        invariant
            i <= n,
            n == v@.len(),
            vs == seq_views(v@),
            arr_view(a@) =~= spec_encode_patient_contact_all(vs.subrange(0, i as int)),
        decreases n - i,
    {
        a.push(v[i].encode());
        proof {
            assert(vs.subrange(0, i as int + 1).drop_last() =~= vs.subrange(0, i as int));
            assert(arr_view(a@) =~= spec_encode_patient_contact_all(vs.subrange(0, i as int + 1)));
        }
        i = i + 1;
    }
    proof {
        assert(vs.subrange(0, n as int) =~= vs);
        assert(Json::Arr(a)@->Arr_0 =~= arr_view(a@));
    }
    Json::Arr(a)
}

/// Decodes a JSON array into a vector of `PatientContact` values.
#[verifier::loop_isolation(false)]
pub fn decode_patient_contact_arr(a: &Vec<Json>) -> (r: Result<Vec<PatientContact>, DecodeError>)
    ensures
        match r {
            Ok(v) => spec_decode_patient_contact_all(arr_view(a@)) == Ok::<_, DecodeError>(seq_views(v@)),
            Err(e) => spec_decode_patient_contact_all(arr_view(a@)) == Err::<Seq<PatientContactV>, DecodeError>(e),
        },
{
    broadcast use group_json_views;

    let ghost full = arr_view(a@);
    let n = a.len();
    let mut out: Vec<PatientContact> = Vec::new();
    let mut i: usize = 0;
    proof {
        assert(full.subrange(0, 0) =~= Seq::<JsonV>::empty());
        assert(seq_views(out@) =~= Seq::<PatientContactV>::empty());
    }
    while i < n
        invariant
            i <= n,
            n == a@.len(),
            full == arr_view(a@),
            out@.len() == i,
            spec_decode_patient_contact_all(full.subrange(0, i as int)) == Ok::<_, DecodeError>(
                seq_views(out@),
            ),
        decreases n - i,
    {
        let ji = &a[i];
        proof {
            assert(ji@ == full[i as int]);
        }
        match PatientContact::decode(ji) {
            Ok(x) => {
                out.push(x);
                proof {
                    assert(full.subrange(0, i as int + 1).drop_last() =~= full.subrange(
                        0,
                        i as int,
                    ));
                    assert(spec_decode_patient_contact_all(full.subrange(0, i as int + 1)) == Ok::<
                        _,
                        DecodeError,
                    >(seq_views(out@)));
                }
            },
            Err(e) => {
                proof {
                    lemma_patient_contact_all_error_at(full, i as int);
                }
                return Err(e);
            },
        }
        i = i + 1;
    }
    proof {
        assert(full.subrange(0, n as int) =~= full);
    }
    Ok(out)
}

} // verus!
