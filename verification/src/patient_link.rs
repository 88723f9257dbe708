//! The links between patient records.
use crate::json::{DecodeError, Json, JsonV, arr_view, entries_view, group_json_views, lookup, put_json, put_str, seq_views, spec_req_str, take_req_str};
use crate::data_types::reference::{Reference, ReferenceV, lemma_reference_round_trip, spec_encode_reference, spec_req_reference, take_req_reference};
use vstd::prelude::*;

verus! {

/// A link from one patient record to another.
#[derive(Debug, Clone, PartialEq)]
pub struct PatientLink {
    other: Reference,
    link_type: String,
}

/// The mathematical shape of a `PatientLink` value.
pub struct PatientLinkV {
    pub other: ReferenceV,
    pub link_type: Seq<char>,
}

impl View for PatientLink {
    type V = PatientLinkV;

    closed spec fn view(&self) -> PatientLinkV {
        PatientLinkV {
            other: self.other@,
            link_type: self.link_type@,
        }
    }
}

impl PatientLink {
    /// A link with the required target and type.
    pub fn new(other: Reference, link_type: String) -> (r: PatientLink)
        ensures
            r@ == (PatientLinkV {
                other: other@,
                link_type: link_type@,
            }),
    {
        let r = PatientLink {
            other: other,
            link_type: link_type,
        };
        r
    }

    /// The linked record.
    pub fn other(&self) -> (r: &Reference)
        ensures
            r@ == self@.other,
    {
        &self.other
    }

    /// The kind of link.
    pub fn link_type(&self) -> (r: &str)
        ensures
            r@ == self@.link_type,
    {
        self.link_type.as_str()
    }

    /// Replaces the linked record.
    pub fn set_other(&mut self, other: Reference)
        ensures
            final(self)@ == (PatientLinkV { other: other@, ..old(self)@ }),
    {
        self.other = other;
    }

    /// Replaces the kind of link.
    pub fn set_link_type(&mut self, link_type: String)
        ensures
            final(self)@ == (PatientLinkV { link_type: link_type@, ..old(self)@ }),
    {
        self.link_type = link_type;
    }

    /// Encodes the value as an object in fixed field order, omitting
    /// absent optional fields.
    pub fn encode(&self) -> (r: Json)
        ensures
            r@ == spec_encode_patient_link(self@),
    {
        broadcast use group_json_views;

        let mut entries: Vec<(String, Json)> = Vec::new();
        proof {
            assert(entries_view(entries@) =~= Seq::<(Seq<char>, JsonV)>::empty());
        }
        put_json(&mut entries, "other", self.other.encode());
        put_str(&mut entries, "type", self.link_type.as_str());
        let r = Json::Obj(entries);
        proof {
            assert(r@->Obj_0 =~= spec_encode_patient_link(self@)->Obj_0);
        }
        r
    }

    /// Decodes a value from an object, treating a missing key as an
    /// absent optional field; fails on any other shape.
    pub fn decode(j: &Json) -> (r: Result<PatientLink, DecodeError>)
        ensures
            match r {
                Ok(x) => spec_decode_patient_link(j@) == Ok::<PatientLinkV, DecodeError>(x@),
                Err(e) => spec_decode_patient_link(j@) == Err::<PatientLinkV, DecodeError>(e),
            },
    {
        match j {
            Json::Obj(entries) => {
                proof {
                    assert(j@->Obj_0 =~= entries_view(entries@));
                }
                let other = match take_req_reference(entries, "other") {
                    Ok(v) => v,
                    Err(e) => return Err(e),
                };
                let link_type = match take_req_str(entries, "type") {
                    Ok(v) => v,
                    Err(e) => return Err(e),
                };
                Ok(PatientLink { other, link_type })
            },
            _ => Err(DecodeError::TypeMismatch),
        }
    }
}

/// The encoded form of a `PatientLink` value: its fields in declaration order, each
/// optional field present exactly when set.
pub open spec fn spec_encode_patient_link(v: PatientLinkV) -> JsonV {
    let o = Seq::<(Seq<char>, JsonV)>::empty();
    let o = o.push((("other")@, spec_encode_reference(v.other)));
    let o = o.push((("type")@, JsonV::Str(v.link_type)));
    JsonV::Obj(o)
}

/// The decoded reading of a `PatientLink` value.
pub open spec fn spec_decode_patient_link(j: JsonV) -> Result<PatientLinkV, DecodeError> {
    match j {
        JsonV::Obj(o) => match spec_req_reference(o, ("other")@) {
            Ok(other) => match spec_req_str(o, ("type")@) {
                Ok(link_type) => Ok(PatientLinkV { other, link_type }),
                Err(e) => Err(e),
            },
            Err(e) => Err(e),
        },
        _ => Err(DecodeError::TypeMismatch),
    }
}

/// Decoding an encoded PatientLink yields the value back.
pub proof fn lemma_patient_link_round_trip(v: PatientLinkV)
    ensures
        spec_decode_patient_link(spec_encode_patient_link(v)) == Ok::<PatientLinkV, DecodeError>(v),
{
    broadcast use group_json_views;

    reveal_strlit("other");
    reveal_strlit("type");
    assert(("other")@.len() == 5);
    assert(("type")@.len() == 4);
    lemma_reference_round_trip(v.other);
    let o = spec_encode_patient_link(v)->Obj_0;
    assert(lookup(o, ("other")@) == Option::Some(spec_encode_reference(v.other)));
    assert(lookup(o, ("type")@) == Option::Some(JsonV::Str(v.link_type)));
}

/// The encoded form of a sequence of `PatientLink` values, in order.
pub open spec fn spec_encode_patient_link_all(vs: Seq<PatientLinkV>) -> Seq<JsonV>
    decreases vs,
{
    if vs.len() == 0 {
        Seq::empty()
    } else {
        spec_encode_patient_link_all(vs.drop_last()).push(spec_encode_patient_link(vs.last()))
    }
}

/// The decoded reading of an array of `PatientLink` values: all elements must
/// decode, and the first offending element decides the error.
pub open spec fn spec_decode_patient_link_all(a: Seq<JsonV>) -> Result<Seq<PatientLinkV>, DecodeError>
    decreases a,
{
    if a.len() == 0 {
        Ok(Seq::empty())
    } else {
        match spec_decode_patient_link_all(a.drop_last()) {
            Ok(rest) => match spec_decode_patient_link(a.last()) {
                Ok(x) => Ok(rest.push(x)),
                Err(e) => Err(e),
            },
            Err(e) => Err(e),
        }
    }
}

/// Decoding an encoded sequence of `PatientLink` values yields the sequence back.
pub proof fn lemma_patient_link_all_round_trip(vs: Seq<PatientLinkV>)
    ensures
        spec_decode_patient_link_all(spec_encode_patient_link_all(vs)) == Ok::<Seq<PatientLinkV>, DecodeError>(vs),
    decreases vs,
{
    if vs.len() > 0 {
        lemma_patient_link_all_round_trip(vs.drop_last());
        lemma_patient_link_round_trip(vs.last());
        let a = spec_encode_patient_link_all(vs);
        assert(a.drop_last() =~= spec_encode_patient_link_all(vs.drop_last()));
        assert(vs.drop_last().push(vs.last()) =~= vs);
    } else {
        assert(vs =~= Seq::<PatientLinkV>::empty());
    }
}

/// When a prefix of the array decodes and the element after it does not,
/// the whole array fails with that element's error.
proof fn lemma_patient_link_all_error_at(a: Seq<JsonV>, i: int)
    requires
        0 <= i < a.len(),
        spec_decode_patient_link_all(a.subrange(0, i)) is Ok,
        spec_decode_patient_link(a[i]) is Err,
    ensures
        spec_decode_patient_link_all(a) == Err::<Seq<PatientLinkV>, DecodeError>(spec_decode_patient_link(a[i])->Err_0),
    decreases a,
{
    if i < a.len() - 1 {
        assert(a.drop_last().subrange(0, i) =~= a.subrange(0, i));
        lemma_patient_link_all_error_at(a.drop_last(), i);
    } else {
        assert(a.drop_last() =~= a.subrange(0, i));
    }
}

/// Encodes a vector of `PatientLink` values as a JSON array.
#[verifier::loop_isolation(false)]
pub fn encode_patient_link_arr(v: &Vec<PatientLink>) -> (r: Json)
    ensures
        r@ == JsonV::Arr(spec_encode_patient_link_all(seq_views(v@))),
{
    broadcast use group_json_views;

    let ghost vs = seq_views(v@);
    let mut a: Vec<Json> = Vec::new();
    let n = v.len();
    let mut i: usize = 0;
    proof {
        assert(vs.subrange(0, 0) =~= Seq::<PatientLinkV>::empty());
    }
    while i < n
        invariant
            i <= n,
            n == v@.len(),
            vs == seq_views(v@),
            arr_view(a@) =~= spec_encode_patient_link_all(vs.subrange(0, i as int)),
        decreases n - i,
    {
        a.push(v[i].encode());
        proof {
            assert(vs.subrange(0, i as int + 1).drop_last() =~= vs.subrange(0, i as int));
            assert(arr_view(a@) =~= spec_encode_patient_link_all(vs.subrange(0, i as int + 1)));
        }
        i = i + 1;
    }
    proof {
        assert(vs.subrange(0, n as int) =~= vs);
        assert(Json::Arr(a)@->Arr_0 =~= arr_view(a@));
    }
    Json::Arr(a)
}

/// Decodes a JSON array into a vector of `PatientLink` values.
#[verifier::loop_isolation(false)]
pub fn decode_patient_link_arr(a: &Vec<Json>) -> (r: Result<Vec<PatientLink>, DecodeError>)
    ensures
        match r {
            Ok(v) => spec_decode_patient_link_all(arr_view(a@)) == Ok::<_, DecodeError>(seq_views(v@)),
            Err(e) => spec_decode_patient_link_all(arr_view(a@)) == Err::<Seq<PatientLinkV>, DecodeError>(e),
        },
{
    broadcast use group_json_views;

    let ghost full = arr_view(a@);
    let n = a.len();
    let mut out: Vec<PatientLink> = Vec::new();
    let mut i: usize = 0;
    proof {
        assert(full.subrange(0, 0) =~= Seq::<JsonV>::empty());
        assert(seq_views(out@) =~= Seq::<PatientLinkV>::empty());
    }
    while i < n
        invariant
            i <= n,
            n == a@.len(),
            full == arr_view(a@),
            out@.len() == i,
            spec_decode_patient_link_all(full.subrange(0, i as int)) == Ok::<_, DecodeError>(
                seq_views(out@),
            ),
        decreases n - i,
    {
        let ji = &a[i];
        proof {
            assert(ji@ == full[i as int]);
        }
        match PatientLink::decode(ji) {
            Ok(x) => {
                out.push(x);
                proof {
                    assert(full.subrange(0, i as int + 1).drop_last() =~= full.subrange(
                        0,
                        i as int,
                    ));
                    assert(spec_decode_patient_link_all(full.subrange(0, i as int + 1)) == Ok::<
                        _,
                        DecodeError,
                    >(seq_views(out@)));
                }
            },
            Err(e) => {
                proof {
                    lemma_patient_link_all_error_at(full, i as int);
                }
                return Err(e);
            },
        }
        i = i + 1;
    }
    proof {
        assert(full.subrange(0, n as int) =~= full);
    }
    Ok(out)
}

} // verus!
