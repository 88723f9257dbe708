//! The procedures attached to an account.
use crate::json::{DecodeError, Json, JsonV, arr_view, entries_view, group_json_views, lookup, put_json, put_opt_str, seq_views, spec_opt_str, spec_req_arr, take_opt_str, take_req_arr};
use crate::data_types::codeable_concept::{CodeableConcept, CodeableConceptV, decode_codeable_concept_arr, encode_codeable_concept_arr, lemma_codeable_concept_all_round_trip, lemma_codeable_concept_round_trip, spec_decode_codeable_concept_all, spec_encode_codeable_concept, spec_encode_codeable_concept_all};
use crate::data_types::reference::{Reference, ReferenceV, decode_reference_arr, encode_reference_arr, lemma_reference_all_round_trip, lemma_reference_round_trip, spec_decode_reference_all, spec_encode_reference, spec_encode_reference_all, spec_req_reference, take_req_reference};
use vstd::prelude::*;

verus! {

/// A procedure attached to an account.
#[derive(Debug, Clone, PartialEq)]
pub struct AccountProcedure {
    sequence: Option<String>,
    code: Reference,
    date_of_service: Option<String>,
    procedure_type: Vec<CodeableConcept>,
    package_code: Vec<CodeableConcept>,
    device: Vec<Reference>,
}

/// The mathematical shape of an `AccountProcedure` value.
pub struct AccountProcedureV {
    pub sequence: Option<Seq<char>>,
    pub code: ReferenceV,
    pub date_of_service: Option<Seq<char>>,
    pub procedure_type: Seq<CodeableConceptV>,
    pub package_code: Seq<CodeableConceptV>,
    pub device: Seq<ReferenceV>,
}

impl View for AccountProcedure {
    type V = AccountProcedureV;

    closed spec fn view(&self) -> AccountProcedureV {
        AccountProcedureV {
            sequence: match self.sequence {
                Option::Some(ref s) => Option::Some(s@),
                Option::None => Option::None,
            },
            code: self.code@,
            date_of_service: match self.date_of_service {
                Option::Some(ref s) => Option::Some(s@),
                Option::None => Option::None,
            },
            procedure_type: seq_views(self.procedure_type@),
            package_code: seq_views(self.package_code@),
            device: seq_views(self.device@),
        }
    }
}

impl AccountProcedure {
    /// A procedure with only the required code.
    pub fn new(code: Reference) -> (r: AccountProcedure)
        ensures
            r@ == (AccountProcedureV {
                sequence: Option::None,
                code: code@,
                date_of_service: Option::None,
                procedure_type: Seq::empty(),
                package_code: Seq::empty(),
                device: Seq::empty(),
            }),
    {
        broadcast use group_json_views;

        let r = AccountProcedure {
            sequence: Option::None,
            code: code,
            date_of_service: Option::None,
            procedure_type: Vec::new(),
            package_code: Vec::new(),
            device: Vec::new(),
        };
        proof {
            assert(r@.procedure_type =~= Seq::<CodeableConceptV>::empty());
            assert(r@.package_code =~= Seq::<CodeableConceptV>::empty());
            assert(r@.device =~= Seq::<ReferenceV>::empty());
        }
        r
    }

    /// The procedure code reference.
    pub fn code(&self) -> (r: &Reference)
        ensures
            r@ == self@.code,
    {
        &self.code
    }

    /// The sequence, when set.
    pub fn sequence(&self) -> (r: Option<&str>)
        ensures
            match r {
                Option::Some(s) => self@.sequence == Option::Some(s@),
                Option::None => self@.sequence is None,
            },
    {
        match &self.sequence {
            Option::Some(s) => Option::Some(s.as_str()),
            Option::None => Option::None,
        }
    }

    /// The date of service, when set.
    pub fn date_of_service(&self) -> (r: Option<&str>)
        ensures
            match r {
                Option::Some(s) => self@.date_of_service == Option::Some(s@),
                Option::None => self@.date_of_service is None,
            },
    {
        match &self.date_of_service {
            Option::Some(s) => Option::Some(s.as_str()),
            Option::None => Option::None,
        }
    }

    /// The procedure types, in order.
    pub fn procedure_type(&self) -> (r: &[CodeableConcept])
        ensures
            seq_views(r@) == self@.procedure_type,
    {
        self.procedure_type.as_slice()
    }

    /// The package codes, in order.
    pub fn package_code(&self) -> (r: &[CodeableConcept])
        ensures
            seq_views(r@) == self@.package_code,
    {
        self.package_code.as_slice()
    }

    /// The devices, in order.
    pub fn device(&self) -> (r: &[Reference])
        ensures
            seq_views(r@) == self@.device,
    {
        self.device.as_slice()
    }

    /// Replaces the procedure code reference.
    pub fn set_code(&mut self, code: Reference)
        ensures
            final(self)@ == (AccountProcedureV { code: code@, ..old(self)@ }),
    {
        self.code = code;
    }

    /// Replaces the sequence.
    pub fn set_sequence(&mut self, sequence: Option<String>)
        ensures
            final(self)@ == (AccountProcedureV { sequence: match sequence {
                Option::Some(ref s) => Option::Some(s@),
                Option::None => Option::None,
            }, ..old(self)@ }),
    {
        self.sequence = sequence;
    }

    /// Replaces the date of service.
    pub fn set_date_of_service(&mut self, date_of_service: Option<String>)
        ensures
            final(self)@ == (AccountProcedureV { date_of_service: match date_of_service {
                Option::Some(ref s) => Option::Some(s@),
                Option::None => Option::None,
            }, ..old(self)@ }),
    {
        self.date_of_service = date_of_service;
    }

    /// Replaces the procedure types.
    pub fn set_procedure_type(&mut self, procedure_type: Vec<CodeableConcept>)
        ensures
            final(self)@ == (AccountProcedureV { procedure_type: seq_views(procedure_type@), ..old(self)@ }),
    {
        self.procedure_type = procedure_type;
    }

    /// Appends a procedure type.
    pub fn add_procedure_type(&mut self, x: CodeableConcept)
        ensures
            final(self)@ == (AccountProcedureV { procedure_type: old(self)@.procedure_type.push(x@), ..old(self)@ }),
    {
        broadcast use group_json_views;

        self.procedure_type.push(x);
    }

    /// Replaces the package codes.
    pub fn set_package_code(&mut self, package_code: Vec<CodeableConcept>)
        ensures
            final(self)@ == (AccountProcedureV { package_code: seq_views(package_code@), ..old(self)@ }),
    {
        self.package_code = package_code;
    }

    /// Appends a package code.
    pub fn add_package_code(&mut self, x: CodeableConcept)
        ensures
            final(self)@ == (AccountProcedureV { package_code: old(self)@.package_code.push(x@), ..old(self)@ }),
    {
        broadcast use group_json_views;

        self.package_code.push(x);
    }

    /// Replaces the devices.
    pub fn set_device(&mut self, device: Vec<Reference>)
        ensures
            final(self)@ == (AccountProcedureV { device: seq_views(device@), ..old(self)@ }),
    {
        self.device = device;
    }

    /// Appends a device.
    pub fn add_device(&mut self, x: Reference)
        ensures
            final(self)@ == (AccountProcedureV { device: old(self)@.device.push(x@), ..old(self)@ }),
    {
        broadcast use group_json_views;

        self.device.push(x);
    }

    /// Encodes the value as an object in fixed field order, omitting
    /// absent optional fields.
    pub fn encode(&self) -> (r: Json)
        ensures
            r@ == spec_encode_account_procedure(self@),
    {
        broadcast use group_json_views;

        let mut entries: Vec<(String, Json)> = Vec::new();
        proof {
            assert(entries_view(entries@) =~= Seq::<(Seq<char>, JsonV)>::empty());
        }
        put_opt_str(&mut entries, "sequence", &self.sequence);
        put_json(&mut entries, "code", self.code.encode());
        put_opt_str(&mut entries, "dateOfService", &self.date_of_service);
        put_json(&mut entries, "type", encode_codeable_concept_arr(&self.procedure_type));
        put_json(&mut entries, "packageCode", encode_codeable_concept_arr(&self.package_code));
        put_json(&mut entries, "device", encode_reference_arr(&self.device));
        let r = Json::Obj(entries);
        proof {
            assert(r@->Obj_0 =~= spec_encode_account_procedure(self@)->Obj_0);
        }
        r
    }

    /// Decodes a value from an object, treating a missing key as an
    /// absent optional field; fails on any other shape.
    pub fn decode(j: &Json) -> (r: Result<AccountProcedure, DecodeError>)
        ensures
            match r {
                Ok(x) => spec_decode_account_procedure(j@) == Ok::<AccountProcedureV, DecodeError>(x@),
                Err(e) => spec_decode_account_procedure(j@) == Err::<AccountProcedureV, DecodeError>(e),
            },
    {
        match j {
            Json::Obj(entries) => {
                proof {
                    assert(j@->Obj_0 =~= entries_view(entries@));
                }
                let sequence = match take_opt_str(entries, "sequence") {
                    Ok(v) => v,
                    Err(e) => return Err(e),
                };
                let code = match take_req_reference(entries, "code") {
                    Ok(v) => v,
                    Err(e) => return Err(e),
                };
                let date_of_service = match take_opt_str(entries, "dateOfService") {
                    Ok(v) => v,
                    Err(e) => return Err(e),
                };
                let procedure_type = match take_req_arr(entries, "type") {
                    Ok(a) => match decode_codeable_concept_arr(a) {
                        Ok(v) => v,
                        Err(e) => return Err(e),
                    },
                    Err(e) => return Err(e),
                };
                let package_code = match take_req_arr(entries, "packageCode") {
                    Ok(a) => match decode_codeable_concept_arr(a) {
                        Ok(v) => v,
                        Err(e) => return Err(e),
                    },
                    Err(e) => return Err(e),
                };
                let device = match take_req_arr(entries, "device") {
                    Ok(a) => match decode_reference_arr(a) {
                        Ok(v) => v,
                        Err(e) => return Err(e),
                    },
                    Err(e) => return Err(e),
                };
                Ok(AccountProcedure { sequence, code, date_of_service, procedure_type, package_code, device })
            },
            _ => Err(DecodeError::TypeMismatch),
        }
    }
}

/// The encoded form of an `AccountProcedure` value: its fields in declaration order, each
/// optional field present exactly when set.
pub open spec fn spec_encode_account_procedure(v: AccountProcedureV) -> JsonV {
    let o = Seq::<(Seq<char>, JsonV)>::empty();
    let o = if v.sequence is Some {
        o.push((("sequence")@, JsonV::Str(v.sequence->Some_0)))
    } else {
        o
    };
    let o = o.push((("code")@, spec_encode_reference(v.code)));
    let o = if v.date_of_service is Some {
        o.push((("dateOfService")@, JsonV::Str(v.date_of_service->Some_0)))
    } else {
        o
    };
    let o = o.push((("type")@, JsonV::Arr(spec_encode_codeable_concept_all(v.procedure_type))));
    let o = o.push((("packageCode")@, JsonV::Arr(spec_encode_codeable_concept_all(v.package_code))));
    let o = o.push((("device")@, JsonV::Arr(spec_encode_reference_all(v.device))));
    JsonV::Obj(o)
}

/// The decoded reading of an `AccountProcedure` value.
pub open spec fn spec_decode_account_procedure(j: JsonV) -> Result<AccountProcedureV, DecodeError> {
    match j {
        JsonV::Obj(o) => match spec_opt_str(o, ("sequence")@) {
            Ok(sequence) => match spec_req_reference(o, ("code")@) {
                Ok(code) => match spec_opt_str(o, ("dateOfService")@) {
                    Ok(date_of_service) => match spec_req_arr(o, ("type")@) {
                        Ok(procedure_type_arr) => match spec_decode_codeable_concept_all(procedure_type_arr) {
                            Ok(procedure_type) => match spec_req_arr(o, ("packageCode")@) {
                            Ok(package_code_arr) => match spec_decode_codeable_concept_all(package_code_arr) {
                                Ok(package_code) => match spec_req_arr(o, ("device")@) {
                                Ok(device_arr) => match spec_decode_reference_all(device_arr) {
                                    Ok(device) => Ok(AccountProcedureV { sequence, code, date_of_service, procedure_type, package_code, device }),
                                    Err(e) => Err(e),
                                },
                                Err(e) => Err(e),
                            },
                                Err(e) => Err(e),
                            },
                            Err(e) => Err(e),
                        },
                            Err(e) => Err(e),
                        },
                        Err(e) => Err(e),
                    },
                    Err(e) => Err(e),
                },
                Err(e) => Err(e),
            },
            Err(e) => Err(e),
        },
        _ => Err(DecodeError::TypeMismatch),
    }
}

/// Decoding an encoded AccountProcedure yields the value back.
pub proof fn lemma_account_procedure_round_trip(v: AccountProcedureV)
    ensures
        spec_decode_account_procedure(spec_encode_account_procedure(v)) == Ok::<AccountProcedureV, DecodeError>(v),
{
    broadcast use group_json_views;

    reveal_strlit("sequence");
    reveal_strlit("code");
    reveal_strlit("dateOfService");
    reveal_strlit("type");
    reveal_strlit("packageCode");
    reveal_strlit("device");
    assert(("sequence")@.len() == 8);
    assert(("code")@.len() == 4);
    assert(("dateOfService")@.len() == 13);
    assert(("type")@.len() == 4);
    assert(("packageCode")@.len() == 11);
    assert(("device")@.len() == 6);
    assert(("code")@[0] != ("type")@[0]);
    lemma_reference_round_trip(v.code);
    lemma_codeable_concept_all_round_trip(v.procedure_type);
    lemma_codeable_concept_all_round_trip(v.package_code);
    lemma_reference_all_round_trip(v.device);
    let o = spec_encode_account_procedure(v)->Obj_0;
    assert(lookup(o, ("sequence")@) == (if v.sequence is Some {
            Option::Some(JsonV::Str(v.sequence->Some_0))
        } else {
            Option::None
        }));
    assert(lookup(o, ("code")@) == Option::Some(spec_encode_reference(v.code)));
    assert(lookup(o, ("dateOfService")@) == (if v.date_of_service is Some {
            Option::Some(JsonV::Str(v.date_of_service->Some_0))
        } else {
            Option::None
        }));
    assert(lookup(o, ("type")@) == Option::Some(JsonV::Arr(spec_encode_codeable_concept_all(v.procedure_type))));
    assert(lookup(o, ("packageCode")@) == Option::Some(JsonV::Arr(spec_encode_codeable_concept_all(v.package_code))));
    assert(lookup(o, ("device")@) == Option::Some(JsonV::Arr(spec_encode_reference_all(v.device))));
}

/// The encoded form of a sequence of `AccountProcedure` values, in order.
pub open spec fn spec_encode_account_procedure_all(vs: Seq<AccountProcedureV>) -> Seq<JsonV>
    decreases vs,
{
    if vs.len() == 0 {
        Seq::empty()
    } else {
        spec_encode_account_procedure_all(vs.drop_last()).push(spec_encode_account_procedure(vs.last()))
    }
}

/// The decoded reading of an array of `AccountProcedure` values: all elements must
/// decode, and the first offending element decides the error.
pub open spec fn spec_decode_account_procedure_all(a: Seq<JsonV>) -> Result<Seq<AccountProcedureV>, DecodeError>
    decreases a,
{
    if a.len() == 0 {
        Ok(Seq::empty())
    } else {
        match spec_decode_account_procedure_all(a.drop_last()) {
            Ok(rest) => match spec_decode_account_procedure(a.last()) {
                Ok(x) => Ok(rest.push(x)),
                Err(e) => Err(e),
            },
            Err(e) => Err(e),
        }
    }
}

/// Decoding an encoded sequence of `AccountProcedure` values yields the sequence back.
pub proof fn lemma_account_procedure_all_round_trip(vs: Seq<AccountProcedureV>)
    ensures
        spec_decode_account_procedure_all(spec_encode_account_procedure_all(vs)) == Ok::<Seq<AccountProcedureV>, DecodeError>(vs),
    decreases vs,
{
    if vs.len() > 0 {
        lemma_account_procedure_all_round_trip(vs.drop_last());
        lemma_account_procedure_round_trip(vs.last());
        let a = spec_encode_account_procedure_all(vs);
        assert(a.drop_last() =~= spec_encode_account_procedure_all(vs.drop_last()));
        assert(vs.drop_last().push(vs.last()) =~= vs);
    } else {
        assert(vs =~= Seq::<AccountProcedureV>::empty());
    }
}

/// When a prefix of the array decodes and the element after it does not,
/// the whole array fails with that element's error.
proof fn lemma_account_procedure_all_error_at(a: Seq<JsonV>, i: int)
    requires
        0 <= i < a.len(),
        spec_decode_account_procedure_all(a.subrange(0, i)) is Ok,
        spec_decode_account_procedure(a[i]) is Err,
    ensures
        spec_decode_account_procedure_all(a) == Err::<Seq<AccountProcedureV>, DecodeError>(spec_decode_account_procedure(a[i])->Err_0),
    decreases a,
{
    if i < a.len() - 1 {
        assert(a.drop_last().subrange(0, i) =~= a.subrange(0, i));
        lemma_account_procedure_all_error_at(a.drop_last(), i);
    } else {
        assert(a.drop_last() =~= a.subrange(0, i));
    }
}

/// Encodes a vector of `AccountProcedure` values as a JSON array.
#[verifier::loop_isolation(false)]
pub fn encode_account_procedure_arr(v: &Vec<AccountProcedure>) -> (r: Json)
    ensures
        r@ == JsonV::Arr(spec_encode_account_procedure_all(seq_views(v@))),
{
    broadcast use group_json_views;

    let ghost vs = seq_views(v@);
    let mut a: Vec<Json> = Vec::new();
    let n = v.len();
    let mut i: usize = 0;
    proof {
        assert(vs.subrange(0, 0) =~= Seq::<AccountProcedureV>::empty());
    }
    while i < n
        invariant
            i <= n,
            n == v@.len(),
            vs == seq_views(v@),
            arr_view(a@) =~= spec_encode_account_procedure_all(vs.subrange(0, i as int)),
        decreases n - i,
    {
        a.push(v[i].encode());
        proof {
            assert(vs.subrange(0, i as int + 1).drop_last() =~= vs.subrange(0, i as int));
            assert(arr_view(a@) =~= spec_encode_account_procedure_all(vs.subrange(0, i as int + 1)));
        }
        i = i + 1;
    }
    proof {
        assert(vs.subrange(0, n as int) =~= vs);
        assert(Json::Arr(a)@->Arr_0 =~= arr_view(a@));
    }
    Json::Arr(a)
}

/// Decodes a JSON array into a vector of `AccountProcedure` values.
#[verifier::loop_isolation(false)]
pub fn decode_account_procedure_arr(a: &Vec<Json>) -> (r: Result<Vec<AccountProcedure>, DecodeError>)
    ensures
        match r {
            Ok(v) => spec_decode_account_procedure_all(arr_view(a@)) == Ok::<_, DecodeError>(seq_views(v@)),
            Err(e) => spec_decode_account_procedure_all(arr_view(a@)) == Err::<Seq<AccountProcedureV>, DecodeError>(e),
        },
{
    broadcast use group_json_views;

    let ghost full = arr_view(a@);
    let n = a.len();
    let mut out: Vec<AccountProcedure> = Vec::new();
    let mut i: usize = 0;
    proof {
        assert(full.subrange(0, 0) =~= Seq::<JsonV>::empty());
        assert(seq_views(out@) =~= Seq::<AccountProcedureV>::empty());
    }
    while i < n
        invariant
            i <= n,
            n == a@.len(),
            full == arr_view(a@),
            out@.len() == i,
            spec_decode_account_procedure_all(full.subrange(0, i as int)) == Ok::<_, DecodeError>(
                seq_views(out@),
            ),
        decreases n - i,
    {
        let ji = &a[i];
        proof {
            assert(ji@ == full[i as int]);
        }
        match AccountProcedure::decode(ji) {
            Ok(x) => {
                out.push(x);
                proof {
                    assert(full.subrange(0, i as int + 1).drop_last() =~= full.subrange(
                        0,
                        i as int,
                    ));
                    assert(spec_decode_account_procedure_all(full.subrange(0, i as int + 1)) == Ok::<
                        _,
                        DecodeError,
                    >(seq_views(out@)));
                }
            },
            Err(e) => {
                proof {
                    lemma_account_procedure_all_error_at(full, i as int);
                }
                return Err(e);
            },
        }
        i = i + 1;
    }
    proof {
        assert(full.subrange(0, n as int) =~= full);
    }
    Ok(out)
}

} // verus!
