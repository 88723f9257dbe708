//! The diagnoses attached to an account.
use crate::json::{DecodeError, Json, JsonV, arr_view, entries_view, group_json_views, lookup, put_json, put_opt_bool, put_opt_str, seq_views, spec_opt_bool, spec_opt_str, spec_req_arr, take_opt_bool, take_opt_str, take_req_arr};
use crate::data_types::codeable_concept::{CodeableConcept, CodeableConceptV, decode_codeable_concept_arr, encode_codeable_concept_arr, lemma_codeable_concept_all_round_trip, lemma_codeable_concept_round_trip, spec_decode_codeable_concept_all, spec_encode_codeable_concept, spec_encode_codeable_concept_all};
use crate::data_types::reference::{Reference, ReferenceV, lemma_reference_round_trip, spec_encode_reference, spec_req_reference, take_req_reference};
use vstd::prelude::*;

verus! {

/// A diagnosis attached to an account.
#[derive(Debug, Clone, PartialEq)]
pub struct AccountDiagnosis {
    sequence: Option<String>,
    condition: Reference,
    date_of_diagnosis: Option<String>,
    diagnosis_type: Vec<CodeableConcept>,
    on_admission: Option<bool>,
    package_code: Vec<CodeableConcept>,
}

/// The mathematical shape of an `AccountDiagnosis` value.
pub struct AccountDiagnosisV {
    pub sequence: Option<Seq<char>>,
    pub condition: ReferenceV,
    pub date_of_diagnosis: Option<Seq<char>>,
    pub diagnosis_type: Seq<CodeableConceptV>,
    pub on_admission: Option<bool>,
    pub package_code: Seq<CodeableConceptV>,
}

impl View for AccountDiagnosis {
    type V = AccountDiagnosisV;

    closed spec fn view(&self) -> AccountDiagnosisV {
        AccountDiagnosisV {
            sequence: match self.sequence {
                Option::Some(ref s) => Option::Some(s@),
                Option::None => Option::None,
            },
            condition: self.condition@,
            date_of_diagnosis: match self.date_of_diagnosis {
                Option::Some(ref s) => Option::Some(s@),
                Option::None => Option::None,
            },
            diagnosis_type: seq_views(self.diagnosis_type@),
            on_admission: self.on_admission,
            package_code: seq_views(self.package_code@),
        }
    }
}

impl AccountDiagnosis {
    /// A diagnosis with only the required condition.
    pub fn new(condition: Reference) -> (r: AccountDiagnosis)
        ensures
            r@ == (AccountDiagnosisV {
                sequence: Option::None,
                condition: condition@,
                date_of_diagnosis: Option::None,
                diagnosis_type: Seq::empty(),
                on_admission: Option::None,
                package_code: Seq::empty(),
            }),
    {
        broadcast use group_json_views;

        let r = AccountDiagnosis {
            sequence: Option::None,
            condition: condition,
            date_of_diagnosis: Option::None,
            diagnosis_type: Vec::new(),
            on_admission: Option::None,
            package_code: Vec::new(),
        };
        proof {
            assert(r@.diagnosis_type =~= Seq::<CodeableConceptV>::empty());
            assert(r@.package_code =~= Seq::<CodeableConceptV>::empty());
        }
        r
    }

    /// The condition reference.
    pub fn condition(&self) -> (r: &Reference)
        ensures
            r@ == self@.condition,
    {
        &self.condition
    }

    /// The sequence, when set.
    pub fn sequence(&self) -> (r: Option<&str>)
        ensures
            match r {
                Option::Some(s) => self@.sequence == Option::Some(s@),
                Option::None => self@.sequence is None,
            },
    {
        match &self.sequence {
            Option::Some(s) => Option::Some(s.as_str()),
            Option::None => Option::None,
        }
    }

    /// The date of diagnosis, when set.
    pub fn date_of_diagnosis(&self) -> (r: Option<&str>)
        ensures
            match r {
                Option::Some(s) => self@.date_of_diagnosis == Option::Some(s@),
                Option::None => self@.date_of_diagnosis is None,
            },
    {
        match &self.date_of_diagnosis {
            Option::Some(s) => Option::Some(s.as_str()),
            Option::None => Option::None,
        }
    }

    /// The diagnosis types, in order.
    pub fn diagnosis_type(&self) -> (r: &[CodeableConcept])
        ensures
            seq_views(r@) == self@.diagnosis_type,
    {
        self.diagnosis_type.as_slice()
    }

    /// The on-admission flag, when set.
    pub fn on_admission(&self) -> (r: Option<bool>)
        ensures
            r == self@.on_admission,
    {
        self.on_admission
    }

    /// The package codes, in order.
    pub fn package_code(&self) -> (r: &[CodeableConcept])
        ensures
            seq_views(r@) == self@.package_code,
    {
        self.package_code.as_slice()
    }

    /// Replaces the condition reference.
    pub fn set_condition(&mut self, condition: Reference)
        ensures
            final(self)@ == (AccountDiagnosisV { condition: condition@, ..old(self)@ }),
    {
        self.condition = condition;
    }

    /// Replaces the sequence.
    pub fn set_sequence(&mut self, sequence: Option<String>)
        ensures
            final(self)@ == (AccountDiagnosisV { sequence: match sequence {
                Option::Some(ref s) => Option::Some(s@),
                Option::None => Option::None,
            }, ..old(self)@ }),
    {
        self.sequence = sequence;
    }

    /// Replaces the date of diagnosis.
    pub fn set_date_of_diagnosis(&mut self, date_of_diagnosis: Option<String>)
        ensures
            final(self)@ == (AccountDiagnosisV { date_of_diagnosis: match date_of_diagnosis {
                Option::Some(ref s) => Option::Some(s@),
                Option::None => Option::None,
            }, ..old(self)@ }),
    {
        self.date_of_diagnosis = date_of_diagnosis;
    }

    /// Replaces the diagnosis types.
    pub fn set_diagnosis_type(&mut self, diagnosis_type: Vec<CodeableConcept>)
        ensures
            final(self)@ == (AccountDiagnosisV { diagnosis_type: seq_views(diagnosis_type@), ..old(self)@ }),
    {
        self.diagnosis_type = diagnosis_type;
    }

    /// Appends a diagnosis type.
    pub fn add_diagnosis_type(&mut self, x: CodeableConcept)
        ensures
            final(self)@ == (AccountDiagnosisV { diagnosis_type: old(self)@.diagnosis_type.push(x@), ..old(self)@ }),
    {
        broadcast use group_json_views;

        self.diagnosis_type.push(x);
    }

    /// Replaces the on-admission flag.
    pub fn set_on_admission(&mut self, on_admission: Option<bool>)
        ensures
            final(self)@ == (AccountDiagnosisV { on_admission: on_admission, ..old(self)@ }),
    {
        self.on_admission = on_admission;
    }

    /// Replaces the package codes.
    pub fn set_package_code(&mut self, package_code: Vec<CodeableConcept>)
        ensures
            final(self)@ == (AccountDiagnosisV { package_code: seq_views(package_code@), ..old(self)@ }),
    {
        self.package_code = package_code;
    }

    /// Appends a package code.
    pub fn add_package_code(&mut self, x: CodeableConcept)
        ensures
            final(self)@ == (AccountDiagnosisV { package_code: old(self)@.package_code.push(x@), ..old(self)@ }),
    {
        broadcast use group_json_views;

        self.package_code.push(x);
    }

    /// Encodes the value as an object in fixed field order, omitting
    /// absent optional fields.
    pub fn encode(&self) -> (r: Json)
        ensures
            r@ == spec_encode_account_diagnosis(self@),
    {
        broadcast use group_json_views;

        let mut entries: Vec<(String, Json)> = Vec::new();
        proof {
            assert(entries_view(entries@) =~= Seq::<(Seq<char>, JsonV)>::empty());
        }
        put_opt_str(&mut entries, "sequence", &self.sequence);
        put_json(&mut entries, "condition", self.condition.encode());
        put_opt_str(&mut entries, "dateOfDiagnosis", &self.date_of_diagnosis);
        put_json(&mut entries, "type", encode_codeable_concept_arr(&self.diagnosis_type));
        put_opt_bool(&mut entries, "onAdmission", &self.on_admission);
        put_json(&mut entries, "packageCode", encode_codeable_concept_arr(&self.package_code));
        let r = Json::Obj(entries);
        proof {
            assert(r@->Obj_0 =~= spec_encode_account_diagnosis(self@)->Obj_0);
        }
        r
    }

    /// Decodes a value from an object, treating a missing key as an
    /// absent optional field; fails on any other shape.
    pub fn decode(j: &Json) -> (r: Result<AccountDiagnosis, DecodeError>)
        ensures
            match r {
                Ok(x) => spec_decode_account_diagnosis(j@) == Ok::<AccountDiagnosisV, DecodeError>(x@),
                Err(e) => spec_decode_account_diagnosis(j@) == Err::<AccountDiagnosisV, DecodeError>(e),
            },
    {
        match j {
            Json::Obj(entries) => {
                proof {
                    assert(j@->Obj_0 =~= entries_view(entries@));
                }
                let sequence = match take_opt_str(entries, "sequence") {
                    Ok(v) => v,
                    Err(e) => return Err(e),
                };
                let condition = match take_req_reference(entries, "condition") {
                    Ok(v) => v,
                    Err(e) => return Err(e),
                };
                let date_of_diagnosis = match take_opt_str(entries, "dateOfDiagnosis") {
                    Ok(v) => v,
                    Err(e) => return Err(e),
                };
                let diagnosis_type = match take_req_arr(entries, "type") {
                    Ok(a) => match decode_codeable_concept_arr(a) {
                        Ok(v) => v,
                        Err(e) => return Err(e),
                    },
                    Err(e) => return Err(e),
                };
                let on_admission = match take_opt_bool(entries, "onAdmission") {
                    Ok(v) => v,
                    Err(e) => return Err(e),
                };
                let package_code = match take_req_arr(entries, "packageCode") {
                    Ok(a) => match decode_codeable_concept_arr(a) {
                        Ok(v) => v,
                        Err(e) => return Err(e),
                    },
                    Err(e) => return Err(e),
                };
                Ok(AccountDiagnosis { sequence, condition, date_of_diagnosis, diagnosis_type, on_admission, package_code })
            },
            _ => Err(DecodeError::TypeMismatch),
        }
    }
}

/// The encoded form of an `AccountDiagnosis` value: its fields in declaration order, each
/// optional field present exactly when set.
pub open spec fn spec_encode_account_diagnosis(v: AccountDiagnosisV) -> JsonV {
    let o = Seq::<(Seq<char>, JsonV)>::empty();
    let o = if v.sequence is Some {
        o.push((("sequence")@, JsonV::Str(v.sequence->Some_0)))
    } else {
        o
    };
    let o = o.push((("condition")@, spec_encode_reference(v.condition)));
    let o = if v.date_of_diagnosis is Some {
        o.push((("dateOfDiagnosis")@, JsonV::Str(v.date_of_diagnosis->Some_0)))
    } else {
        o
    };
    let o = o.push((("type")@, JsonV::Arr(spec_encode_codeable_concept_all(v.diagnosis_type))));
    let o = if v.on_admission is Some {
        o.push((("onAdmission")@, JsonV::Bool(v.on_admission->Some_0)))
    } else {
        o
    };
    let o = o.push((("packageCode")@, JsonV::Arr(spec_encode_codeable_concept_all(v.package_code))));
    JsonV::Obj(o)
}

/// The decoded reading of an `AccountDiagnosis` value.
pub open spec fn spec_decode_account_diagnosis(j: JsonV) -> Result<AccountDiagnosisV, DecodeError> {
    match j {
        JsonV::Obj(o) => match spec_opt_str(o, ("sequence")@) {
            Ok(sequence) => match spec_req_reference(o, ("condition")@) {
                Ok(condition) => match spec_opt_str(o, ("dateOfDiagnosis")@) {
                    Ok(date_of_diagnosis) => match spec_req_arr(o, ("type")@) {
                        Ok(diagnosis_type_arr) => match spec_decode_codeable_concept_all(diagnosis_type_arr) {
                            Ok(diagnosis_type) => match spec_opt_bool(o, ("onAdmission")@) {
                            Ok(on_admission) => match spec_req_arr(o, ("packageCode")@) {
                                Ok(package_code_arr) => match spec_decode_codeable_concept_all(package_code_arr) {
                                    Ok(package_code) => Ok(AccountDiagnosisV { sequence, condition, date_of_diagnosis, diagnosis_type, on_admission, package_code }),
                                    Err(e) => Err(e),
                                },
                                Err(e) => Err(e),
                            },
                            Err(e) => Err(e),
                        },
                            Err(e) => Err(e),
                        },
                        Err(e) => Err(e),
                    },
                    Err(e) => Err(e),
                },
                Err(e) => Err(e),
            },
            Err(e) => Err(e),
        },
        _ => Err(DecodeError::TypeMismatch),
    }
}

/// Decoding an encoded AccountDiagnosis yields the value back.
pub proof fn lemma_account_diagnosis_round_trip(v: AccountDiagnosisV)
    ensures
        spec_decode_account_diagnosis(spec_encode_account_diagnosis(v)) == Ok::<AccountDiagnosisV, DecodeError>(v),
{
    broadcast use group_json_views;

    reveal_strlit("sequence");
    reveal_strlit("condition");
    reveal_strlit("dateOfDiagnosis");
    reveal_strlit("type");
    reveal_strlit("onAdmission");
    reveal_strlit("packageCode");
    assert(("sequence")@.len() == 8);
    assert(("condition")@.len() == 9);
    assert(("dateOfDiagnosis")@.len() == 15);
    assert(("type")@.len() == 4);
    assert(("onAdmission")@.len() == 11);
    assert(("packageCode")@.len() == 11);
    assert(("onAdmission")@[0] != ("packageCode")@[0]);
    lemma_reference_round_trip(v.condition);
    lemma_codeable_concept_all_round_trip(v.diagnosis_type);
    lemma_codeable_concept_all_round_trip(v.package_code);
    let o = spec_encode_account_diagnosis(v)->Obj_0;
    assert(lookup(o, ("sequence")@) == (if v.sequence is Some {
            Option::Some(JsonV::Str(v.sequence->Some_0))
        } else {
            Option::None
        }));
    assert(lookup(o, ("condition")@) == Option::Some(spec_encode_reference(v.condition)));
    assert(lookup(o, ("dateOfDiagnosis")@) == (if v.date_of_diagnosis is Some {
            Option::Some(JsonV::Str(v.date_of_diagnosis->Some_0))
        } else {
            Option::None
        }));
    assert(lookup(o, ("type")@) == Option::Some(JsonV::Arr(spec_encode_codeable_concept_all(v.diagnosis_type))));
    assert(lookup(o, ("onAdmission")@) == (if v.on_admission is Some {
            Option::Some(JsonV::Bool(v.on_admission->Some_0))
        } else {
            Option::None
        }));
    assert(lookup(o, ("packageCode")@) == Option::Some(JsonV::Arr(spec_encode_codeable_concept_all(v.package_code))));
}

/// The encoded form of a sequence of `AccountDiagnosis` values, in order.
pub open spec fn spec_encode_account_diagnosis_all(vs: Seq<AccountDiagnosisV>) -> Seq<JsonV>
    decreases vs,
{
    if vs.len() == 0 {
        Seq::empty()
    } else {
        spec_encode_account_diagnosis_all(vs.drop_last()).push(spec_encode_account_diagnosis(vs.last()))
    }
}

/// The decoded reading of an array of `AccountDiagnosis` values: all elements must
/// decode, and the first offending element decides the error.
pub open spec fn spec_decode_account_diagnosis_all(a: Seq<JsonV>) -> Result<Seq<AccountDiagnosisV>, DecodeError>
    decreases a,
{
    if a.len() == 0 {
        Ok(Seq::empty())
    } else {
        match spec_decode_account_diagnosis_all(a.drop_last()) {
            Ok(rest) => match spec_decode_account_diagnosis(a.last()) {
                Ok(x) => Ok(rest.push(x)),
                Err(e) => Err(e),
            },
            Err(e) => Err(e),
        }
    }
}

/// Decoding an encoded sequence of `AccountDiagnosis` values yields the sequence back.
pub proof fn lemma_account_diagnosis_all_round_trip(vs: Seq<AccountDiagnosisV>)
    ensures
        spec_decode_account_diagnosis_all(spec_encode_account_diagnosis_all(vs)) == Ok::<Seq<AccountDiagnosisV>, DecodeError>(vs),
    decreases vs,
{
    if vs.len() > 0 {
        lemma_account_diagnosis_all_round_trip(vs.drop_last());
        lemma_account_diagnosis_round_trip(vs.last());
        let a = spec_encode_account_diagnosis_all(vs);
        assert(a.drop_last() =~= spec_encode_account_diagnosis_all(vs.drop_last()));
        assert(vs.drop_last().push(vs.last()) =~= vs);
    } else {
        assert(vs =~= Seq::<AccountDiagnosisV>::empty());
    }
}

/// When a prefix of the array decodes and the element after it does not,
/// the whole array fails with that element's error.
proof fn lemma_account_diagnosis_all_error_at(a: Seq<JsonV>, i: int)
    requires
        0 <= i < a.len(),
        spec_decode_account_diagnosis_all(a.subrange(0, i)) is Ok,
        spec_decode_account_diagnosis(a[i]) is Err,
    ensures
        spec_decode_account_diagnosis_all(a) == Err::<Seq<AccountDiagnosisV>, DecodeError>(spec_decode_account_diagnosis(a[i])->Err_0),
    decreases a,
{
    if i < a.len() - 1 {
        assert(a.drop_last().subrange(0, i) =~= a.subrange(0, i));
        lemma_account_diagnosis_all_error_at(a.drop_last(), i);
    } else {
        assert(a.drop_last() =~= a.subrange(0, i));
    }
}

/// Encodes a vector of `AccountDiagnosis` values as a JSON array.
#[verifier::loop_isolation(false)]
pub fn encode_account_diagnosis_arr(v: &Vec<AccountDiagnosis>) -> (r: Json)
    ensures
        r@ == JsonV::Arr(spec_encode_account_diagnosis_all(seq_views(v@))),
{
    broadcast use group_json_views;

    let ghost vs = seq_views(v@);
    let mut a: Vec<Json> = Vec::new();
    let n = v.len();
    let mut i: usize = 0;
    proof {
        assert(vs.subrange(0, 0) =~= Seq::<AccountDiagnosisV>::empty());
    }
    while i < n
        invariant
            i <= n,
            n == v@.len(),
            vs == seq_views(v@),
            arr_view(a@) =~= spec_encode_account_diagnosis_all(vs.subrange(0, i as int)),
        decreases n - i,
    {
        a.push(v[i].encode());
        proof {
            assert(vs.subrange(0, i as int + 1).drop_last() =~= vs.subrange(0, i as int));
            assert(arr_view(a@) =~= spec_encode_account_diagnosis_all(vs.subrange(0, i as int + 1)));
        }
        i = i + 1;
    }
    proof {
        assert(vs.subrange(0, n as int) =~= vs);
        assert(Json::Arr(a)@->Arr_0 =~= arr_view(a@));
    }
    Json::Arr(a)
}

/// Decodes a JSON array into a vector of `AccountDiagnosis` values.
#[verifier::loop_isolation(false)]
pub fn decode_account_diagnosis_arr(a: &Vec<Json>) -> (r: Result<Vec<AccountDiagnosis>, DecodeError>)
    ensures
        match r {
            Ok(v) => spec_decode_account_diagnosis_all(arr_view(a@)) == Ok::<_, DecodeError>(seq_views(v@)),
            Err(e) => spec_decode_account_diagnosis_all(arr_view(a@)) == Err::<Seq<AccountDiagnosisV>, DecodeError>(e),
        },
{
    broadcast use group_json_views;

    let ghost full = arr_view(a@);
    let n = a.len();
    let mut out: Vec<AccountDiagnosis> = Vec::new();
    let mut i: usize = 0;
    proof {
        assert(full.subrange(0, 0) =~= Seq::<JsonV>::empty());
        assert(seq_views(out@) =~= Seq::<AccountDiagnosisV>::empty());
    }
    while i < n
        invariant
            i <= n,
            n == a@.len(),
            full == arr_view(a@),
            out@.len() == i,
            spec_decode_account_diagnosis_all(full.subrange(0, i as int)) == Ok::<_, DecodeError>(
                seq_views(out@),
            ),
        decreases n - i,
    {
        let ji = &a[i];
        proof {
            assert(ji@ == full[i as int]);
        }
        match AccountDiagnosis::decode(ji) {
            Ok(x) => {
                out.push(x);
                proof {
                    assert(full.subrange(0, i as int + 1).drop_last() =~= full.subrange(
                        0,
                        i as int,
                    ));
                    assert(spec_decode_account_diagnosis_all(full.subrange(0, i as int + 1)) == Ok::<
                        _,
                        DecodeError,
                    >(seq_views(out@)));
                }
            },
            Err(e) => {
                proof {
                    lemma_account_diagnosis_all_error_at(full, i as int);
                }
                return Err(e);
            },
        }
        i = i + 1;
    }
    proof {
        assert(full.subrange(0, n as int) =~= full);
    }
    Ok(out)
}

} // verus!
