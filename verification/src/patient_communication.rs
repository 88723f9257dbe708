//! The languages a patient communicates in.
use crate::json::{DecodeError, Json, JsonV, arr_view, entries_view, group_json_views, lookup, put_json, put_opt_bool, seq_views, spec_opt_bool, take_opt_bool};
use crate::data_types::codeable_concept::{CodeableConcept, CodeableConceptV, lemma_codeable_concept_round_trip, spec_encode_codeable_concept, spec_req_codeable_concept, take_req_codeable_concept};
use vstd::prelude::*;

verus! {

/// A language a patient communicates in, with a preference flag.
#[derive(Debug, Clone, PartialEq)]
pub struct PatientCommunication {
    language: CodeableConcept,
    preferred: Option<bool>,
}

/// The mathematical shape of a `PatientCommunication` value.
pub struct PatientCommunicationV {
    pub language: CodeableConceptV,
    pub preferred: Option<bool>,
}

impl View for PatientCommunication {
    type V = PatientCommunicationV;

    closed spec fn view(&self) -> PatientCommunicationV {
        PatientCommunicationV {
            language: self.language@,
            preferred: self.preferred,
        }
    }
}

impl PatientCommunication {
    /// A communication entry with only the required language.
    pub fn new(language: CodeableConcept) -> (r: PatientCommunication)
        ensures
            r@ == (PatientCommunicationV {
                language: language@,
                preferred: Option::None,
            }),
    {
        let r = PatientCommunication {
            language: language,
            preferred: Option::None,
        };
        r
    }

    /// A communication entry with its preference flag set.
    pub fn with_preferred(language: CodeableConcept, preferred: bool) -> (r: PatientCommunication)
        ensures
            r@ == (PatientCommunicationV {
                language: language@,
                preferred: Option::Some(preferred),
            }),
    {
        let r = PatientCommunication {
            language: language,
            preferred: Option::Some(preferred),
        };
        r
    }

    /// The language.
    pub fn language(&self) -> (r: &CodeableConcept)
        ensures
            r@ == self@.language,
    {
        &self.language
    }

    /// The preference flag, when set.
    pub fn preferred(&self) -> (r: Option<bool>)
        ensures
            r == self@.preferred,
    {
        self.preferred
    }

    /// Replaces the language.
    pub fn set_language(&mut self, language: CodeableConcept)
        ensures
            final(self)@ == (PatientCommunicationV { language: language@, ..old(self)@ }),
    {
        self.language = language;
    }

    /// Replaces the preference flag.
    pub fn set_preferred(&mut self, preferred: Option<bool>)
        ensures
            final(self)@ == (PatientCommunicationV { preferred: preferred, ..old(self)@ }),
    {
        self.preferred = preferred;
    }

    /// Encodes the value as an object in fixed field order, omitting
    /// absent optional fields.
    pub fn encode(&self) -> (r: Json)
        ensures
            r@ == spec_encode_patient_communication(self@),
    {
        broadcast use group_json_views;

        let mut entries: Vec<(String, Json)> = Vec::new();
        proof {
            assert(entries_view(entries@) =~= Seq::<(Seq<char>, JsonV)>::empty());
        }
        put_json(&mut entries, "language", self.language.encode());
        put_opt_bool(&mut entries, "preferred", &self.preferred);
        let r = Json::Obj(entries);
        proof {
            assert(r@->Obj_0 =~= spec_encode_patient_communication(self@)->Obj_0);
        }
        r
    }

    /// Decodes a value from an object, treating a missing key as an
    /// absent optional field; fails on any other shape.
    pub fn decode(j: &Json) -> (r: Result<PatientCommunication, DecodeError>)
        ensures
            match r {
                Ok(x) => spec_decode_patient_communication(j@) == Ok::<PatientCommunicationV, DecodeError>(x@),
                Err(e) => spec_decode_patient_communication(j@) == Err::<PatientCommunicationV, DecodeError>(e),
            },
    {
        match j {
            Json::Obj(entries) => {
                proof {
                    assert(j@->Obj_0 =~= entries_view(entries@));
                }
                let language = match take_req_codeable_concept(entries, "language") {
                    Ok(v) => v,
                    Err(e) => return Err(e),
                };
                let preferred = match take_opt_bool(entries, "preferred") {
                    Ok(v) => v,
                    Err(e) => return Err(e),
                };
                Ok(PatientCommunication { language, preferred })
            },
            _ => Err(DecodeError::TypeMismatch),
        }
    }
}

/// The encoded form of a `PatientCommunication` value: its fields in declaration order, each
/// optional field present exactly when set.
pub open spec fn spec_encode_patient_communication(v: PatientCommunicationV) -> JsonV {
    let o = Seq::<(Seq<char>, JsonV)>::empty();
    let o = o.push((("language")@, spec_encode_codeable_concept(v.language)));
    let o = if v.preferred is Some {
        o.push((("preferred")@, JsonV::Bool(v.preferred->Some_0)))
    } else {
        o
    };
    JsonV::Obj(o)
}

/// The decoded reading of a `PatientCommunication` value.
pub open spec fn spec_decode_patient_communication(j: JsonV) -> Result<PatientCommunicationV, DecodeError> {
    match j {
        JsonV::Obj(o) => match spec_req_codeable_concept(o, ("language")@) {
            Ok(language) => match spec_opt_bool(o, ("preferred")@) {
                Ok(preferred) => Ok(PatientCommunicationV { language, preferred }),
                Err(e) => Err(e),
            },
            Err(e) => Err(e),
        },
        _ => Err(DecodeError::TypeMismatch),
    }
}

/// Decoding an encoded PatientCommunication yields the value back.
pub proof fn lemma_patient_communication_round_trip(v: PatientCommunicationV)
    ensures
        spec_decode_patient_communication(spec_encode_patient_communication(v)) == Ok::<PatientCommunicationV, DecodeError>(v),
{
    broadcast use group_json_views;

    reveal_strlit("language");
    reveal_strlit("preferred");
    assert(("language")@.len() == 8);
    assert(("preferred")@.len() == 9);
    lemma_codeable_concept_round_trip(v.language);
    let o = spec_encode_patient_communication(v)->Obj_0;
    assert(lookup(o, ("language")@) == Option::Some(spec_encode_codeable_concept(v.language)));
    assert(lookup(o, ("preferred")@) == (if v.preferred is Some {
            Option::Some(JsonV::Bool(v.preferred->Some_0))
        } else {
            Option::None
        }));
}

/// The encoded form of a sequence of `PatientCommunication` values, in order.
pub open spec fn spec_encode_patient_communication_all(vs: Seq<PatientCommunicationV>) -> Seq<JsonV>
    decreases vs,
{
    if vs.len() == 0 {
        Seq::empty()
    } else {
        spec_encode_patient_communication_all(vs.drop_last()).push(spec_encode_patient_communication(vs.last()))
    }
}

/// The decoded reading of an array of `PatientCommunication` values: all elements must
/// decode, and the first offending element decides the error.
pub open spec fn spec_decode_patient_communication_all(a: Seq<JsonV>) -> Result<Seq<PatientCommunicationV>, DecodeError>
    decreases a,
{
    if a.len() == 0 {
        Ok(Seq::empty())
    } else {
        match spec_decode_patient_communication_all(a.drop_last()) {
            Ok(rest) => match spec_decode_patient_communication(a.last()) {
                Ok(x) => Ok(rest.push(x)),
                Err(e) => Err(e),
            },
            Err(e) => Err(e),
        }
    }
}

/// Decoding an encoded sequence of `PatientCommunication` values yields the sequence back.
pub proof fn lemma_patient_communication_all_round_trip(vs: Seq<PatientCommunicationV>)
    ensures
        spec_decode_patient_communication_all(spec_encode_patient_communication_all(vs)) == Ok::<Seq<PatientCommunicationV>, DecodeError>(vs),
    decreases vs,
{
    if vs.len() > 0 {
        lemma_patient_communication_all_round_trip(vs.drop_last());
        lemma_patient_communication_round_trip(vs.last());
        let a = spec_encode_patient_communication_all(vs);
        assert(a.drop_last() =~= spec_encode_patient_communication_all(vs.drop_last()));
        assert(vs.drop_last().push(vs.last()) =~= vs);
    } else {
        assert(vs =~= Seq::<PatientCommunicationV>::empty());
    }
}

/// When a prefix of the array decodes and the element after it does not,
/// the whole array fails with that element's error.
proof fn lemma_patient_communication_all_error_at(a: Seq<JsonV>, i: int)
    requires
        0 <= i < a.len(),
        spec_decode_patient_communication_all(a.subrange(0, i)) is Ok,
        spec_decode_patient_communication(a[i]) is Err,
    ensures
        spec_decode_patient_communication_all(a) == Err::<Seq<PatientCommunicationV>, DecodeError>(spec_decode_patient_communication(a[i])->Err_0),
    decreases a,
{
    if i < a.len() - 1 {
        assert(a.drop_last().subrange(0, i) =~= a.subrange(0, i));
        lemma_patient_communication_all_error_at(a.drop_last(), i);
    } else {
        assert(a.drop_last() =~= a.subrange(0, i));
    }
}

/// Encodes a vector of `PatientCommunication` values as a JSON array.
#[verifier::loop_isolation(false)]
pub fn encode_patient_communication_arr(v: &Vec<PatientCommunication>) -> (r: Json)
    ensures
        r@ == JsonV::Arr(spec_encode_patient_communication_all(seq_views(v@))),
{
    broadcast use group_json_views;

    let ghost vs = seq_views(v@);
    let mut a: Vec<Json> = Vec::new();
    let n = v.len();
    let mut i: usize = 0;
    proof {
        assert(vs.subrange(0, 0) =~= Seq::<PatientCommunicationV>::empty());
    }
    while i < n
        invariant
            i <= n,
            n == v@.len(),
            vs == seq_views(v@),
            arr_view(a@) =~= spec_encode_patient_communication_all(vs.subrange(0, i as int)),
        decreases n - i,
    {
        a.push(v[i].encode());
        proof {
            assert(vs.subrange(0, i as int + 1).drop_last() =~= vs.subrange(0, i as int));
            assert(arr_view(a@) =~= spec_encode_patient_communication_all(vs.subrange(0, i as int + 1)));
        }
        i = i + 1;
    }
    proof {
        assert(vs.subrange(0, n as int) =~= vs);
        assert(Json::Arr(a)@->Arr_0 =~= arr_view(a@));
    }
    Json::Arr(a)
}

/// Decodes a JSON array into a vector of `PatientCommunication` values.
#[verifier::loop_isolation(false)]
pub fn decode_patient_communication_arr(a: &Vec<Json>) -> (r: Result<Vec<PatientCommunication>, DecodeError>)
    ensures
        match r {
            Ok(v) => spec_decode_patient_communication_all(arr_view(a@)) == Ok::<_, DecodeError>(seq_views(v@)),
            Err(e) => spec_decode_patient_communication_all(arr_view(a@)) == Err::<Seq<PatientCommunicationV>, DecodeError>(e),
        },
{
    broadcast use group_json_views;

    let ghost full = arr_view(a@);
    let n = a.len();
    let mut out: Vec<PatientCommunication> = Vec::new();
    let mut i: usize = 0;
    proof {
        assert(full.subrange(0, 0) =~= Seq::<JsonV>::empty());
        assert(seq_views(out@) =~= Seq::<PatientCommunicationV>::empty());
    }
    while i < n
        invariant
            i <= n,
            n == a@.len(),
            full == arr_view(a@),
            out@.len() == i,
            spec_decode_patient_communication_all(full.subrange(0, i as int)) == Ok::<_, DecodeError>(
                seq_views(out@),
            ),
        decreases n - i,
    {
        let ji = &a[i];
        proof {
            assert(ji@ == full[i as int]);
        }
        match PatientCommunication::decode(ji) {
            Ok(x) => {
                out.push(x);
                proof {
                    assert(full.subrange(0, i as int + 1).drop_last() =~= full.subrange(
                        0,
                        i as int,
                    ));
                    assert(spec_decode_patient_communication_all(full.subrange(0, i as int + 1)) == Ok::<
                        _,
                        DecodeError,
                    >(seq_views(out@)));
                }
            },
            Err(e) => {
                proof {
                    lemma_patient_communication_all_error_at(full, i as int);
                }
                return Err(e);
            },
        }
        i = i + 1;
    }
    proof {
        assert(full.subrange(0, n as int) =~= full);
    }
    Ok(out)
}

} // verus!
