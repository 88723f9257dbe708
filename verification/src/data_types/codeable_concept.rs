//! The `CodeableConcept` and `Coding` composites: coded values with text.
use crate::json::{DecodeError, Json, JsonV, arr_view, entries_view, group_json_views, lookup, put_json, put_opt_bool, put_opt_str, seq_views, spec_opt_bool, spec_opt_str, spec_req_arr, take_opt_bool, take_opt_str, take_req_arr};
use vstd::prelude::*;

verus! {

/// A single coded value drawn from a code system.
#[derive(Debug, Clone, PartialEq)]
pub struct Coding {
    system: Option<String>,
    version: Option<String>,
    code: Option<String>,
    display: Option<String>,
    user_selected: Option<bool>,
}

/// The mathematical shape of a `Coding` value.
pub struct CodingV {
    pub system: Option<Seq<char>>,
    pub version: Option<Seq<char>>,
    pub code: Option<Seq<char>>,
    pub display: Option<Seq<char>>,
    pub user_selected: Option<bool>,
}

impl View for Coding {
    type V = CodingV;

    closed spec fn view(&self) -> CodingV {
        CodingV {
            system: match self.system {
                Option::Some(ref s) => Option::Some(s@),
                Option::None => Option::None,
            },
            version: match self.version {
                Option::Some(ref s) => Option::Some(s@),
                Option::None => Option::None,
            },
            code: match self.code {
                Option::Some(ref s) => Option::Some(s@),
                Option::None => Option::None,
            },
            display: match self.display {
                Option::Some(ref s) => Option::Some(s@),
                Option::None => Option::None,
            },
            user_selected: self.user_selected,
        }
    }
}

impl Coding {
    /// A coding with every part absent.
    pub fn new() -> (r: Coding)
        ensures
            r@ == (CodingV {
                system: Option::None,
                version: Option::None,
                code: Option::None,
                display: Option::None,
                user_selected: Option::None,
            }),
    {
        let r = Coding {
            system: Option::None,
            version: Option::None,
            code: Option::None,
            display: Option::None,
            user_selected: Option::None,
        };
        r
    }

    /// A coding with only its code set.
    pub fn with_code(code: String) -> (r: Coding)
        ensures
            r@ == (CodingV {
                system: Option::None,
                version: Option::None,
                code: Option::Some(code@),
                display: Option::None,
                user_selected: Option::None,
            }),
    {
        let r = Coding {
            system: Option::None,
            version: Option::None,
            code: Option::Some(code),
            display: Option::None,
            user_selected: Option::None,
        };
        r
    }

    /// A coding with its system and code set.
    pub fn with_system_and_code(system: String, code: String) -> (r: Coding)
        ensures
            r@ == (CodingV {
                system: Option::Some(system@),
                version: Option::None,
                code: Option::Some(code@),
                display: Option::None,
                user_selected: Option::None,
            }),
    {
        let r = Coding {
            system: Option::Some(system),
            version: Option::None,
            code: Option::Some(code),
            display: Option::None,
            user_selected: Option::None,
        };
        r
    }

    /// The code system, when set.
    pub fn system(&self) -> (r: Option<&str>)
        ensures
            match r {
                Option::Some(s) => self@.system == Option::Some(s@),
                Option::None => self@.system is None,
            },
    {
        match &self.system {
            Option::Some(s) => Option::Some(s.as_str()),
            Option::None => Option::None,
        }
    }

    /// The system version, when set.
    pub fn version(&self) -> (r: Option<&str>)
        ensures
            match r {
                Option::Some(s) => self@.version == Option::Some(s@),
                Option::None => self@.version is None,
            },
    {
        match &self.version {
            Option::Some(s) => Option::Some(s.as_str()),
            Option::None => Option::None,
        }
    }

    /// The code, when set.
    pub fn code(&self) -> (r: Option<&str>)
        ensures
            match r {
                Option::Some(s) => self@.code == Option::Some(s@),
                Option::None => self@.code is None,
            },
    {
        match &self.code {
            Option::Some(s) => Option::Some(s.as_str()),
            Option::None => Option::None,
        }
    }

    /// The display text, when set.
    pub fn display(&self) -> (r: Option<&str>)
        ensures
            match r {
                Option::Some(s) => self@.display == Option::Some(s@),
                Option::None => self@.display is None,
            },
    {
        match &self.display {
            Option::Some(s) => Option::Some(s.as_str()),
            Option::None => Option::None,
        }
    }

    /// The user-selected flag, when set.
    pub fn user_selected(&self) -> (r: Option<bool>)
        ensures
            r == self@.user_selected,
    {
        self.user_selected
    }

    /// Replaces the code system.
    pub fn set_system(&mut self, system: Option<String>)
        ensures
            final(self)@ == (CodingV { system: match system {
                Option::Some(ref s) => Option::Some(s@),
                Option::None => Option::None,
            }, ..old(self)@ }),
    {
        self.system = system;
    }

    /// Replaces the system version.
    pub fn set_version(&mut self, version: Option<String>)
        ensures
            final(self)@ == (CodingV { version: match version {
                Option::Some(ref s) => Option::Some(s@),
                Option::None => Option::None,
            }, ..old(self)@ }),
    {
        self.version = version;
    }

    /// Replaces the code.
    pub fn set_code(&mut self, code: Option<String>)
        ensures
            final(self)@ == (CodingV { code: match code {
                Option::Some(ref s) => Option::Some(s@),
                Option::None => Option::None,
            }, ..old(self)@ }),
    {
        self.code = code;
    }

    /// Replaces the display text.
    pub fn set_display(&mut self, display: Option<String>)
        ensures
            final(self)@ == (CodingV { display: match display {
                Option::Some(ref s) => Option::Some(s@),
                Option::None => Option::None,
            }, ..old(self)@ }),
    {
        self.display = display;
    }

    /// Replaces the user-selected flag.
    pub fn set_user_selected(&mut self, user_selected: Option<bool>)
        ensures
            final(self)@ == (CodingV { user_selected: user_selected, ..old(self)@ }),
    {
        self.user_selected = user_selected;
    }

    /// Encodes the value as an object in fixed field order, omitting
    /// absent optional fields.
    pub fn encode(&self) -> (r: Json)
        ensures
            r@ == spec_encode_coding(self@),
    {
        broadcast use group_json_views;

        let mut entries: Vec<(String, Json)> = Vec::new();
        proof {
            assert(entries_view(entries@) =~= Seq::<(Seq<char>, JsonV)>::empty());
        }
        put_opt_str(&mut entries, "system", &self.system);
        put_opt_str(&mut entries, "version", &self.version);
        put_opt_str(&mut entries, "code", &self.code);
        put_opt_str(&mut entries, "display", &self.display);
        put_opt_bool(&mut entries, "userSelected", &self.user_selected);
        let r = Json::Obj(entries);
        proof {
            assert(r@->Obj_0 =~= spec_encode_coding(self@)->Obj_0);
        }
        r
    }

    /// Decodes a value from an object, treating a missing key as an
    /// absent optional field; fails on any other shape.
    pub fn decode(j: &Json) -> (r: Result<Coding, DecodeError>)
        ensures
            match r {
                Ok(x) => spec_decode_coding(j@) == Ok::<CodingV, DecodeError>(x@),
                Err(e) => spec_decode_coding(j@) == Err::<CodingV, DecodeError>(e),
            },
    {
        match j {
            Json::Obj(entries) => {
                proof {
                    assert(j@->Obj_0 =~= entries_view(entries@));
                }
                let system = match take_opt_str(entries, "system") {
                    Ok(v) => v,
                    Err(e) => return Err(e),
                };
                let version = match take_opt_str(entries, "version") {
                    Ok(v) => v,
                    Err(e) => return Err(e),
                };
                let code = match take_opt_str(entries, "code") {
                    Ok(v) => v,
                    Err(e) => return Err(e),
                };
                let display = match take_opt_str(entries, "display") {
                    Ok(v) => v,
                    Err(e) => return Err(e),
                };
                let user_selected = match take_opt_bool(entries, "userSelected") {
                    Ok(v) => v,
                    Err(e) => return Err(e),
                };
                Ok(Coding { system, version, code, display, user_selected })
            },
            _ => Err(DecodeError::TypeMismatch),
        }
    }
}

impl Default for Coding {
    /// A coding with every part absent.
    fn default() -> (r: Coding)
        ensures
            r@ == (CodingV {
                system: Option::None,
                version: Option::None,
                code: Option::None,
                display: Option::None,
                user_selected: Option::None,
            }),
    {
        Coding::new()
    }
}

/// The encoded form of a `Coding` value: its fields in declaration order, each
/// optional field present exactly when set.
pub open spec fn spec_encode_coding(v: CodingV) -> JsonV {
    let o = Seq::<(Seq<char>, JsonV)>::empty();
    let o = if v.system is Some {
        o.push((("system")@, JsonV::Str(v.system->Some_0)))
    } else {
        o
    };
    let o = if v.version is Some {
        o.push((("version")@, JsonV::Str(v.version->Some_0)))
    } else {
        o
    };
    let o = if v.code is Some {
        o.push((("code")@, JsonV::Str(v.code->Some_0)))
    } else {
        o
    };
    let o = if v.display is Some {
        o.push((("display")@, JsonV::Str(v.display->Some_0)))
    } else {
        o
    };
    let o = if v.user_selected is Some {
        o.push((("userSelected")@, JsonV::Bool(v.user_selected->Some_0)))
    } else {
        o
    };
    JsonV::Obj(o)
}

/// The decoded reading of a `Coding` value.
pub open spec fn spec_decode_coding(j: JsonV) -> Result<CodingV, DecodeError> {
    match j {
        JsonV::Obj(o) => match spec_opt_str(o, ("system")@) {
            Ok(system) => match spec_opt_str(o, ("version")@) {
                Ok(version) => match spec_opt_str(o, ("code")@) {
                    Ok(code) => match spec_opt_str(o, ("display")@) {
                        Ok(display) => match spec_opt_bool(o, ("userSelected")@) {
                            Ok(user_selected) => Ok(CodingV { system, version, code, display, user_selected }),
                            Err(e) => Err(e),
                        },
                        Err(e) => Err(e),
                    },
                    Err(e) => Err(e),
                },
                Err(e) => Err(e),
            },
            Err(e) => Err(e),
        },
        _ => Err(DecodeError::TypeMismatch),
    }
}

/// Decoding an encoded Coding yields the value back.
pub proof fn lemma_coding_round_trip(v: CodingV)
    ensures
        spec_decode_coding(spec_encode_coding(v)) == Ok::<CodingV, DecodeError>(v),
{
    broadcast use group_json_views;

    reveal_strlit("system");
    reveal_strlit("version");
    reveal_strlit("code");
    reveal_strlit("display");
    reveal_strlit("userSelected");
    assert(("system")@.len() == 6);
    assert(("version")@.len() == 7);
    assert(("code")@.len() == 4);
    assert(("display")@.len() == 7);
    assert(("userSelected")@.len() == 12);
    assert(("version")@[0] != ("display")@[0]);
    let o = spec_encode_coding(v)->Obj_0;
    assert(lookup(o, ("system")@) == (if v.system is Some {
            Option::Some(JsonV::Str(v.system->Some_0))
        } else {
            Option::None
        }));
    assert(lookup(o, ("version")@) == (if v.version is Some {
            Option::Some(JsonV::Str(v.version->Some_0))
        } else {
            Option::None
        }));
    assert(lookup(o, ("code")@) == (if v.code is Some {
            Option::Some(JsonV::Str(v.code->Some_0))
        } else {
            Option::None
        }));
    assert(lookup(o, ("display")@) == (if v.display is Some {
            Option::Some(JsonV::Str(v.display->Some_0))
        } else {
            Option::None
        }));
    assert(lookup(o, ("userSelected")@) == (if v.user_selected is Some {
            Option::Some(JsonV::Bool(v.user_selected->Some_0))
        } else {
            Option::None
        }));
}

/// The encoded form of a sequence of `Coding` values, in order.
pub open spec fn spec_encode_coding_all(vs: Seq<CodingV>) -> Seq<JsonV>
    decreases vs,
{
    if vs.len() == 0 {
        Seq::empty()
    } else {
        spec_encode_coding_all(vs.drop_last()).push(spec_encode_coding(vs.last()))
    }
}

/// The decoded reading of an array of `Coding` values: all elements must
/// decode, and the first offending element decides the error.
pub open spec fn spec_decode_coding_all(a: Seq<JsonV>) -> Result<Seq<CodingV>, DecodeError>
    decreases a,
{
    if a.len() == 0 {
        Ok(Seq::empty())
    } else {
        match spec_decode_coding_all(a.drop_last()) {
            Ok(rest) => match spec_decode_coding(a.last()) {
                Ok(x) => Ok(rest.push(x)),
                Err(e) => Err(e),
            },
            Err(e) => Err(e),
        }
    }
}

/// Decoding an encoded sequence of `Coding` values yields the sequence back.
pub proof fn lemma_coding_all_round_trip(vs: Seq<CodingV>)
    ensures
        spec_decode_coding_all(spec_encode_coding_all(vs)) == Ok::<Seq<CodingV>, DecodeError>(vs),
    decreases vs,
{
    if vs.len() > 0 {
        lemma_coding_all_round_trip(vs.drop_last());
        lemma_coding_round_trip(vs.last());
        let a = spec_encode_coding_all(vs);
        assert(a.drop_last() =~= spec_encode_coding_all(vs.drop_last()));
        assert(vs.drop_last().push(vs.last()) =~= vs);
    } else {
        assert(vs =~= Seq::<CodingV>::empty());
    }
}

/// When a prefix of the array decodes and the element after it does not,
/// the whole array fails with that element's error.
proof fn lemma_coding_all_error_at(a: Seq<JsonV>, i: int)
    requires
        0 <= i < a.len(),
        spec_decode_coding_all(a.subrange(0, i)) is Ok,
        spec_decode_coding(a[i]) is Err,
    ensures
        spec_decode_coding_all(a) == Err::<Seq<CodingV>, DecodeError>(spec_decode_coding(a[i])->Err_0),
    decreases a,
{
    if i < a.len() - 1 {
        assert(a.drop_last().subrange(0, i) =~= a.subrange(0, i));
        lemma_coding_all_error_at(a.drop_last(), i);
    } else {
        assert(a.drop_last() =~= a.subrange(0, i));
    }
}

/// Encodes a vector of `Coding` values as a JSON array.
#[verifier::loop_isolation(false)]
pub fn encode_coding_arr(v: &Vec<Coding>) -> (r: Json)
    ensures
        r@ == JsonV::Arr(spec_encode_coding_all(seq_views(v@))),
{
    broadcast use group_json_views;

    let ghost vs = seq_views(v@);
    let mut a: Vec<Json> = Vec::new();
    let n = v.len();
    let mut i: usize = 0;
    proof {
        assert(vs.subrange(0, 0) =~= Seq::<CodingV>::empty());
    }
    while i < n
        invariant
            i <= n,
            n == v@.len(),
            vs == seq_views(v@),
            arr_view(a@) =~= spec_encode_coding_all(vs.subrange(0, i as int)),
        decreases n - i,
    {
        a.push(v[i].encode());
        proof {
            assert(vs.subrange(0, i as int + 1).drop_last() =~= vs.subrange(0, i as int));
            assert(arr_view(a@) =~= spec_encode_coding_all(vs.subrange(0, i as int + 1)));
        }
        i = i + 1;
    }
    proof {
        assert(vs.subrange(0, n as int) =~= vs);
        assert(Json::Arr(a)@->Arr_0 =~= arr_view(a@));
    }
    Json::Arr(a)
}

/// Decodes a JSON array into a vector of `Coding` values.
#[verifier::loop_isolation(false)]
pub fn decode_coding_arr(a: &Vec<Json>) -> (r: Result<Vec<Coding>, DecodeError>)
    ensures
        match r {
            Ok(v) => spec_decode_coding_all(arr_view(a@)) == Ok::<_, DecodeError>(seq_views(v@)),
            Err(e) => spec_decode_coding_all(arr_view(a@)) == Err::<Seq<CodingV>, DecodeError>(e),
        },
{
    broadcast use group_json_views;

    let ghost full = arr_view(a@);
    let n = a.len();
    let mut out: Vec<Coding> = Vec::new();
    let mut i: usize = 0;
    proof {
        assert(full.subrange(0, 0) =~= Seq::<JsonV>::empty());
        assert(seq_views(out@) =~= Seq::<CodingV>::empty());
    }
    while i < n
        invariant
            i <= n,
            n == a@.len(),
            full == arr_view(a@),
            out@.len() == i,
            spec_decode_coding_all(full.subrange(0, i as int)) == Ok::<_, DecodeError>(
                seq_views(out@),
            ),
        decreases n - i,
    {
        let ji = &a[i];
        proof {
            assert(ji@ == full[i as int]);
        }
        match Coding::decode(ji) {
            Ok(x) => {
                out.push(x);
                proof {
                    assert(full.subrange(0, i as int + 1).drop_last() =~= full.subrange(
                        0,
                        i as int,
                    ));
                    assert(spec_decode_coding_all(full.subrange(0, i as int + 1)) == Ok::<
                        _,
                        DecodeError,
                    >(seq_views(out@)));
                }
            },
            Err(e) => {
                proof {
                    lemma_coding_all_error_at(full, i as int);
                }
                return Err(e);
            },
        }
        i = i + 1;
    }
    proof {
        assert(full.subrange(0, n as int) =~= full);
    }
    Ok(out)
}

/// A concept given by codings from one or more systems with optional text.
#[derive(Debug, Clone, PartialEq)]
pub struct CodeableConcept {
    coding: Vec<Coding>,
    text: Option<String>,
}

/// The mathematical shape of a `CodeableConcept` value.
pub struct CodeableConceptV {
    pub coding: Seq<CodingV>,
    pub text: Option<Seq<char>>,
}

impl View for CodeableConcept {
    type V = CodeableConceptV;

    closed spec fn view(&self) -> CodeableConceptV {
        CodeableConceptV {
            coding: seq_views(self.coding@),
            text: match self.text {
                Option::Some(ref s) => Option::Some(s@),
                Option::None => Option::None,
            },
        }
    }
}

impl CodeableConcept {
    /// A concept with no codings and no text.
    pub fn new() -> (r: CodeableConcept)
        ensures
            r@ == (CodeableConceptV {
                coding: Seq::empty(),
                text: Option::None,
            }),
    {
        broadcast use group_json_views;

        let r = CodeableConcept {
            coding: Vec::new(),
            text: Option::None,
        };
        proof {
            assert(r@.coding =~= Seq::<CodingV>::empty());
        }
        r
    }

    /// A concept carrying only text.
    pub fn with_text(text: String) -> (r: CodeableConcept)
        ensures
            r@ == (CodeableConceptV {
                coding: Seq::empty(),
                text: Option::Some(text@),
            }),
    {
        broadcast use group_json_views;

        let r = CodeableConcept {
            coding: Vec::new(),
            text: Option::Some(text),
        };
        proof {
            assert(r@.coding =~= Seq::<CodingV>::empty());
        }
        r
    }

    /// A concept carrying a single coding.
    pub fn with_coding(coding: Coding) -> (r: CodeableConcept)
        ensures
            r@ == (CodeableConceptV {
                coding: seq![coding@],
                text: Option::None,
            }),
    {
        broadcast use group_json_views;

        let mut coding_vec: Vec<Coding> = Vec::new();
        coding_vec.push(coding);
        let r = CodeableConcept {
            coding: coding_vec,
            text: Option::None,
        };
        proof {
            assert(r@.coding =~= seq![coding@]);
        }
        r
    }

    /// The codings, in order.
    pub fn coding(&self) -> (r: &[Coding])
        ensures
            seq_views(r@) == self@.coding,
    {
        self.coding.as_slice()
    }

    /// The text, when set.
    pub fn text(&self) -> (r: Option<&str>)
        ensures
            match r {
                Option::Some(s) => self@.text == Option::Some(s@),
                Option::None => self@.text is None,
            },
    {
        match &self.text {
            Option::Some(s) => Option::Some(s.as_str()),
            Option::None => Option::None,
        }
    }

    /// Replaces the codings.
    pub fn set_coding(&mut self, coding: Vec<Coding>)
        ensures
            final(self)@ == (CodeableConceptV { coding: seq_views(coding@), ..old(self)@ }),
    {
        self.coding = coding;
    }

    /// Appends a coding.
    pub fn add_coding(&mut self, x: Coding)
        ensures
            final(self)@ == (CodeableConceptV { coding: old(self)@.coding.push(x@), ..old(self)@ }),
    {
        broadcast use group_json_views;

        self.coding.push(x);
    }

    /// Replaces the text.
    pub fn set_text(&mut self, text: Option<String>)
        ensures
            final(self)@ == (CodeableConceptV { text: match text {
                Option::Some(ref s) => Option::Some(s@),
                Option::None => Option::None,
            }, ..old(self)@ }),
    {
        self.text = text;
    }

    /// Encodes the value as an object in fixed field order, omitting
    /// absent optional fields.
    pub fn encode(&self) -> (r: Json)
        ensures
            r@ == spec_encode_codeable_concept(self@),
    {
        broadcast use group_json_views;

        let mut entries: Vec<(String, Json)> = Vec::new();
        proof {
            assert(entries_view(entries@) =~= Seq::<(Seq<char>, JsonV)>::empty());
        }
        put_json(&mut entries, "coding", encode_coding_arr(&self.coding));
        put_opt_str(&mut entries, "text", &self.text);
        let r = Json::Obj(entries);
        proof {
            assert(r@->Obj_0 =~= spec_encode_codeable_concept(self@)->Obj_0);
        }
        r
    }

    /// Decodes a value from an object, treating a missing key as an
    /// absent optional field; fails on any other shape.
    pub fn decode(j: &Json) -> (r: Result<CodeableConcept, DecodeError>)
        ensures
            match r {
                Ok(x) => spec_decode_codeable_concept(j@) == Ok::<CodeableConceptV, DecodeError>(x@),
                Err(e) => spec_decode_codeable_concept(j@) == Err::<CodeableConceptV, DecodeError>(e),
            },
    {
        match j {
            Json::Obj(entries) => {
                proof {
                    assert(j@->Obj_0 =~= entries_view(entries@));
                }
                let coding = match take_req_arr(entries, "coding") {
                    Ok(a) => match decode_coding_arr(a) {
                        Ok(v) => v,
                        Err(e) => return Err(e),
                    },
                    Err(e) => return Err(e),
                };
                let text = match take_opt_str(entries, "text") {
                    Ok(v) => v,
                    Err(e) => return Err(e),
                };
                Ok(CodeableConcept { coding, text })
            },
            _ => Err(DecodeError::TypeMismatch),
        }
    }
}

impl Default for CodeableConcept {
    /// A concept with no codings and no text.
    fn default() -> (r: CodeableConcept)
        ensures
            r@ == (CodeableConceptV {
                coding: Seq::empty(),
                text: Option::None,
            }),
    {
        CodeableConcept::new()
    }
}

/// The encoded form of a `CodeableConcept` value: its fields in declaration order, each
/// optional field present exactly when set.
pub open spec fn spec_encode_codeable_concept(v: CodeableConceptV) -> JsonV {
    let o = Seq::<(Seq<char>, JsonV)>::empty();
    let o = o.push((("coding")@, JsonV::Arr(spec_encode_coding_all(v.coding))));
    let o = if v.text is Some {
        o.push((("text")@, JsonV::Str(v.text->Some_0)))
    } else {
        o
    };
    JsonV::Obj(o)
}

/// The decoded reading of a `CodeableConcept` value.
pub open spec fn spec_decode_codeable_concept(j: JsonV) -> Result<CodeableConceptV, DecodeError> {
    match j {
        JsonV::Obj(o) => match spec_req_arr(o, ("coding")@) {
            Ok(coding_arr) => match spec_decode_coding_all(coding_arr) {
                Ok(coding) => match spec_opt_str(o, ("text")@) {
                Ok(text) => Ok(CodeableConceptV { coding, text }),
                Err(e) => Err(e),
            },
                Err(e) => Err(e),
            },
            Err(e) => Err(e),
        },
        _ => Err(DecodeError::TypeMismatch),
    }
}

/// Decoding an encoded CodeableConcept yields the value back.
pub proof fn lemma_codeable_concept_round_trip(v: CodeableConceptV)
    ensures
        spec_decode_codeable_concept(spec_encode_codeable_concept(v)) == Ok::<CodeableConceptV, DecodeError>(v),
{
    broadcast use group_json_views;

    reveal_strlit("coding");
    reveal_strlit("text");
    assert(("coding")@.len() == 6);
    assert(("text")@.len() == 4);
    lemma_coding_all_round_trip(v.coding);
    let o = spec_encode_codeable_concept(v)->Obj_0;
    assert(lookup(o, ("coding")@) == Option::Some(JsonV::Arr(spec_encode_coding_all(v.coding))));
    assert(lookup(o, ("text")@) == (if v.text is Some {
            Option::Some(JsonV::Str(v.text->Some_0))
        } else {
            Option::None
        }));
}

/// An optional `CodeableConcept` field of an enclosing object.
pub open spec fn spec_opt_codeable_concept(o: Seq<(Seq<char>, JsonV)>, k: Seq<char>) -> Result<
    Option<CodeableConceptV>,
    DecodeError,
> {
    match lookup(o, k) {
        Option::None => Ok(Option::None),
        Option::Some(jv) => match spec_decode_codeable_concept(jv) {
            Ok(x) => Ok(Option::Some(x)),
            Err(e) => Err(e),
        },
    }
}

/// Reads an optional `CodeableConcept` field.
pub fn take_opt_codeable_concept(entries: &Vec<(String, Json)>, key: &str) -> (r: Result<
    Option<CodeableConcept>,
    DecodeError,
>)
    ensures
        match r {
            Ok(Option::Some(x)) => spec_opt_codeable_concept(entries_view(entries@), key@) == Ok::<
                _,
                DecodeError,
            >(Option::Some(x@)),
            Ok(Option::None) => spec_opt_codeable_concept(entries_view(entries@), key@) == Ok::<
                Option<CodeableConceptV>,
                DecodeError,
            >(Option::None),
            Err(e) => spec_opt_codeable_concept(entries_view(entries@), key@) == Err::<
                Option<CodeableConceptV>,
                DecodeError,
            >(e),
        },
{
    match Json::obj_get(entries, key) {
        Option::None => Ok(Option::None),
        Option::Some(j) => match CodeableConcept::decode(j) {
            Ok(x) => Ok(Option::Some(x)),
            Err(e) => Err(e),
        },
    }
}

/// A required `CodeableConcept` field of an enclosing object.
pub open spec fn spec_req_codeable_concept(o: Seq<(Seq<char>, JsonV)>, k: Seq<char>) -> Result<
    CodeableConceptV,
    DecodeError,
> {
    match lookup(o, k) {
        Option::None => Err(DecodeError::MissingField),
        Option::Some(jv) => spec_decode_codeable_concept(jv),
    }
}

/// Reads a required `CodeableConcept` field.
pub fn take_req_codeable_concept(entries: &Vec<(String, Json)>, key: &str) -> (r: Result<
    CodeableConcept,
    DecodeError,
>)
    ensures
        match r {
            Ok(x) => spec_req_codeable_concept(entries_view(entries@), key@) == Ok::<CodeableConceptV, DecodeError>(
                x@,
            ),
            Err(e) => spec_req_codeable_concept(entries_view(entries@), key@) == Err::<CodeableConceptV, DecodeError>(
                e,
            ),
        },
{
    match Json::obj_get(entries, key) {
        Option::None => Err(DecodeError::MissingField),
        Option::Some(j) => CodeableConcept::decode(j),
    }
}

/// The encoded form of a sequence of `CodeableConcept` values, in order.
pub open spec fn spec_encode_codeable_concept_all(vs: Seq<CodeableConceptV>) -> Seq<JsonV>
    decreases vs,
{
    if vs.len() == 0 {
        Seq::empty()
    } else {
        spec_encode_codeable_concept_all(vs.drop_last()).push(spec_encode_codeable_concept(vs.last()))
    }
}

/// The decoded reading of an array of `CodeableConcept` values: all elements must
/// decode, and the first offending element decides the error.
pub open spec fn spec_decode_codeable_concept_all(a: Seq<JsonV>) -> Result<Seq<CodeableConceptV>, DecodeError>
    decreases a,
{
    if a.len() == 0 {
        Ok(Seq::empty())
    } else {
        match spec_decode_codeable_concept_all(a.drop_last()) {
            Ok(rest) => match spec_decode_codeable_concept(a.last()) {
                Ok(x) => Ok(rest.push(x)),
                Err(e) => Err(e),
            },
            Err(e) => Err(e),
        }
    }
}

/// Decoding an encoded sequence of `CodeableConcept` values yields the sequence back.
pub proof fn lemma_codeable_concept_all_round_trip(vs: Seq<CodeableConceptV>)
    ensures
        spec_decode_codeable_concept_all(spec_encode_codeable_concept_all(vs)) == Ok::<Seq<CodeableConceptV>, DecodeError>(vs),
    decreases vs,
{
    if vs.len() > 0 {
        lemma_codeable_concept_all_round_trip(vs.drop_last());
        lemma_codeable_concept_round_trip(vs.last());
        let a = spec_encode_codeable_concept_all(vs);
        assert(a.drop_last() =~= spec_encode_codeable_concept_all(vs.drop_last()));
        assert(vs.drop_last().push(vs.last()) =~= vs);
    } else {
        assert(vs =~= Seq::<CodeableConceptV>::empty());
    }
}

/// When a prefix of the array decodes and the element after it does not,
/// the whole array fails with that element's error.
proof fn lemma_codeable_concept_all_error_at(a: Seq<JsonV>, i: int)
    requires
        0 <= i < a.len(),
        spec_decode_codeable_concept_all(a.subrange(0, i)) is Ok,
        spec_decode_codeable_concept(a[i]) is Err,
    ensures
        spec_decode_codeable_concept_all(a) == Err::<Seq<CodeableConceptV>, DecodeError>(spec_decode_codeable_concept(a[i])->Err_0),
    decreases a,
{
    if i < a.len() - 1 {
        assert(a.drop_last().subrange(0, i) =~= a.subrange(0, i));
        lemma_codeable_concept_all_error_at(a.drop_last(), i);
    } else {
        assert(a.drop_last() =~= a.subrange(0, i));
    }
}

/// Encodes a vector of `CodeableConcept` values as a JSON array.
#[verifier::loop_isolation(false)]
pub fn encode_codeable_concept_arr(v: &Vec<CodeableConcept>) -> (r: Json)
    ensures
        r@ == JsonV::Arr(spec_encode_codeable_concept_all(seq_views(v@))),
{
    broadcast use group_json_views;

    let ghost vs = seq_views(v@);
    let mut a: Vec<Json> = Vec::new();
    let n = v.len();
    let mut i: usize = 0;
    proof {
        assert(vs.subrange(0, 0) =~= Seq::<CodeableConceptV>::empty());
    }
    while i < n
        invariant
            i <= n,
            n == v@.len(),
            vs == seq_views(v@),
            arr_view(a@) =~= spec_encode_codeable_concept_all(vs.subrange(0, i as int)),
        decreases n - i,
    {
        a.push(v[i].encode());
        proof {
            assert(vs.subrange(0, i as int + 1).drop_last() =~= vs.subrange(0, i as int));
            assert(arr_view(a@) =~= spec_encode_codeable_concept_all(vs.subrange(0, i as int + 1)));
        }
        i = i + 1;
    }
    proof {
        assert(vs.subrange(0, n as int) =~= vs);
        assert(Json::Arr(a)@->Arr_0 =~= arr_view(a@));
    }
    Json::Arr(a)
}

/// Decodes a JSON array into a vector of `CodeableConcept` values.
#[verifier::loop_isolation(false)]
pub fn decode_codeable_concept_arr(a: &Vec<Json>) -> (r: Result<Vec<CodeableConcept>, DecodeError>)
    ensures
        match r {
            Ok(v) => spec_decode_codeable_concept_all(arr_view(a@)) == Ok::<_, DecodeError>(seq_views(v@)),
            Err(e) => spec_decode_codeable_concept_all(arr_view(a@)) == Err::<Seq<CodeableConceptV>, DecodeError>(e),
        },
{
    broadcast use group_json_views;

    let ghost full = arr_view(a@);
    let n = a.len();
    let mut out: Vec<CodeableConcept> = Vec::new();
    let mut i: usize = 0;
    proof {
        assert(full.subrange(0, 0) =~= Seq::<JsonV>::empty());
        assert(seq_views(out@) =~= Seq::<CodeableConceptV>::empty());
    }
    while i < n
        invariant
            i <= n,
            n == a@.len(),
            full == arr_view(a@),
            out@.len() == i,
            spec_decode_codeable_concept_all(full.subrange(0, i as int)) == Ok::<_, DecodeError>(
                seq_views(out@),
            ),
        decreases n - i,
    {
        let ji = &a[i];
        proof {
            assert(ji@ == full[i as int]);
        }
        match CodeableConcept::decode(ji) {
            Ok(x) => {
                out.push(x);
                proof {
                    assert(full.subrange(0, i as int + 1).drop_last() =~= full.subrange(
                        0,
                        i as int,
                    ));
                    assert(spec_decode_codeable_concept_all(full.subrange(0, i as int + 1)) == Ok::<
                        _,
                        DecodeError,
                    >(seq_views(out@)));
                }
            },
            Err(e) => {
                proof {
                    lemma_codeable_concept_all_error_at(full, i as int);
                }
                return Err(e);
            },
        }
        i = i + 1;
    }
    proof {
        assert(full.subrange(0, n as int) =~= full);
    }
    Ok(out)
}

} // verus!
