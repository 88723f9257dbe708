//! The `HumanName` composite: a person's name and its parts.
use crate::json::{DecodeError, Json, JsonV, arr_view, decode_str_arr, encode_str_arr, entries_view, group_json_views, lemma_str_all_round_trip, lookup, put_json, put_opt_str, put_str, seq_views, spec_decode_str_all, spec_encode_str_all, spec_opt_str, spec_req_arr, spec_req_str, take_opt_str, take_req_arr, take_req_str};
use vstd::prelude::*;

verus! {

/// A person's name: use, full text, family name, and ordered parts.
#[derive(Debug, Clone, PartialEq)]
pub struct HumanName {
    use_value: String,
    text: String,
    family: String,
    given: Vec<String>,
    prefix: Vec<String>,
    suffix: Vec<String>,
    period: Option<String>,
}

/// The mathematical shape of a `HumanName` value.
pub struct HumanNameV {
    pub use_value: Seq<char>,
    pub text: Seq<char>,
    pub family: Seq<char>,
    pub given: Seq<Seq<char>>,
    pub prefix: Seq<Seq<char>>,
    pub suffix: Seq<Seq<char>>,
    pub period: Option<Seq<char>>,
}

impl View for HumanName {
    type V = HumanNameV;

    closed spec fn view(&self) -> HumanNameV {
        HumanNameV {
            use_value: self.use_value@,
            text: self.text@,
            family: self.family@,
            given: seq_views(self.given@),
            prefix: seq_views(self.prefix@),
            suffix: seq_views(self.suffix@),
            period: match self.period {
                Option::Some(ref s) => Option::Some(s@),
                Option::None => Option::None,
            },
        }
    }
}

impl HumanName {
    /// A name with the required use, text and family parts.
    pub fn new(use_value: String, text: String, family: String) -> (r: HumanName)
        ensures
            r@ == (HumanNameV {
                use_value: use_value@,
                text: text@,
                family: family@,
                given: Seq::empty(),
                prefix: Seq::empty(),
                suffix: Seq::empty(),
                period: Option::None,
            }),
    {
        broadcast use group_json_views;

        let r = HumanName {
            use_value: use_value,
            text: text,
            family: family,
            given: Vec::new(),
            prefix: Vec::new(),
            suffix: Vec::new(),
            period: Option::None,
        };
        proof {
            assert(r@.given =~= Seq::<Seq<char>>::empty());
            assert(r@.prefix =~= Seq::<Seq<char>>::empty());
            assert(r@.suffix =~= Seq::<Seq<char>>::empty());
        }
        r
    }

    /// The use of the name.
    pub fn use_value(&self) -> (r: &str)
        ensures
            r@ == self@.use_value,
    {
        self.use_value.as_str()
    }

    /// The full text of the name.
    pub fn text(&self) -> (r: &str)
        ensures
            r@ == self@.text,
    {
        self.text.as_str()
    }

    /// The family name.
    pub fn family(&self) -> (r: &str)
        ensures
            r@ == self@.family,
    {
        self.family.as_str()
    }

    /// The given names, in order.
    pub fn given(&self) -> (r: &[String])
        ensures
            seq_views(r@) == self@.given,
    {
        self.given.as_slice()
    }

    /// The prefixes, in order.
    pub fn prefix(&self) -> (r: &[String])
        ensures
            seq_views(r@) == self@.prefix,
    {
        self.prefix.as_slice()
    }

    /// The suffixes, in order.
    pub fn suffix(&self) -> (r: &[String])
        ensures
            seq_views(r@) == self@.suffix,
    {
        self.suffix.as_slice()
    }

    /// The period, when set.
    pub fn period(&self) -> (r: Option<&str>)
        ensures
            match r {
                Option::Some(s) => self@.period == Option::Some(s@),
                Option::None => self@.period is None,
            },
    {
        match &self.period {
            Option::Some(s) => Option::Some(s.as_str()),
            Option::None => Option::None,
        }
    }

    /// Replaces the given names.
    pub fn set_given(&mut self, given: Vec<String>)
        ensures
            final(self)@ == (HumanNameV { given: seq_views(given@), ..old(self)@ }),
    {
        self.given = given;
    }

    /// Replaces the prefixes.
    pub fn set_prefix(&mut self, prefix: Vec<String>)
        ensures
            final(self)@ == (HumanNameV { prefix: seq_views(prefix@), ..old(self)@ }),
    {
        self.prefix = prefix;
    }

    /// Replaces the suffixes.
    pub fn set_suffix(&mut self, suffix: Vec<String>)
        ensures
            final(self)@ == (HumanNameV { suffix: seq_views(suffix@), ..old(self)@ }),
    {
        self.suffix = suffix;
    }

    /// Replaces the period.
    pub fn set_period(&mut self, period: Option<String>)
        ensures
            final(self)@ == (HumanNameV { period: match period {
                Option::Some(ref s) => Option::Some(s@),
                Option::None => Option::None,
            }, ..old(self)@ }),
    {
        self.period = period;
    }

    /// Encodes the value as an object in fixed field order, omitting
    /// absent optional fields.
    pub fn encode(&self) -> (r: Json)
        ensures
            r@ == spec_encode_human_name(self@),
    {
        broadcast use group_json_views;

        let mut entries: Vec<(String, Json)> = Vec::new();
        proof {
            assert(entries_view(entries@) =~= Seq::<(Seq<char>, JsonV)>::empty());
        }
        put_str(&mut entries, "use", self.use_value.as_str());
        put_str(&mut entries, "text", self.text.as_str());
        put_str(&mut entries, "family", self.family.as_str());
        put_json(&mut entries, "given", encode_str_arr(&self.given));
        put_json(&mut entries, "prefix", encode_str_arr(&self.prefix));
        put_json(&mut entries, "suffix", encode_str_arr(&self.suffix));
        put_opt_str(&mut entries, "period", &self.period);
        let r = Json::Obj(entries);
        proof {
            assert(r@->Obj_0 =~= spec_encode_human_name(self@)->Obj_0);
        }
        r
    }

    /// Decodes a value from an object, treating a missing key as an
    /// absent optional field; fails on any other shape.
    pub fn decode(j: &Json) -> (r: Result<HumanName, DecodeError>)
        ensures
            match r {
                Ok(x) => spec_decode_human_name(j@) == Ok::<HumanNameV, DecodeError>(x@),
                Err(e) => spec_decode_human_name(j@) == Err::<HumanNameV, DecodeError>(e),
            },
    {
        match j {
            Json::Obj(entries) => {
                proof {
                    assert(j@->Obj_0 =~= entries_view(entries@));
                }
                let use_value = match take_req_str(entries, "use") {
                    Ok(v) => v,
                    Err(e) => return Err(e),
                };
                let text = match take_req_str(entries, "text") {
                    Ok(v) => v,
                    Err(e) => return Err(e),
                };
                let family = match take_req_str(entries, "family") {
                    Ok(v) => v,
                    Err(e) => return Err(e),
                };
                let given = match take_req_arr(entries, "given") {
                    Ok(a) => match decode_str_arr(a) {
                        Ok(v) => v,
                        Err(e) => return Err(e),
                    },
                    Err(e) => return Err(e),
                };
                let prefix = match take_req_arr(entries, "prefix") {
                    Ok(a) => match decode_str_arr(a) {
                        Ok(v) => v,
                        Err(e) => return Err(e),
                    },
                    Err(e) => return Err(e),
                };
                let suffix = match take_req_arr(entries, "suffix") {
                    Ok(a) => match decode_str_arr(a) {
                        Ok(v) => v,
                        Err(e) => return Err(e),
                    },
                    Err(e) => return Err(e),
                };
                let period = match take_opt_str(entries, "period") {
                    Ok(v) => v,
                    Err(e) => return Err(e),
                };
                Ok(HumanName { use_value, text, family, given, prefix, suffix, period })
            },
            _ => Err(DecodeError::TypeMismatch),
        }
    }
}

/// The encoded form of a `HumanName` value: its fields in declaration order, each
/// optional field present exactly when set.
pub open spec fn spec_encode_human_name(v: HumanNameV) -> JsonV {
    let o = Seq::<(Seq<char>, JsonV)>::empty();
    let o = o.push((("use")@, JsonV::Str(v.use_value)));
    let o = o.push((("text")@, JsonV::Str(v.text)));
    let o = o.push((("family")@, JsonV::Str(v.family)));
    let o = o.push((("given")@, JsonV::Arr(spec_encode_str_all(v.given))));
    let o = o.push((("prefix")@, JsonV::Arr(spec_encode_str_all(v.prefix))));
    let o = o.push((("suffix")@, JsonV::Arr(spec_encode_str_all(v.suffix))));
    let o = if v.period is Some {
        o.push((("period")@, JsonV::Str(v.period->Some_0)))
    } else {
        o
    };
    JsonV::Obj(o)
}

/// The decoded reading of a `HumanName` value.
pub open spec fn spec_decode_human_name(j: JsonV) -> Result<HumanNameV, DecodeError> {
    match j {
        JsonV::Obj(o) => match spec_req_str(o, ("use")@) {
            Ok(use_value) => match spec_req_str(o, ("text")@) {
                Ok(text) => match spec_req_str(o, ("family")@) {
                    Ok(family) => match spec_req_arr(o, ("given")@) {
                        Ok(given_arr) => match spec_decode_str_all(given_arr) {
                            Ok(given) => match spec_req_arr(o, ("prefix")@) {
                            Ok(prefix_arr) => match spec_decode_str_all(prefix_arr) {
                                Ok(prefix) => match spec_req_arr(o, ("suffix")@) {
                                Ok(suffix_arr) => match spec_decode_str_all(suffix_arr) {
                                    Ok(suffix) => match spec_opt_str(o, ("period")@) {
                                    Ok(period) => Ok(HumanNameV { use_value, text, family, given, prefix, suffix, period }),
                                    Err(e) => Err(e),
                                },
                                    Err(e) => Err(e),
                                },
                                Err(e) => Err(e),
                            },
                                Err(e) => Err(e),
                            },
                            Err(e) => Err(e),
                        },
                            Err(e) => Err(e),
                        },
                        Err(e) => Err(e),
                    },
                    Err(e) => Err(e),
                },
                Err(e) => Err(e),
            },
            Err(e) => Err(e),
        },
        _ => Err(DecodeError::TypeMismatch),
    }
}

/// Decoding an encoded HumanName yields the value back.
pub proof fn lemma_human_name_round_trip(v: HumanNameV)
    ensures
        spec_decode_human_name(spec_encode_human_name(v)) == Ok::<HumanNameV, DecodeError>(v),
{
    broadcast use group_json_views;

    reveal_strlit("use");
    reveal_strlit("text");
    reveal_strlit("family");
    reveal_strlit("given");
    reveal_strlit("prefix");
    reveal_strlit("suffix");
    reveal_strlit("period");
    assert(("use")@.len() == 3);
    assert(("text")@.len() == 4);
    assert(("family")@.len() == 6);
    assert(("given")@.len() == 5);
    assert(("prefix")@.len() == 6);
    assert(("suffix")@.len() == 6);
    assert(("period")@.len() == 6);
    assert(("family")@[0] != ("prefix")@[0]);
    assert(("family")@[0] != ("suffix")@[0]);
    assert(("family")@[0] != ("period")@[0]);
    assert(("prefix")@[0] != ("suffix")@[0]);
    assert(("prefix")@[1] != ("period")@[1]);
    assert(("suffix")@[0] != ("period")@[0]);
    lemma_str_all_round_trip(v.given);
    lemma_str_all_round_trip(v.prefix);
    lemma_str_all_round_trip(v.suffix);
    let o = spec_encode_human_name(v)->Obj_0;
    assert(lookup(o, ("use")@) == Option::Some(JsonV::Str(v.use_value)));
    assert(lookup(o, ("text")@) == Option::Some(JsonV::Str(v.text)));
    assert(lookup(o, ("family")@) == Option::Some(JsonV::Str(v.family)));
    assert(lookup(o, ("given")@) == Option::Some(JsonV::Arr(spec_encode_str_all(v.given))));
    assert(lookup(o, ("prefix")@) == Option::Some(JsonV::Arr(spec_encode_str_all(v.prefix))));
    assert(lookup(o, ("suffix")@) == Option::Some(JsonV::Arr(spec_encode_str_all(v.suffix))));
    assert(lookup(o, ("period")@) == (if v.period is Some {
            Option::Some(JsonV::Str(v.period->Some_0))
        } else {
            Option::None
        }));
}

/// An optional `HumanName` field of an enclosing object.
pub open spec fn spec_opt_human_name(o: Seq<(Seq<char>, JsonV)>, k: Seq<char>) -> Result<
    Option<HumanNameV>,
    DecodeError,
> {
    match lookup(o, k) {
        Option::None => Ok(Option::None),
        Option::Some(jv) => match spec_decode_human_name(jv) {
            Ok(x) => Ok(Option::Some(x)),
            Err(e) => Err(e),
        },
    }
}

/// Reads an optional `HumanName` field.
pub fn take_opt_human_name(entries: &Vec<(String, Json)>, key: &str) -> (r: Result<
    Option<HumanName>,
    DecodeError,
>)
    ensures
        match r {
            Ok(Option::Some(x)) => spec_opt_human_name(entries_view(entries@), key@) == Ok::<
                _,
                DecodeError,
            >(Option::Some(x@)),
            Ok(Option::None) => spec_opt_human_name(entries_view(entries@), key@) == Ok::<
                Option<HumanNameV>,
                DecodeError,
            >(Option::None),
            Err(e) => spec_opt_human_name(entries_view(entries@), key@) == Err::<
                Option<HumanNameV>,
                DecodeError,
            >(e),
        },
{
    match Json::obj_get(entries, key) {
        Option::None => Ok(Option::None),
        Option::Some(j) => match HumanName::decode(j) {
            Ok(x) => Ok(Option::Some(x)),
            Err(e) => Err(e),
        },
    }
}

/// The encoded form of a sequence of `HumanName` values, in order.
pub open spec fn spec_encode_human_name_all(vs: Seq<HumanNameV>) -> Seq<JsonV>
    decreases vs,
{
    if vs.len() == 0 {
        Seq::empty()
    } else {
        spec_encode_human_name_all(vs.drop_last()).push(spec_encode_human_name(vs.last()))
    }
}

/// The decoded reading of an array of `HumanName` values: all elements must
/// decode, and the first offending element decides the error.
pub open spec fn spec_decode_human_name_all(a: Seq<JsonV>) -> Result<Seq<HumanNameV>, DecodeError>
    decreases a,
{
    if a.len() == 0 {
        Ok(Seq::empty())
    } else {
        match spec_decode_human_name_all(a.drop_last()) {
            Ok(rest) => match spec_decode_human_name(a.last()) {
                Ok(x) => Ok(rest.push(x)),
                Err(e) => Err(e),
            },
            Err(e) => Err(e),
        }
    }
}

/// Decoding an encoded sequence of `HumanName` values yields the sequence back.
pub proof fn lemma_human_name_all_round_trip(vs: Seq<HumanNameV>)
    ensures
        spec_decode_human_name_all(spec_encode_human_name_all(vs)) == Ok::<Seq<HumanNameV>, DecodeError>(vs),
    decreases vs,
{
    if vs.len() > 0 {
        lemma_human_name_all_round_trip(vs.drop_last());
        lemma_human_name_round_trip(vs.last());
        let a = spec_encode_human_name_all(vs);
        assert(a.drop_last() =~= spec_encode_human_name_all(vs.drop_last()));
        assert(vs.drop_last().push(vs.last()) =~= vs);
    } else {
        assert(vs =~= Seq::<HumanNameV>::empty());
    }
}

/// When a prefix of the array decodes and the element after it does not,
/// the whole array fails with that element's error.
proof fn lemma_human_name_all_error_at(a: Seq<JsonV>, i: int)
    requires
        0 <= i < a.len(),
        spec_decode_human_name_all(a.subrange(0, i)) is Ok,
        spec_decode_human_name(a[i]) is Err,
    ensures
        spec_decode_human_name_all(a) == Err::<Seq<HumanNameV>, DecodeError>(spec_decode_human_name(a[i])->Err_0),
    decreases a,
{
    if i < a.len() - 1 {
        assert(a.drop_last().subrange(0, i) =~= a.subrange(0, i));
        lemma_human_name_all_error_at(a.drop_last(), i);
    } else {
        assert(a.drop_last() =~= a.subrange(0, i));
    }
}

/// Encodes a vector of `HumanName` values as a JSON array.
#[verifier::loop_isolation(false)]
pub fn encode_human_name_arr(v: &Vec<HumanName>) -> (r: Json)
    ensures
        r@ == JsonV::Arr(spec_encode_human_name_all(seq_views(v@))),
{
    broadcast use group_json_views;

    let ghost vs = seq_views(v@);
    let mut a: Vec<Json> = Vec::new();
    let n = v.len();
    let mut i: usize = 0;
    proof {
        assert(vs.subrange(0, 0) =~= Seq::<HumanNameV>::empty());
    }
    while i < n
        invariant
            i <= n,
            n == v@.len(),
            vs == seq_views(v@),
            arr_view(a@) =~= spec_encode_human_name_all(vs.subrange(0, i as int)),
        decreases n - i,
    {
        a.push(v[i].encode());
        proof {
            assert(vs.subrange(0, i as int + 1).drop_last() =~= vs.subrange(0, i as int));
            assert(arr_view(a@) =~= spec_encode_human_name_all(vs.subrange(0, i as int + 1)));
        }
        i = i + 1;
    }
    proof {
        assert(vs.subrange(0, n as int) =~= vs);
        assert(Json::Arr(a)@->Arr_0 =~= arr_view(a@));
    }
    Json::Arr(a)
}

/// Decodes a JSON array into a vector of `HumanName` values.
#[verifier::loop_isolation(false)]
pub fn decode_human_name_arr(a: &Vec<Json>) -> (r: Result<Vec<HumanName>, DecodeError>)
    ensures
        match r {
            Ok(v) => spec_decode_human_name_all(arr_view(a@)) == Ok::<_, DecodeError>(seq_views(v@)),
            Err(e) => spec_decode_human_name_all(arr_view(a@)) == Err::<Seq<HumanNameV>, DecodeError>(e),
        },
{
    broadcast use group_json_views;

    let ghost full = arr_view(a@);
    let n = a.len();
    let mut out: Vec<HumanName> = Vec::new();
    let mut i: usize = 0;
    proof {
        assert(full.subrange(0, 0) =~= Seq::<JsonV>::empty());
        assert(seq_views(out@) =~= Seq::<HumanNameV>::empty());
    }
    while i < n
        invariant
            i <= n,
            n == a@.len(),
            full == arr_view(a@),
            out@.len() == i,
            spec_decode_human_name_all(full.subrange(0, i as int)) == Ok::<_, DecodeError>(
                seq_views(out@),
            ),
        decreases n - i,
    {
        let ji = &a[i];
        proof {
            assert(ji@ == full[i as int]);
        }
        match HumanName::decode(ji) {
            Ok(x) => {
                out.push(x);
                proof {
                    assert(full.subrange(0, i as int + 1).drop_last() =~= full.subrange(
                        0,
                        i as int,
                    ));
                    assert(spec_decode_human_name_all(full.subrange(0, i as int + 1)) == Ok::<
                        _,
                        DecodeError,
                    >(seq_views(out@)));
                }
            },
            Err(e) => {
                proof {
                    lemma_human_name_all_error_at(full, i as int);
                }
                return Err(e);
            },
        }
        i = i + 1;
    }
    proof {
        assert(full.subrange(0, n as int) =~= full);
    }
    Ok(out)
}

} // verus!
