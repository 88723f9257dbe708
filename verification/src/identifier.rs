//! The `Identifier` composite: how a resource is identified elsewhere.
use crate::json::{DecodeError, Json, JsonV, arr_view, entries_view, group_json_views, lookup, put_json, put_str, seq_views, spec_req_str, take_req_str, spec_write_json, write_json};
use crate::data_types::uri::{Uri, lemma_uri_round_trip, spec_encode_uri, spec_req_uri, take_req_uri};
use crate::period::{Period, PeriodV, lemma_period_round_trip, spec_encode_period, spec_opt_period, take_opt_period};
use vstd::prelude::*;

verus! {

/// An identifier for a resource: use, system, value and optional period.
#[derive(Debug, Clone, PartialEq)]
pub struct Identifier {
    use_value: Uri,
    system: Uri,
    value: String,
    period: Option<Period>,
}

/// The mathematical shape of an `Identifier` value.
pub struct IdentifierV {
    pub use_value: Seq<char>,
    pub system: Seq<char>,
    pub value: Seq<char>,
    pub period: Option<PeriodV>,
}

impl View for Identifier {
    type V = IdentifierV;

    closed spec fn view(&self) -> IdentifierV {
        IdentifierV {
            use_value: self.use_value@,
            system: self.system@,
            value: self.value@,
            period: match self.period {
                Option::Some(ref x) => Option::Some(x@),
                Option::None => Option::None,
            },
        }
    }
}

impl Identifier {
    /// An identifier with the required use, system and value.
    pub fn new(use_value: Uri, system: Uri, value: String) -> (r: Identifier)
        ensures
            r@ == (IdentifierV {
                use_value: use_value@,
                system: system@,
                value: value@,
                period: Option::None,
            }),
    {
        let r = Identifier {
            use_value: use_value,
            system: system,
            value: value,
            period: Option::None,
        };
        r
    }

    /// The use of the identifier.
    pub fn use_value(&self) -> (r: &Uri)
        ensures
            r@ == self@.use_value,
    {
        &self.use_value
    }

    /// The system the identifier belongs to.
    pub fn system(&self) -> (r: &Uri)
        ensures
            r@ == self@.system,
    {
        &self.system
    }

    /// The identifier value.
    pub fn value(&self) -> (r: &str)
        ensures
            r@ == self@.value,
    {
        self.value.as_str()
    }

    /// The period, when set.
    pub fn period(&self) -> (r: Option<&Period>)
        ensures
            match r {
                Option::Some(x) => self@.period == Option::Some(x@),
                Option::None => self@.period is None,
            },
    {
        match &self.period {
            Option::Some(x) => Option::Some(x),
            Option::None => Option::None,
        }
    }

    /// Replaces the period.
    pub fn set_period(&mut self, period: Option<Period>)
        ensures
            final(self)@ == (IdentifierV { period: match period {
                Option::Some(ref x) => Option::Some(x@),
                Option::None => Option::None,
            }, ..old(self)@ }),
    {
        self.period = period;
    }

    /// Encodes the value as an object in fixed field order, omitting
    /// absent optional fields.
    pub fn encode(&self) -> (r: Json)
        ensures
            r@ == spec_encode_identifier(self@),
    {
        broadcast use group_json_views;

        let mut entries: Vec<(String, Json)> = Vec::new();
        proof {
            assert(entries_view(entries@) =~= Seq::<(Seq<char>, JsonV)>::empty());
        }
        put_json(&mut entries, "use", self.use_value.encode());
        put_json(&mut entries, "system", self.system.encode());
        put_str(&mut entries, "value", self.value.as_str());
        match &self.period {
            Option::Some(x) => put_json(&mut entries, "period", x.encode()),
            Option::None => (),
        };
        let r = Json::Obj(entries);
        proof {
            assert(r@->Obj_0 =~= spec_encode_identifier(self@)->Obj_0);
        }
        r
    }

    /// Renders the value as JSON text: fixed field order and omission of
    /// absent optional fields, so equal values yield byte-identical text.
    pub fn to_json(&self) -> (r: String)
        ensures
            r@ == spec_write_json(spec_encode_identifier(self@)),
    {
        write_json(&self.encode())
    }

    /// Decodes a value from an object, treating a missing key as an
    /// absent optional field; fails on any other shape.
    pub fn decode(j: &Json) -> (r: Result<Identifier, DecodeError>)
        ensures
            match r {
                Ok(x) => spec_decode_identifier(j@) == Ok::<IdentifierV, DecodeError>(x@),
                Err(e) => spec_decode_identifier(j@) == Err::<IdentifierV, DecodeError>(e),
            },
    {
        match j {
            Json::Obj(entries) => {
                proof {
                    assert(j@->Obj_0 =~= entries_view(entries@));
                }
                let use_value = match take_req_uri(entries, "use") {
                    Ok(v) => v,
                    Err(e) => return Err(e),
                };
                let system = match take_req_uri(entries, "system") {
                    Ok(v) => v,
                    Err(e) => return Err(e),
                };
                let value = match take_req_str(entries, "value") {
                    Ok(v) => v,
                    Err(e) => return Err(e),
                };
                let period = match take_opt_period(entries, "period") {
                    Ok(v) => v,
                    Err(e) => return Err(e),
                };
                Ok(Identifier { use_value, system, value, period })
            },
            _ => Err(DecodeError::TypeMismatch),
        }
    }
}

/// The encoded form of an `Identifier` value: its fields in declaration order, each
/// optional field present exactly when set.
pub open spec fn spec_encode_identifier(v: IdentifierV) -> JsonV {
    let o = Seq::<(Seq<char>, JsonV)>::empty();
    let o = o.push((("use")@, spec_encode_uri(v.use_value)));
    let o = o.push((("system")@, spec_encode_uri(v.system)));
    let o = o.push((("value")@, JsonV::Str(v.value)));
    let o = if v.period is Some {
        o.push((("period")@, spec_encode_period(v.period->Some_0)))
    } else {
        o
    };
    JsonV::Obj(o)
}

/// The decoded reading of an `Identifier` value.
pub open spec fn spec_decode_identifier(j: JsonV) -> Result<IdentifierV, DecodeError> {
    match j {
        JsonV::Obj(o) => match spec_req_uri(o, ("use")@) {
            Ok(use_value) => match spec_req_uri(o, ("system")@) {
                Ok(system) => match spec_req_str(o, ("value")@) {
                    Ok(value) => match spec_opt_period(o, ("period")@) {
                        Ok(period) => Ok(IdentifierV { use_value, system, value, period }),
                        Err(e) => Err(e),
                    },
                    Err(e) => Err(e),
                },
                Err(e) => Err(e),
            },
            Err(e) => Err(e),
        },
        _ => Err(DecodeError::TypeMismatch),
    }
}

/// Decoding an encoded Identifier yields the value back.
pub proof fn lemma_identifier_round_trip(v: IdentifierV)
    ensures
        spec_decode_identifier(spec_encode_identifier(v)) == Ok::<IdentifierV, DecodeError>(v),
{
    broadcast use group_json_views;

    reveal_strlit("use");
    reveal_strlit("system");
    reveal_strlit("value");
    reveal_strlit("period");
    assert(("use")@.len() == 3);
    assert(("system")@.len() == 6);
    assert(("value")@.len() == 5);
    assert(("period")@.len() == 6);
    assert(("system")@[0] != ("period")@[0]);
    lemma_uri_round_trip(v.use_value);
    lemma_uri_round_trip(v.system);
    if v.period is Some {
        lemma_period_round_trip(v.period->Some_0);
    }
    let o = spec_encode_identifier(v)->Obj_0;
    assert(lookup(o, ("use")@) == Option::Some(spec_encode_uri(v.use_value)));
    assert(lookup(o, ("system")@) == Option::Some(spec_encode_uri(v.system)));
    assert(lookup(o, ("value")@) == Option::Some(JsonV::Str(v.value)));
    assert(lookup(o, ("period")@) == (if v.period is Some {
            Option::Some(spec_encode_period(v.period->Some_0))
        } else {
            Option::None
        }));
}

/// The encoded form of a sequence of `Identifier` values, in order.
pub open spec fn spec_encode_identifier_all(vs: Seq<IdentifierV>) -> Seq<JsonV>
    decreases vs,
{
    if vs.len() == 0 {
        Seq::empty()
    } else {
        spec_encode_identifier_all(vs.drop_last()).push(spec_encode_identifier(vs.last()))
    }
}

/// The decoded reading of an array of `Identifier` values: all elements must
/// decode, and the first offending element decides the error.
pub open spec fn spec_decode_identifier_all(a: Seq<JsonV>) -> Result<Seq<IdentifierV>, DecodeError>
    decreases a,
{
    if a.len() == 0 {
        Ok(Seq::empty())
    } else {
        match spec_decode_identifier_all(a.drop_last()) {
            Ok(rest) => match spec_decode_identifier(a.last()) {
                Ok(x) => Ok(rest.push(x)),
                Err(e) => Err(e),
            },
            Err(e) => Err(e),
        }
    }
}

/// Decoding an encoded sequence of `Identifier` values yields the sequence back.
pub proof fn lemma_identifier_all_round_trip(vs: Seq<IdentifierV>)
    ensures
        spec_decode_identifier_all(spec_encode_identifier_all(vs)) == Ok::<Seq<IdentifierV>, DecodeError>(vs),
    decreases vs,
{
    if vs.len() > 0 {
        lemma_identifier_all_round_trip(vs.drop_last());
        lemma_identifier_round_trip(vs.last());
        let a = spec_encode_identifier_all(vs);
        assert(a.drop_last() =~= spec_encode_identifier_all(vs.drop_last()));
        assert(vs.drop_last().push(vs.last()) =~= vs);
    } else {
        assert(vs =~= Seq::<IdentifierV>::empty());
    }
}

/// When a prefix of the array decodes and the element after it does not,
/// the whole array fails with that element's error.
proof fn lemma_identifier_all_error_at(a: Seq<JsonV>, i: int)
    requires
        0 <= i < a.len(),
        spec_decode_identifier_all(a.subrange(0, i)) is Ok,
        spec_decode_identifier(a[i]) is Err,
    ensures
        spec_decode_identifier_all(a) == Err::<Seq<IdentifierV>, DecodeError>(spec_decode_identifier(a[i])->Err_0),
    decreases a,
{
    if i < a.len() - 1 {
        assert(a.drop_last().subrange(0, i) =~= a.subrange(0, i));
        lemma_identifier_all_error_at(a.drop_last(), i);
    } else {
        assert(a.drop_last() =~= a.subrange(0, i));
    }
}

/// Encodes a vector of `Identifier` values as a JSON array.
#[verifier::loop_isolation(false)]
pub fn encode_identifier_arr(v: &Vec<Identifier>) -> (r: Json)
    ensures
        r@ == JsonV::Arr(spec_encode_identifier_all(seq_views(v@))),
{
    broadcast use group_json_views;

    let ghost vs = seq_views(v@);
    let mut a: Vec<Json> = Vec::new();
    let n = v.len();
    let mut i: usize = 0;
    proof {
        assert(vs.subrange(0, 0) =~= Seq::<IdentifierV>::empty());
    }
    while i < n
        invariant
            i <= n,
            n == v@.len(),
            vs == seq_views(v@),
            arr_view(a@) =~= spec_encode_identifier_all(vs.subrange(0, i as int)),
        decreases n - i,
    {
        a.push(v[i].encode());
        proof {
            assert(vs.subrange(0, i as int + 1).drop_last() =~= vs.subrange(0, i as int));
            assert(arr_view(a@) =~= spec_encode_identifier_all(vs.subrange(0, i as int + 1)));
        }
        i = i + 1;
    }
    proof {
        assert(vs.subrange(0, n as int) =~= vs);
        assert(Json::Arr(a)@->Arr_0 =~= arr_view(a@));
    }
    Json::Arr(a)
}

/// Decodes a JSON array into a vector of `Identifier` values.
#[verifier::loop_isolation(false)]
pub fn decode_identifier_arr(a: &Vec<Json>) -> (r: Result<Vec<Identifier>, DecodeError>)
    ensures
        match r {
            Ok(v) => spec_decode_identifier_all(arr_view(a@)) == Ok::<_, DecodeError>(seq_views(v@)),
            Err(e) => spec_decode_identifier_all(arr_view(a@)) == Err::<Seq<IdentifierV>, DecodeError>(e),
        },
{
    broadcast use group_json_views;

    let ghost full = arr_view(a@);
    let n = a.len();
    let mut out: Vec<Identifier> = Vec::new();
    let mut i: usize = 0;
    proof {
        assert(full.subrange(0, 0) =~= Seq::<JsonV>::empty());
        assert(seq_views(out@) =~= Seq::<IdentifierV>::empty());
    }
    while i < n
        invariant
            i <= n,
            n == a@.len(),
            full == arr_view(a@),
            out@.len() == i,
            spec_decode_identifier_all(full.subrange(0, i as int)) == Ok::<_, DecodeError>(
                seq_views(out@),
            ),
        decreases n - i,
    {
        let ji = &a[i];
        proof {
            assert(ji@ == full[i as int]);
        }
        match Identifier::decode(ji) {
            Ok(x) => {
                out.push(x);
                proof {
                    assert(full.subrange(0, i as int + 1).drop_last() =~= full.subrange(
                        0,
                        i as int,
                    ));
                    assert(spec_decode_identifier_all(full.subrange(0, i as int + 1)) == Ok::<
                        _,
                        DecodeError,
                    >(seq_views(out@)));
                }
            },
            Err(e) => {
                proof {
                    lemma_identifier_all_error_at(full, i as int);
                }
                return Err(e);
            },
        }
        i = i + 1;
    }
    proof {
        assert(full.subrange(0, n as int) =~= full);
    }
    Ok(out)
}

} // verus!
