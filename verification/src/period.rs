//! A time period: a start and an end, held as plain date-time strings.
use crate::json::{
    entries_view, lemma_lookup_empty, lemma_lookup_push, lookup, put_str, spec_req_str,
    spec_write_json, take_req_str, write_json, DecodeError, Json, JsonV,
};
use vstd::prelude::*;

verus! {

/// A period of time with a start and an end.
#[derive(Debug, Clone, PartialEq, Eq)]
pub struct Period {
    start: String,
    end: String,
}

/// The mathematical shape of a period.
pub struct PeriodV {
    pub start: Seq<char>,
    pub end: Seq<char>,
}

impl View for Period {
    type V = PeriodV;

    closed spec fn view(&self) -> PeriodV {
        PeriodV { start: self.start@, end: self.end@ }
    }
}

impl Period {
    /// A period running from `start` to `end`.
    pub fn new(start: String, end: String) -> (r: Period)
        ensures
            r@ == (PeriodV { start: start@, end: end@ }),
    {
        Period { start, end }
    }

    /// The start of the period.
    pub fn start(&self) -> (r: &str)
        ensures
            r@ == self@.start,
    {
        self.start.as_str()
    }

    /// Replaces the start of the period.
    pub fn set_start(&mut self, start: String)
        ensures
            final(self)@ == (PeriodV { start: start@, ..old(self)@ }),
    {
        self.start = start;
    }

    /// The end of the period.
    pub fn end(&self) -> (r: &str)
        ensures
            r@ == self@.end,
    {
        self.end.as_str()
    }

    /// Replaces the end of the period.
    pub fn set_end(&mut self, end: String)
        ensures
            final(self)@ == (PeriodV { end: end@, ..old(self)@ }),
    {
        self.end = end;
    }

    /// Encodes the period as an object with its two fields.
    pub fn encode(&self) -> (r: Json)
        ensures
            r@ == spec_encode_period(self@),
    {
        let mut entries: Vec<(String, Json)> = Vec::new();
        proof {
            assert(entries_view(entries@) =~= Seq::<(Seq<char>, JsonV)>::empty());
        }
        put_str(&mut entries, "start", self.start.as_str());
        put_str(&mut entries, "end", self.end.as_str());
        let r = Json::Obj(entries);
        proof {
            assert(r@->Obj_0 =~= spec_encode_period(self@)->Obj_0);
        }
        r
    }

    /// Renders the value as JSON text: fixed field order and omission of
    /// absent optional fields, so equal values yield byte-identical text.
    pub fn to_json(&self) -> (r: String)
        ensures
            r@ == spec_write_json(spec_encode_period(self@)),
    {
        write_json(&self.encode())
    }

    /// Decodes a period from an object with both fields present; fails on
    /// any other shape.
    pub fn decode(j: &Json) -> (r: Result<Period, DecodeError>)
        ensures
            match r {
                Ok(p) => spec_decode_period(j@) == Ok::<PeriodV, DecodeError>(p@),
                Err(e) => spec_decode_period(j@) == Err::<PeriodV, DecodeError>(e),
            },
    {
        match j {
            Json::Obj(entries) => {
                proof {
                    assert(j@->Obj_0 =~= entries_view(entries@));
                }
                let start = match take_req_str(entries, "start") {
                    Ok(v) => v,
                    Err(e) => return Err(e),
                };
                let end = match take_req_str(entries, "end") {
                    Ok(v) => v,
                    Err(e) => return Err(e),
                };
                Ok(Period { start, end })
            },
            _ => Err(DecodeError::TypeMismatch),
        }
    }
}

/// The encoded form of a period: `start` then `end`, always present.
pub open spec fn spec_encode_period(p: PeriodV) -> JsonV {
    let o = Seq::<(Seq<char>, JsonV)>::empty();
    let o = o.push((("start")@, JsonV::Str(p.start)));
    let o = o.push((("end")@, JsonV::Str(p.end)));
    JsonV::Obj(o)
}

/// The decoded reading of a period.
pub open spec fn spec_decode_period(j: JsonV) -> Result<PeriodV, DecodeError> {
    match j {
        JsonV::Obj(o) => match spec_req_str(o, ("start")@) {
            Ok(start) => match spec_req_str(o, ("end")@) {
                Ok(end) => Ok(PeriodV { start, end }),
                Err(e) => Err(e),
            },
            Err(e) => Err(e),
        },
        _ => Err(DecodeError::TypeMismatch),
    }
}

/// Decoding an encoded period yields the period back.
pub proof fn lemma_period_round_trip(p: PeriodV)
    ensures
        spec_decode_period(spec_encode_period(p)) == Ok::<PeriodV, DecodeError>(p),
{
    broadcast use lemma_lookup_push, lemma_lookup_empty;

    reveal_strlit("start");
    reveal_strlit("end");
    assert(("start")@.len() == 5);
    assert(("end")@.len() == 3);
}

/// An optional `Period` field of an enclosing object.
pub open spec fn spec_opt_period(o: Seq<(Seq<char>, JsonV)>, k: Seq<char>) -> Result<
    Option<PeriodV>,
    DecodeError,
> {
    match lookup(o, k) {
        Option::None => Ok(Option::None),
        Option::Some(jv) => match spec_decode_period(jv) {
            Ok(x) => Ok(Option::Some(x)),
            Err(e) => Err(e),
        },
    }
}

/// Reads an optional `Period` field.
pub fn take_opt_period(entries: &Vec<(String, Json)>, key: &str) -> (r: Result<
    Option<Period>,
    DecodeError,
>)
    ensures
        match r {
            Ok(Option::Some(x)) => spec_opt_period(entries_view(entries@), key@) == Ok::<
                _,
                DecodeError,
            >(Option::Some(x@)),
            Ok(Option::None) => spec_opt_period(entries_view(entries@), key@) == Ok::<
                Option<PeriodV>,
                DecodeError,
            >(Option::None),
            Err(e) => spec_opt_period(entries_view(entries@), key@) == Err::<
                Option<PeriodV>,
                DecodeError,
            >(e),
        },
{
    match Json::obj_get(entries, key) {
        Option::None => Ok(Option::None),
        Option::Some(j) => match Period::decode(j) {
            Ok(x) => Ok(Option::Some(x)),
            Err(e) => Err(e),
        },
    }
}

} // verus!
