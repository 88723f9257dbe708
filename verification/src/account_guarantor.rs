//! The guarantors of an account.
use crate::json::{DecodeError, Json, JsonV, arr_view, entries_view, group_json_views, lookup, put_json, put_opt_bool, seq_views, spec_opt_bool, take_opt_bool};
use crate::data_types::reference::{Reference, ReferenceV, lemma_reference_round_trip, spec_encode_reference, spec_req_reference, take_req_reference};
use crate::period::{Period, PeriodV, lemma_period_round_trip, spec_encode_period, spec_opt_period, take_opt_period};
use vstd::prelude::*;

verus! {

/// A guarantor of an account: a party, an on-hold flag and a period.
#[derive(Debug, Clone, PartialEq)]
pub struct AccountGuarantor {
    party: Reference,
    on_hold: Option<bool>,
    period: Option<Period>,
}

/// The mathematical shape of an `AccountGuarantor` value.
pub struct AccountGuarantorV {
    pub party: ReferenceV,
    pub on_hold: Option<bool>,
    pub period: Option<PeriodV>,
}

impl View for AccountGuarantor {
    type V = AccountGuarantorV;

    closed spec fn view(&self) -> AccountGuarantorV {
        AccountGuarantorV {
            party: self.party@,
            on_hold: self.on_hold,
            period: match self.period {
                Option::Some(ref x) => Option::Some(x@),
                Option::None => Option::None,
            },
        }
    }
}

impl AccountGuarantor {
    /// A guarantor with only the required party.
    pub fn new(party: Reference) -> (r: AccountGuarantor)
        ensures
            r@ == (AccountGuarantorV {
                party: party@,
                on_hold: Option::None,
                period: Option::None,
            }),
    {
        let r = AccountGuarantor {
            party: party,
            on_hold: Option::None,
            period: Option::None,
        };
        r
    }

    /// The guarantor party.
    pub fn party(&self) -> (r: &Reference)
        ensures
            r@ == self@.party,
    {
        &self.party
    }

    /// The on-hold flag, when set.
    pub fn on_hold(&self) -> (r: Option<bool>)
        ensures
            r == self@.on_hold,
    {
        self.on_hold
    }

    /// The period, when set.
    pub fn period(&self) -> (r: Option<&Period>)
        ensures
            match r {
                Option::Some(x) => self@.period == Option::Some(x@),
                Option::None => self@.period is None,
            },
    {
        match &self.period {
            Option::Some(x) => Option::Some(x),
            Option::None => Option::None,
        }
    }

    /// Replaces the guarantor party.
    pub fn set_party(&mut self, party: Reference)
        ensures
            final(self)@ == (AccountGuarantorV { party: party@, ..old(self)@ }),
    {
        self.party = party;
    }

    /// Replaces the on-hold flag.
    pub fn set_on_hold(&mut self, on_hold: Option<bool>)
        ensures
            final(self)@ == (AccountGuarantorV { on_hold: on_hold, ..old(self)@ }),
    {
        self.on_hold = on_hold;
    }

    /// Replaces the period.
    pub fn set_period(&mut self, period: Option<Period>)
        ensures
            final(self)@ == (AccountGuarantorV { period: match period {
                Option::Some(ref x) => Option::Some(x@),
                Option::None => Option::None,
            }, ..old(self)@ }),
    {
        self.period = period;
    }

    /// Encodes the value as an object in fixed field order, omitting
    /// absent optional fields.
    pub fn encode(&self) -> (r: Json)
        ensures
            r@ == spec_encode_account_guarantor(self@),
    {
        broadcast use group_json_views;

        let mut entries: Vec<(String, Json)> = Vec::new();
        proof {
            assert(entries_view(entries@) =~= Seq::<(Seq<char>, JsonV)>::empty());
        }
        put_json(&mut entries, "party", self.party.encode());
        put_opt_bool(&mut entries, "onHold", &self.on_hold);
        match &self.period {
            Option::Some(x) => put_json(&mut entries, "period", x.encode()),
            Option::None => (),
        };
        let r = Json::Obj(entries);
        proof {
            assert(r@->Obj_0 =~= spec_encode_account_guarantor(self@)->Obj_0);
        }
        r
    }

    /// Decodes a value from an object, treating a missing key as an
    /// absent optional field; fails on any other shape.
    pub fn decode(j: &Json) -> (r: Result<AccountGuarantor, DecodeError>)
        ensures
            match r {
                Ok(x) => spec_decode_account_guarantor(j@) == Ok::<AccountGuarantorV, DecodeError>(x@),
                Err(e) => spec_decode_account_guarantor(j@) == Err::<AccountGuarantorV, DecodeError>(e),
            },
    {
        match j {
            Json::Obj(entries) => {
                proof {
                    assert(j@->Obj_0 =~= entries_view(entries@));
                }
                let party = match take_req_reference(entries, "party") {
                    Ok(v) => v,
                    Err(e) => return Err(e),
                };
                let on_hold = match take_opt_bool(entries, "onHold") {
                    Ok(v) => v,
                    Err(e) => return Err(e),
                };
                let period = match take_opt_period(entries, "period") {
                    Ok(v) => v,
                    Err(e) => return Err(e),
                };
                Ok(AccountGuarantor { party, on_hold, period })
            },
            _ => Err(DecodeError::TypeMismatch),
        }
    }
}

/// The encoded form of an `AccountGuarantor` value: its fields in declaration order, each
/// optional field present exactly when set.
pub open spec fn spec_encode_account_guarantor(v: AccountGuarantorV) -> JsonV {
    let o = Seq::<(Seq<char>, JsonV)>::empty();
    let o = o.push((("party")@, spec_encode_reference(v.party)));
    let o = if v.on_hold is Some {
        o.push((("onHold")@, JsonV::Bool(v.on_hold->Some_0)))
    } else {
        o
    };
    let o = if v.period is Some {
        o.push((("period")@, spec_encode_period(v.period->Some_0)))
    } else {
        o
    };
    JsonV::Obj(o)
}

/// The decoded reading of an `AccountGuarantor` value.
pub open spec fn spec_decode_account_guarantor(j: JsonV) -> Result<AccountGuarantorV, DecodeError> {
    match j {
        JsonV::Obj(o) => match spec_req_reference(o, ("party")@) {
            Ok(party) => match spec_opt_bool(o, ("onHold")@) {
                Ok(on_hold) => match spec_opt_period(o, ("period")@) {
                    Ok(period) => Ok(AccountGuarantorV { party, on_hold, period }),
                    Err(e) => Err(e),
                },
                Err(e) => Err(e),
            },
            Err(e) => Err(e),
        },
        _ => Err(DecodeError::TypeMismatch),
    }
}

/// Decoding an encoded AccountGuarantor yields the value back.
pub proof fn lemma_account_guarantor_round_trip(v: AccountGuarantorV)
    ensures
        spec_decode_account_guarantor(spec_encode_account_guarantor(v)) == Ok::<AccountGuarantorV, DecodeError>(v),
{
    broadcast use group_json_views;

    reveal_strlit("party");
    reveal_strlit("onHold");
    reveal_strlit("period");
    assert(("party")@.len() == 5);
    assert(("onHold")@.len() == 6);
    assert(("period")@.len() == 6);
    assert(("onHold")@[0] != ("period")@[0]);
    lemma_reference_round_trip(v.party);
    if v.period is Some {
        lemma_period_round_trip(v.period->Some_0);
    }
    let o = spec_encode_account_guarantor(v)->Obj_0;
    assert(lookup(o, ("party")@) == Option::Some(spec_encode_reference(v.party)));
    assert(lookup(o, ("onHold")@) == (if v.on_hold is Some {
            Option::Some(JsonV::Bool(v.on_hold->Some_0))
        } else {
            Option::None
        }));
    assert(lookup(o, ("period")@) == (if v.period is Some {
            Option::Some(spec_encode_period(v.period->Some_0))
        } else {
            Option::None
        }));
}

/// The encoded form of a sequence of `AccountGuarantor` values, in order.
pub open spec fn spec_encode_account_guarantor_all(vs: Seq<AccountGuarantorV>) -> Seq<JsonV>
    decreases vs,
{
    if vs.len() == 0 {
        Seq::empty()
    } else {
        spec_encode_account_guarantor_all(vs.drop_last()).push(spec_encode_account_guarantor(vs.last()))
    }
}

/// The decoded reading of an array of `AccountGuarantor` values: all elements must
/// decode, and the first offending element decides the error.
pub open spec fn spec_decode_account_guarantor_all(a: Seq<JsonV>) -> Result<Seq<AccountGuarantorV>, DecodeError>
    decreases a,
{
    if a.len() == 0 {
        Ok(Seq::empty())
    } else {
        match spec_decode_account_guarantor_all(a.drop_last()) {
            Ok(rest) => match spec_decode_account_guarantor(a.last()) {
                Ok(x) => Ok(rest.push(x)),
                Err(e) => Err(e),
            },
            Err(e) => Err(e),
        }
    }
}

/// Decoding an encoded sequence of `AccountGuarantor` values yields the sequence back.
pub proof fn lemma_account_guarantor_all_round_trip(vs: Seq<AccountGuarantorV>)
    ensures
        spec_decode_account_guarantor_all(spec_encode_account_guarantor_all(vs)) == Ok::<Seq<AccountGuarantorV>, DecodeError>(vs),
    decreases vs,
{
    if vs.len() > 0 {
        lemma_account_guarantor_all_round_trip(vs.drop_last());
        lemma_account_guarantor_round_trip(vs.last());
        let a = spec_encode_account_guarantor_all(vs);
        assert(a.drop_last() =~= spec_encode_account_guarantor_all(vs.drop_last()));
        assert(vs.drop_last().push(vs.last()) =~= vs);
    } else {
        assert(vs =~= Seq::<AccountGuarantorV>::empty());
    }
}

/// When a prefix of the array decodes and the element after it does not,
/// the whole array fails with that element's error.
proof fn lemma_account_guarantor_all_error_at(a: Seq<JsonV>, i: int)
    requires
        0 <= i < a.len(),
        spec_decode_account_guarantor_all(a.subrange(0, i)) is Ok,
        spec_decode_account_guarantor(a[i]) is Err,
    ensures
        spec_decode_account_guarantor_all(a) == Err::<Seq<AccountGuarantorV>, DecodeError>(spec_decode_account_guarantor(a[i])->Err_0),
    decreases a,
{
    if i < a.len() - 1 {
        assert(a.drop_last().subrange(0, i) =~= a.subrange(0, i));
        lemma_account_guarantor_all_error_at(a.drop_last(), i);
    } else {
        assert(a.drop_last() =~= a.subrange(0, i));
    }
}

/// Encodes a vector of `AccountGuarantor` values as a JSON array.
#[verifier::loop_isolation(false)]
pub fn encode_account_guarantor_arr(v: &Vec<AccountGuarantor>) -> (r: Json)
    ensures
        r@ == JsonV::Arr(spec_encode_account_guarantor_all(seq_views(v@))),
{
    broadcast use group_json_views;

    let ghost vs = seq_views(v@);
    let mut a: Vec<Json> = Vec::new();
    let n = v.len();
    let mut i: usize = 0;
    proof {
        assert(vs.subrange(0, 0) =~= Seq::<AccountGuarantorV>::empty());
    }
    while i < n
        invariant
            i <= n,
            n == v@.len(),
            vs == seq_views(v@),
            arr_view(a@) =~= spec_encode_account_guarantor_all(vs.subrange(0, i as int)),
        decreases n - i,
    {
        a.push(v[i].encode());
        proof {
            assert(vs.subrange(0, i as int + 1).drop_last() =~= vs.subrange(0, i as int));
            assert(arr_view(a@) =~= spec_encode_account_guarantor_all(vs.subrange(0, i as int + 1)));
        }
        i = i + 1;
    }
    proof {
        assert(vs.subrange(0, n as int) =~= vs);
        assert(Json::Arr(a)@->Arr_0 =~= arr_view(a@));
    }
    Json::Arr(a)
}

/// Decodes a JSON array into a vector of `AccountGuarantor` values.
#[verifier::loop_isolation(false)]
pub fn decode_account_guarantor_arr(a: &Vec<Json>) -> (r: Result<Vec<AccountGuarantor>, DecodeError>)
    ensures
        match r {
            Ok(v) => spec_decode_account_guarantor_all(arr_view(a@)) == Ok::<_, DecodeError>(seq_views(v@)),
            Err(e) => spec_decode_account_guarantor_all(arr_view(a@)) == Err::<Seq<AccountGuarantorV>, DecodeError>(e),
        },
{
    broadcast use group_json_views;

    let ghost full = arr_view(a@);
    let n = a.len();
    let mut out: Vec<AccountGuarantor> = Vec::new();
    let mut i: usize = 0;
    proof {
        assert(full.subrange(0, 0) =~= Seq::<JsonV>::empty());
        assert(seq_views(out@) =~= Seq::<AccountGuarantorV>::empty());
    }
    while i < n
        invariant
            i <= n,
            n == a@.len(),
            full == arr_view(a@),
            out@.len() == i,
            spec_decode_account_guarantor_all(full.subrange(0, i as int)) == Ok::<_, DecodeError>(
                seq_views(out@),
            ),
        decreases n - i,
    {
        let ji = &a[i];
        proof {
            assert(ji@ == full[i as int]);
        }
        match AccountGuarantor::decode(ji) {
            Ok(x) => {
                out.push(x);
                proof {
                    assert(full.subrange(0, i as int + 1).drop_last() =~= full.subrange(
                        0,
                        i as int,
                    ));
                    assert(spec_decode_account_guarantor_all(full.subrange(0, i as int + 1)) == Ok::<
                        _,
                        DecodeError,
                    >(seq_views(out@)));
                }
            },
            Err(e) => {
                proof {
                    lemma_account_guarantor_all_error_at(full, i as int);
                }
                return Err(e);
            },
        }
        i = i + 1;
    }
    proof {
        assert(full.subrange(0, n as int) =~= full);
    }
    Ok(out)
}

} // verus!
