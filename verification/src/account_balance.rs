//! The balances of an account.
use crate::json::{DecodeError, Json, JsonV, arr_view, entries_view, group_json_views, lookup, put_json, put_opt_bool, seq_views, spec_opt_bool, take_opt_bool};
use crate::data_types::codeable_concept::{CodeableConcept, CodeableConceptV, lemma_codeable_concept_round_trip, spec_encode_codeable_concept, spec_opt_codeable_concept, take_opt_codeable_concept};
use crate::money::{Money, MoneyV, lemma_money_round_trip, spec_encode_money, spec_req_money, take_req_money};
use vstd::prelude::*;

verus! {

/// A balance of an account: an amount with optional qualifiers.
#[derive(Debug, Clone, PartialEq)]
pub struct AccountBalance {
    aggregate: Option<CodeableConcept>,
    term: Option<CodeableConcept>,
    estimate: Option<bool>,
    amount: Money,
}

/// The mathematical shape of an `AccountBalance` value.
pub struct AccountBalanceV {
    pub aggregate: Option<CodeableConceptV>,
    pub term: Option<CodeableConceptV>,
    pub estimate: Option<bool>,
    pub amount: MoneyV,
}

impl View for AccountBalance {
    type V = AccountBalanceV;

    closed spec fn view(&self) -> AccountBalanceV {
        AccountBalanceV {
            aggregate: match self.aggregate {
                Option::Some(ref x) => Option::Some(x@),
                Option::None => Option::None,
            },
            term: match self.term {
                Option::Some(ref x) => Option::Some(x@),
                Option::None => Option::None,
            },
            estimate: self.estimate,
            amount: self.amount@,
        }
    }
}

impl AccountBalance {
    /// A balance with only the required amount.
    pub fn new(amount: Money) -> (r: AccountBalance)
        ensures
            r@ == (AccountBalanceV {
                aggregate: Option::None,
                term: Option::None,
                estimate: Option::None,
                amount: amount@,
            }),
    {
        let r = AccountBalance {
            aggregate: Option::None,
            term: Option::None,
            estimate: Option::None,
            amount: amount,
        };
        r
    }

    /// The amount.
    pub fn amount(&self) -> (r: &Money)
        ensures
            r@ == self@.amount,
    {
        &self.amount
    }

    /// The aggregate, when set.
    pub fn aggregate(&self) -> (r: Option<&CodeableConcept>)
        ensures
            match r {
                Option::Some(x) => self@.aggregate == Option::Some(x@),
                Option::None => self@.aggregate is None,
            },
    {
        match &self.aggregate {
            Option::Some(x) => Option::Some(x),
            Option::None => Option::None,
        }
    }

    /// The term, when set.
    pub fn term(&self) -> (r: Option<&CodeableConcept>)
        ensures
            match r {
                Option::Some(x) => self@.term == Option::Some(x@),
                Option::None => self@.term is None,
            },
    {
        match &self.term {
            Option::Some(x) => Option::Some(x),
            Option::None => Option::None,
        }
    }

    /// The estimate flag, when set.
    pub fn estimate(&self) -> (r: Option<bool>)
        ensures
            r == self@.estimate,
    {
        self.estimate
    }

    /// Replaces the amount.
    pub fn set_amount(&mut self, amount: Money)
        ensures
            final(self)@ == (AccountBalanceV { amount: amount@, ..old(self)@ }),
    {
        self.amount = amount;
    }

    /// Replaces the aggregate.
    pub fn set_aggregate(&mut self, aggregate: Option<CodeableConcept>)
        ensures
            final(self)@ == (AccountBalanceV { aggregate: match aggregate {
                Option::Some(ref x) => Option::Some(x@),
                Option::None => Option::None,
            }, ..old(self)@ }),
    {
        self.aggregate = aggregate;
    }

    /// Replaces the term.
    pub fn set_term(&mut self, term: Option<CodeableConcept>)
        ensures
            final(self)@ == (AccountBalanceV { term: match term {
                Option::Some(ref x) => Option::Some(x@),
                Option::None => Option::None,
            }, ..old(self)@ }),
    {
        self.term = term;
    }

    /// Replaces the estimate flag.
    pub fn set_estimate(&mut self, estimate: Option<bool>)
        ensures
            final(self)@ == (AccountBalanceV { estimate: estimate, ..old(self)@ }),
    {
        self.estimate = estimate;
    }

    /// Encodes the value as an object in fixed field order, omitting
    /// absent optional fields.
    pub fn encode(&self) -> (r: Json)
        ensures
            r@ == spec_encode_account_balance(self@),
    {
        broadcast use group_json_views;

        let mut entries: Vec<(String, Json)> = Vec::new();
        proof {
            assert(entries_view(entries@) =~= Seq::<(Seq<char>, JsonV)>::empty());
        }
        match &self.aggregate {
            Option::Some(x) => put_json(&mut entries, "aggregate", x.encode()),
            Option::None => (),
        };
        match &self.term {
            Option::Some(x) => put_json(&mut entries, "term", x.encode()),
            Option::None => (),
        };
        put_opt_bool(&mut entries, "estimate", &self.estimate);
        put_json(&mut entries, "amount", self.amount.encode());
        let r = Json::Obj(entries);
        proof {
            assert(r@->Obj_0 =~= spec_encode_account_balance(self@)->Obj_0);
        }
        r
    }

    /// Decodes a value from an object, treating a missing key as an
    /// absent optional field; fails on any other shape.
    pub fn decode(j: &Json) -> (r: Result<AccountBalance, DecodeError>)
        ensures
            match r {
                Ok(x) => spec_decode_account_balance(j@) == Ok::<AccountBalanceV, DecodeError>(x@),
                Err(e) => spec_decode_account_balance(j@) == Err::<AccountBalanceV, DecodeError>(e),
            },
    {
        match j {
            Json::Obj(entries) => {
                proof {
                    assert(j@->Obj_0 =~= entries_view(entries@));
                }
                let aggregate = match take_opt_codeable_concept(entries, "aggregate") {
                    Ok(v) => v,
                    Err(e) => return Err(e),
                };
                let term = match take_opt_codeable_concept(entries, "term") {
                    Ok(v) => v,
                    Err(e) => return Err(e),
                };
                let estimate = match take_opt_bool(entries, "estimate") {
                    Ok(v) => v,
                    Err(e) => return Err(e),
                };
                let amount = match take_req_money(entries, "amount") {
                    Ok(v) => v,
                    Err(e) => return Err(e),
                };
                Ok(AccountBalance { aggregate, term, estimate, amount })
            },
            _ => Err(DecodeError::TypeMismatch),
        }
    }
}

/// The encoded form of an `AccountBalance` value: its fields in declaration order, each
/// optional field present exactly when set.
pub open spec fn spec_encode_account_balance(v: AccountBalanceV) -> JsonV {
    let o = Seq::<(Seq<char>, JsonV)>::empty();
    let o = if v.aggregate is Some {
        o.push((("aggregate")@, spec_encode_codeable_concept(v.aggregate->Some_0)))
    } else {
        o
    };
    let o = if v.term is Some {
        o.push((("term")@, spec_encode_codeable_concept(v.term->Some_0)))
    } else {
        o
    };
    let o = if v.estimate is Some {
        o.push((("estimate")@, JsonV::Bool(v.estimate->Some_0)))
    } else {
        o
    };
    let o = o.push((("amount")@, spec_encode_money(v.amount)));
    JsonV::Obj(o)
}

/// The decoded reading of an `AccountBalance` value.
pub open spec fn spec_decode_account_balance(j: JsonV) -> Result<AccountBalanceV, DecodeError> {
    match j {
        JsonV::Obj(o) => match spec_opt_codeable_concept(o, ("aggregate")@) {
            Ok(aggregate) => match spec_opt_codeable_concept(o, ("term")@) {
                Ok(term) => match spec_opt_bool(o, ("estimate")@) {
                    Ok(estimate) => match spec_req_money(o, ("amount")@) {
                        Ok(amount) => Ok(AccountBalanceV { aggregate, term, estimate, amount }),
                        Err(e) => Err(e),
                    },
                    Err(e) => Err(e),
                },
                Err(e) => Err(e),
            },
            Err(e) => Err(e),
        },
        _ => Err(DecodeError::TypeMismatch),
    }
}

/// Decoding an encoded AccountBalance yields the value back.
pub proof fn lemma_account_balance_round_trip(v: AccountBalanceV)
    ensures
        spec_decode_account_balance(spec_encode_account_balance(v)) == Ok::<AccountBalanceV, DecodeError>(v),
{
    broadcast use group_json_views;

    reveal_strlit("aggregate");
    reveal_strlit("term");
    reveal_strlit("estimate");
    reveal_strlit("amount");
    assert(("aggregate")@.len() == 9);
    assert(("term")@.len() == 4);
    assert(("estimate")@.len() == 8);
    assert(("amount")@.len() == 6);
    if v.aggregate is Some {
        lemma_codeable_concept_round_trip(v.aggregate->Some_0);
    }
    if v.term is Some {
        lemma_codeable_concept_round_trip(v.term->Some_0);
    }
    lemma_money_round_trip(v.amount);
    let o = spec_encode_account_balance(v)->Obj_0;
    assert(lookup(o, ("aggregate")@) == (if v.aggregate is Some {
            Option::Some(spec_encode_codeable_concept(v.aggregate->Some_0))
        } else {
            Option::None
        }));
    assert(lookup(o, ("term")@) == (if v.term is Some {
            Option::Some(spec_encode_codeable_concept(v.term->Some_0))
        } else {
            Option::None
        }));
    assert(lookup(o, ("estimate")@) == (if v.estimate is Some {
            Option::Some(JsonV::Bool(v.estimate->Some_0))
        } else {
            Option::None
        }));
    assert(lookup(o, ("amount")@) == Option::Some(spec_encode_money(v.amount)));
}

/// The encoded form of a sequence of `AccountBalance` values, in order.
pub open spec fn spec_encode_account_balance_all(vs: Seq<AccountBalanceV>) -> Seq<JsonV>
    decreases vs,
{
    if vs.len() == 0 {
        Seq::empty()
    } else {
        spec_encode_account_balance_all(vs.drop_last()).push(spec_encode_account_balance(vs.last()))
    }
}

/// The decoded reading of an array of `AccountBalance` values: all elements must
/// decode, and the first offending element decides the error.
pub open spec fn spec_decode_account_balance_all(a: Seq<JsonV>) -> Result<Seq<AccountBalanceV>, DecodeError>
    decreases a,
{
    if a.len() == 0 {
        Ok(Seq::empty())
    } else {
        match spec_decode_account_balance_all(a.drop_last()) {
            Ok(rest) => match spec_decode_account_balance(a.last()) {
                Ok(x) => Ok(rest.push(x)),
                Err(e) => Err(e),
            },
            Err(e) => Err(e),
        }
    }
}

/// Decoding an encoded sequence of `AccountBalance` values yields the sequence back.
pub proof fn lemma_account_balance_all_round_trip(vs: Seq<AccountBalanceV>)
    ensures
        spec_decode_account_balance_all(spec_encode_account_balance_all(vs)) == Ok::<Seq<AccountBalanceV>, DecodeError>(vs),
    decreases vs,
{
    if vs.len() > 0 {
        lemma_account_balance_all_round_trip(vs.drop_last());
        lemma_account_balance_round_trip(vs.last());
        let a = spec_encode_account_balance_all(vs);
        assert(a.drop_last() =~= spec_encode_account_balance_all(vs.drop_last()));
        assert(vs.drop_last().push(vs.last()) =~= vs);
    } else {
        assert(vs =~= Seq::<AccountBalanceV>::empty());
    }
}

/// When a prefix of the array decodes and the element after it does not,
/// the whole array fails with that element's error.
proof fn lemma_account_balance_all_error_at(a: Seq<JsonV>, i: int)
    requires
        0 <= i < a.len(),
        spec_decode_account_balance_all(a.subrange(0, i)) is Ok,
        spec_decode_account_balance(a[i]) is Err,
    ensures
        spec_decode_account_balance_all(a) == Err::<Seq<AccountBalanceV>, DecodeError>(spec_decode_account_balance(a[i])->Err_0),
    decreases a,
{
    if i < a.len() - 1 {
        assert(a.drop_last().subrange(0, i) =~= a.subrange(0, i));
        lemma_account_balance_all_error_at(a.drop_last(), i);
    } else {
        assert(a.drop_last() =~= a.subrange(0, i));
    }
}

/// Encodes a vector of `AccountBalance` values as a JSON array.
#[verifier::loop_isolation(false)]
pub fn encode_account_balance_arr(v: &Vec<AccountBalance>) -> (r: Json)
    ensures
        r@ == JsonV::Arr(spec_encode_account_balance_all(seq_views(v@))),
{
    broadcast use group_json_views;

    let ghost vs = seq_views(v@);
    let mut a: Vec<Json> = Vec::new();
    let n = v.len();
    let mut i: usize = 0;
    proof {
        assert(vs.subrange(0, 0) =~= Seq::<AccountBalanceV>::empty());
    }
    while i < n
        invariant
            i <= n,
            n == v@.len(),
            vs == seq_views(v@),
            arr_view(a@) =~= spec_encode_account_balance_all(vs.subrange(0, i as int)),
        decreases n - i,
    {
        a.push(v[i].encode());
        proof {
            assert(vs.subrange(0, i as int + 1).drop_last() =~= vs.subrange(0, i as int));
            assert(arr_view(a@) =~= spec_encode_account_balance_all(vs.subrange(0, i as int + 1)));
        }
        i = i + 1;
    }
    proof {
        assert(vs.subrange(0, n as int) =~= vs);
        assert(Json::Arr(a)@->Arr_0 =~= arr_view(a@));
    }
    Json::Arr(a)
}

/// Decodes a JSON array into a vector of `AccountBalance` values.
#[verifier::loop_isolation(false)]
pub fn decode_account_balance_arr(a: &Vec<Json>) -> (r: Result<Vec<AccountBalance>, DecodeError>)
    ensures
        match r {
            Ok(v) => spec_decode_account_balance_all(arr_view(a@)) == Ok::<_, DecodeError>(seq_views(v@)),
            Err(e) => spec_decode_account_balance_all(arr_view(a@)) == Err::<Seq<AccountBalanceV>, DecodeError>(e),
        },
{
    broadcast use group_json_views;

    let ghost full = arr_view(a@);
    let n = a.len();
    let mut out: Vec<AccountBalance> = Vec::new();
    let mut i: usize = 0;
    proof {
        assert(full.subrange(0, 0) =~= Seq::<JsonV>::empty());
        assert(seq_views(out@) =~= Seq::<AccountBalanceV>::empty());
    }
    while i < n
        invariant
            i <= n,
            n == a@.len(),
            full == arr_view(a@),
            out@.len() == i,
            spec_decode_account_balance_all(full.subrange(0, i as int)) == Ok::<_, DecodeError>(
                seq_views(out@),
            ),
        decreases n - i,
    {
        let ji = &a[i];
        proof {
            assert(ji@ == full[i as int]);
        }
        match AccountBalance::decode(ji) {
            Ok(x) => {
                out.push(x);
                proof {
                    assert(full.subrange(0, i as int + 1).drop_last() =~= full.subrange(
                        0,
                        i as int,
                    ));
                    assert(spec_decode_account_balance_all(full.subrange(0, i as int + 1)) == Ok::<
                        _,
                        DecodeError,
                    >(seq_views(out@)));
                }
            },
            Err(e) => {
                proof {
                    lemma_account_balance_all_error_at(full, i as int);
                }
                return Err(e);
            },
        }
        i = i + 1;
    }
    proof {
        assert(full.subrange(0, n as int) =~= full);
    }
    Ok(out)
}

} // verus!
