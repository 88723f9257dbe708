//! The links from an account to related accounts.
use crate::json::{DecodeError, Json, JsonV, arr_view, entries_view, group_json_views, lookup, put_json, seq_views};
use crate::data_types::codeable_concept::{CodeableConcept, CodeableConceptV, lemma_codeable_concept_round_trip, spec_encode_codeable_concept, spec_opt_codeable_concept, take_opt_codeable_concept};
use crate::data_types::reference::{Reference, ReferenceV, lemma_reference_round_trip, spec_encode_reference, spec_req_reference, take_req_reference};
use vstd::prelude::*;

verus! {

/// A link from an account to a related account.
#[derive(Debug, Clone, PartialEq)]
pub struct AccountRelatedAccount {
    relationship: Option<CodeableConcept>,
    account: Reference,
}

/// The mathematical shape of an `AccountRelatedAccount` value.
pub struct AccountRelatedAccountV {
    pub relationship: Option<CodeableConceptV>,
    pub account: ReferenceV,
}

impl View for AccountRelatedAccount {
    type V = AccountRelatedAccountV;

    closed spec fn view(&self) -> AccountRelatedAccountV {
        AccountRelatedAccountV {
            relationship: match self.relationship {
                Option::Some(ref x) => Option::Some(x@),
                Option::None => Option::None,
            },
            account: self.account@,
        }
    }
}

impl AccountRelatedAccount {
    /// A related-account link with no relationship.
    pub fn new(account: Reference) -> (r: AccountRelatedAccount)
        ensures
            r@ == (AccountRelatedAccountV {
                relationship: Option::None,
                account: account@,
            }),
    {
        let r = AccountRelatedAccount {
            relationship: Option::None,
            account: account,
        };
        r
    }

    /// A related-account link with its relationship set.
    pub fn with_relationship(account: Reference, relationship: CodeableConcept) -> (r: AccountRelatedAccount)
        ensures
            r@ == (AccountRelatedAccountV {
                relationship: Option::Some(relationship@),
                account: account@,
            }),
    {
        let r = AccountRelatedAccount {
            relationship: Option::Some(relationship),
            account: account,
        };
        r
    }

    /// The related account reference.
    pub fn account(&self) -> (r: &Reference)
        ensures
            r@ == self@.account,
    {
        &self.account
    }

    /// The relationship, when set.
    pub fn relationship(&self) -> (r: Option<&CodeableConcept>)
        ensures
            match r {
                Option::Some(x) => self@.relationship == Option::Some(x@),
                Option::None => self@.relationship is None,
            },
    {
        match &self.relationship {
            Option::Some(x) => Option::Some(x),
            Option::None => Option::None,
        }
    }

    /// Replaces the related account reference.
    pub fn set_account(&mut self, account: Reference)
        ensures
            final(self)@ == (AccountRelatedAccountV { account: account@, ..old(self)@ }),
    {
        self.account = account;
    }

    /// Replaces the relationship.
    pub fn set_relationship(&mut self, relationship: Option<CodeableConcept>)
        ensures
            final(self)@ == (AccountRelatedAccountV { relationship: match relationship {
                Option::Some(ref x) => Option::Some(x@),
                Option::None => Option::None,
            }, ..old(self)@ }),
    {
        self.relationship = relationship;
    }

    /// Encodes the value as an object in fixed field order, omitting
    /// absent optional fields.
    pub fn encode(&self) -> (r: Json)
        ensures
            r@ == spec_encode_account_related_account(self@),
    {
        broadcast use group_json_views;

        let mut entries: Vec<(String, Json)> = Vec::new();
        proof {
            assert(entries_view(entries@) =~= Seq::<(Seq<char>, JsonV)>::empty());
        }
        match &self.relationship {
            Option::Some(x) => put_json(&mut entries, "relationship", x.encode()),
            Option::None => (),
        };
        put_json(&mut entries, "account", self.account.encode());
        let r = Json::Obj(entries);
        proof {
            assert(r@->Obj_0 =~= spec_encode_account_related_account(self@)->Obj_0);
        }
        r
    }

    /// Decodes a value from an object, treating a missing key as an
    /// absent optional field; fails on any other shape.
    pub fn decode(j: &Json) -> (r: Result<AccountRelatedAccount, DecodeError>)
        ensures
            match r {
                Ok(x) => spec_decode_account_related_account(j@) == Ok::<AccountRelatedAccountV, DecodeError>(x@),
                Err(e) => spec_decode_account_related_account(j@) == Err::<AccountRelatedAccountV, DecodeError>(e),
            },
    {
        match j {
            Json::Obj(entries) => {
                proof {
                    assert(j@->Obj_0 =~= entries_view(entries@));
                }
                let relationship = match take_opt_codeable_concept(entries, "relationship") {
                    Ok(v) => v,
                    Err(e) => return Err(e),
                };
                let account = match take_req_reference(entries, "account") {
                    Ok(v) => v,
                    Err(e) => return Err(e),
                };
                Ok(AccountRelatedAccount { relationship, account })
            },
            _ => Err(DecodeError::TypeMismatch),
        }
    }
}

/// The encoded form of an `AccountRelatedAccount` value: its fields in declaration order, each
/// optional field present exactly when set.
pub open spec fn spec_encode_account_related_account(v: AccountRelatedAccountV) -> JsonV {
    let o = Seq::<(Seq<char>, JsonV)>::empty();
    let o = if v.relationship is Some {
        o.push((("relationship")@, spec_encode_codeable_concept(v.relationship->Some_0)))
    } else {
        o
    };
    let o = o.push((("account")@, spec_encode_reference(v.account)));
    JsonV::Obj(o)
}

/// The decoded reading of an `AccountRelatedAccount` value.
pub open spec fn spec_decode_account_related_account(j: JsonV) -> Result<AccountRelatedAccountV, DecodeError> {
    match j {
        JsonV::Obj(o) => match spec_opt_codeable_concept(o, ("relationship")@) {
            Ok(relationship) => match spec_req_reference(o, ("account")@) {
                Ok(account) => Ok(AccountRelatedAccountV { relationship, account }),
                Err(e) => Err(e),
            },
            Err(e) => Err(e),
        },
        _ => Err(DecodeError::TypeMismatch),
    }
}

/// Decoding an encoded AccountRelatedAccount yields the value back.
pub proof fn lemma_account_related_account_round_trip(v: AccountRelatedAccountV)
    ensures
        spec_decode_account_related_account(spec_encode_account_related_account(v)) == Ok::<AccountRelatedAccountV, DecodeError>(v),
{
    broadcast use group_json_views;

    reveal_strlit("relationship");
    reveal_strlit("account");
    assert(("relationship")@.len() == 12);
    assert(("account")@.len() == 7);
    if v.relationship is Some {
        lemma_codeable_concept_round_trip(v.relationship->Some_0);
    }
    lemma_reference_round_trip(v.account);
    let o = spec_encode_account_related_account(v)->Obj_0;
    assert(lookup(o, ("relationship")@) == (if v.relationship is Some {
            Option::Some(spec_encode_codeable_concept(v.relationship->Some_0))
        } else {
            Option::None
        }));
    assert(lookup(o, ("account")@) == Option::Some(spec_encode_reference(v.account)));
}

/// The encoded form of a sequence of `AccountRelatedAccount` values, in order.
pub open spec fn spec_encode_account_related_account_all(vs: Seq<AccountRelatedAccountV>) -> Seq<JsonV>
    decreases vs,
{
    if vs.len() == 0 {
        Seq::empty()
    } else {
        spec_encode_account_related_account_all(vs.drop_last()).push(spec_encode_account_related_account(vs.last()))
    }
}

/// The decoded reading of an array of `AccountRelatedAccount` values: all elements must
/// decode, and the first offending element decides the error.
pub open spec fn spec_decode_account_related_account_all(a: Seq<JsonV>) -> Result<Seq<AccountRelatedAccountV>, DecodeError>
    decreases a,
{
    if a.len() == 0 {
        Ok(Seq::empty())
    } else {
        match spec_decode_account_related_account_all(a.drop_last()) {
            Ok(rest) => match spec_decode_account_related_account(a.last()) {
                Ok(x) => Ok(rest.push(x)),
                Err(e) => Err(e),
            },
            Err(e) => Err(e),
        }
    }
}

/// Decoding an encoded sequence of `AccountRelatedAccount` values yields the sequence back.
pub proof fn lemma_account_related_account_all_round_trip(vs: Seq<AccountRelatedAccountV>)
    ensures
        spec_decode_account_related_account_all(spec_encode_account_related_account_all(vs)) == Ok::<Seq<AccountRelatedAccountV>, DecodeError>(vs),
    decreases vs,
{
    if vs.len() > 0 {
        lemma_account_related_account_all_round_trip(vs.drop_last());
        lemma_account_related_account_round_trip(vs.last());
        let a = spec_encode_account_related_account_all(vs);
        assert(a.drop_last() =~= spec_encode_account_related_account_all(vs.drop_last()));
        assert(vs.drop_last().push(vs.last()) =~= vs);
    } else {
        assert(vs =~= Seq::<AccountRelatedAccountV>::empty());
    }
}

/// When a prefix of the array decodes and the element after it does not,
/// the whole array fails with that element's error.
proof fn lemma_account_related_account_all_error_at(a: Seq<JsonV>, i: int)
    requires
        0 <= i < a.len(),
        spec_decode_account_related_account_all(a.subrange(0, i)) is Ok,
        spec_decode_account_related_account(a[i]) is Err,
    ensures
        spec_decode_account_related_account_all(a) == Err::<Seq<AccountRelatedAccountV>, DecodeError>(spec_decode_account_related_account(a[i])->Err_0),
    decreases a,
{
    if i < a.len() - 1 {
        assert(a.drop_last().subrange(0, i) =~= a.subrange(0, i));
        lemma_account_related_account_all_error_at(a.drop_last(), i);
    } else {
        assert(a.drop_last() =~= a.subrange(0, i));
    }
}

/// Encodes a vector of `AccountRelatedAccount` values as a JSON array.
#[verifier::loop_isolation(false)]
pub fn encode_account_related_account_arr(v: &Vec<AccountRelatedAccount>) -> (r: Json)
    ensures
        r@ == JsonV::Arr(spec_encode_account_related_account_all(seq_views(v@))),
{
    broadcast use group_json_views;

    let ghost vs = seq_views(v@);
    let mut a: Vec<Json> = Vec::new();
    let n = v.len();
    let mut i: usize = 0;
    proof {
        assert(vs.subrange(0, 0) =~= Seq::<AccountRelatedAccountV>::empty());
    }
    while i < n
        invariant
            i <= n,
            n == v@.len(),
            vs == seq_views(v@),
            arr_view(a@) =~= spec_encode_account_related_account_all(vs.subrange(0, i as int)),
        decreases n - i,
    {
        a.push(v[i].encode());
        proof {
            assert(vs.subrange(0, i as int + 1).drop_last() =~= vs.subrange(0, i as int));
            assert(arr_view(a@) =~= spec_encode_account_related_account_all(vs.subrange(0, i as int + 1)));
        }
        i = i + 1;
    }
    proof {
        assert(vs.subrange(0, n as int) =~= vs);
        assert(Json::Arr(a)@->Arr_0 =~= arr_view(a@));
    }
    Json::Arr(a)
}

/// Decodes a JSON array into a vector of `AccountRelatedAccount` values.
#[verifier::loop_isolation(false)]
pub fn decode_account_related_account_arr(a: &Vec<Json>) -> (r: Result<Vec<AccountRelatedAccount>, DecodeError>)
    ensures
        match r {
            Ok(v) => spec_decode_account_related_account_all(arr_view(a@)) == Ok::<_, DecodeError>(seq_views(v@)),
            Err(e) => spec_decode_account_related_account_all(arr_view(a@)) == Err::<Seq<AccountRelatedAccountV>, DecodeError>(e),
        },
{
    broadcast use group_json_views;

    let ghost full = arr_view(a@);
    let n = a.len();
    let mut out: Vec<AccountRelatedAccount> = Vec::new();
    let mut i: usize = 0;
    proof {
        assert(full.subrange(0, 0) =~= Seq::<JsonV>::empty());
        assert(seq_views(out@) =~= Seq::<AccountRelatedAccountV>::empty());
    }
    while i < n
        invariant
            i <= n,
            n == a@.len(),
            full == arr_view(a@),
            out@.len() == i,
            spec_decode_account_related_account_all(full.subrange(0, i as int)) == Ok::<_, DecodeError>(
                seq_views(out@),
            ),
        decreases n - i,
    {
        let ji = &a[i];
        proof {
            assert(ji@ == full[i as int]);
        }
        match AccountRelatedAccount::decode(ji) {
            Ok(x) => {
                out.push(x);
                proof {
                    assert(full.subrange(0, i as int + 1).drop_last() =~= full.subrange(
                        0,
                        i as int,
                    ));
                    assert(spec_decode_account_related_account_all(full.subrange(0, i as int + 1)) == Ok::<
                        _,
                        DecodeError,
                    >(seq_views(out@)));
                }
            },
            Err(e) => {
                proof {
                    lemma_account_related_account_all_error_at(full, i as int);
                }
                return Err(e);
            },
        }
        i = i + 1;
    }
    proof {
        assert(full.subrange(0, n as int) =~= full);
    }
    Ok(out)
}

} // verus!
