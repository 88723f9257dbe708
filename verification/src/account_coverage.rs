//! The coverage entries of an account.
use crate::json::{DecodeError, Json, JsonV, arr_view, entries_view, group_json_views, lookup, put_json, put_opt_str, seq_views, spec_opt_str, take_opt_str};
use crate::data_types::reference::{Reference, ReferenceV, lemma_reference_round_trip, spec_encode_reference, spec_req_reference, take_req_reference};
use vstd::prelude::*;

verus! {

/// A coverage entry of an account, with an optional priority.
#[derive(Debug, Clone, PartialEq)]
pub struct AccountCoverage {
    coverage: Reference,
    priority: Option<String>,
}

/// The mathematical shape of an `AccountCoverage` value.
pub struct AccountCoverageV {
    pub coverage: ReferenceV,
    pub priority: Option<Seq<char>>,
}

impl View for AccountCoverage {
    type V = AccountCoverageV;

    closed spec fn view(&self) -> AccountCoverageV {
        AccountCoverageV {
            coverage: self.coverage@,
            priority: match self.priority {
                Option::Some(ref s) => Option::Some(s@),
                Option::None => Option::None,
            },
        }
    }
}

impl AccountCoverage {
    /// A coverage entry with no priority.
    pub fn new(coverage: Reference) -> (r: AccountCoverage)
        ensures
            r@ == (AccountCoverageV {
                coverage: coverage@,
                priority: Option::None,
            }),
    {
        let r = AccountCoverage {
            coverage: coverage,
            priority: Option::None,
        };
        r
    }

    /// A coverage entry with its priority set.
    pub fn with_priority(coverage: Reference, priority: String) -> (r: AccountCoverage)
        ensures
            r@ == (AccountCoverageV {
                coverage: coverage@,
                priority: Option::Some(priority@),
            }),
    {
        let r = AccountCoverage {
            coverage: coverage,
            priority: Option::Some(priority),
        };
        r
    }

    /// The coverage reference.
    pub fn coverage(&self) -> (r: &Reference)
        ensures
            r@ == self@.coverage,
    {
        &self.coverage
    }

    /// The priority, when set.
    pub fn priority(&self) -> (r: Option<&str>)
        ensures
            match r {
                Option::Some(s) => self@.priority == Option::Some(s@),
                Option::None => self@.priority is None,
            },
    {
        match &self.priority {
            Option::Some(s) => Option::Some(s.as_str()),
            Option::None => Option::None,
        }
    }

    /// Replaces the coverage reference.
    pub fn set_coverage(&mut self, coverage: Reference)
        ensures
            final(self)@ == (AccountCoverageV { coverage: coverage@, ..old(self)@ }),
    {
        self.coverage = coverage;
    }

    /// Replaces the priority.
    pub fn set_priority(&mut self, priority: Option<String>)
        ensures
            final(self)@ == (AccountCoverageV { priority: match priority {
                Option::Some(ref s) => Option::Some(s@),
                Option::None => Option::None,
            }, ..old(self)@ }),
    {
        self.priority = priority;
    }

    /// Encodes the value as an object in fixed field order, omitting
    /// absent optional fields.
    pub fn encode(&self) -> (r: Json)
        ensures
            r@ == spec_encode_account_coverage(self@),
    {
        broadcast use group_json_views;

        let mut entries: Vec<(String, Json)> = Vec::new();
        proof {
            assert(entries_view(entries@) =~= Seq::<(Seq<char>, JsonV)>::empty());
        }
        put_json(&mut entries, "coverage", self.coverage.encode());
        put_opt_str(&mut entries, "priority", &self.priority);
        let r = Json::Obj(entries);
        proof {
            assert(r@->Obj_0 =~= spec_encode_account_coverage(self@)->Obj_0);
        }
        r
    }

    /// Decodes a value from an object, treating a missing key as an
    /// absent optional field; fails on any other shape.
    pub fn decode(j: &Json) -> (r: Result<AccountCoverage, DecodeError>)
        ensures
            match r {
                Ok(x) => spec_decode_account_coverage(j@) == Ok::<AccountCoverageV, DecodeError>(x@),
                Err(e) => spec_decode_account_coverage(j@) == Err::<AccountCoverageV, DecodeError>(e),
            },
    {
        match j {
            Json::Obj(entries) => {
                proof {
                    assert(j@->Obj_0 =~= entries_view(entries@));
                }
                let coverage = match take_req_reference(entries, "coverage") {
                    Ok(v) => v,
                    Err(e) => return Err(e),
                };
                let priority = match take_opt_str(entries, "priority") {
                    Ok(v) => v,
                    Err(e) => return Err(e),
                };
                Ok(AccountCoverage { coverage, priority })
            },
            _ => Err(DecodeError::TypeMismatch),
        }
    }
}

/// The encoded form of an `AccountCoverage` value: its fields in declaration order, each
/// optional field present exactly when set.
pub open spec fn spec_encode_account_coverage(v: AccountCoverageV) -> JsonV {
    let o = Seq::<(Seq<char>, JsonV)>::empty();
    let o = o.push((("coverage")@, spec_encode_reference(v.coverage)));
    let o = if v.priority is Some {
        o.push((("priority")@, JsonV::Str(v.priority->Some_0)))
    } else {
        o
    };
    JsonV::Obj(o)
}

/// The decoded reading of an `AccountCoverage` value.
pub open spec fn spec_decode_account_coverage(j: JsonV) -> Result<AccountCoverageV, DecodeError> {
    match j {
        JsonV::Obj(o) => match spec_req_reference(o, ("coverage")@) {
            Ok(coverage) => match spec_opt_str(o, ("priority")@) {
                Ok(priority) => Ok(AccountCoverageV { coverage, priority }),
                Err(e) => Err(e),
            },
            Err(e) => Err(e),
        },
        _ => Err(DecodeError::TypeMismatch),
    }
}

/// Decoding an encoded AccountCoverage yields the value back.
pub proof fn lemma_account_coverage_round_trip(v: AccountCoverageV)
    ensures
        spec_decode_account_coverage(spec_encode_account_coverage(v)) == Ok::<AccountCoverageV, DecodeError>(v),
{
    broadcast use group_json_views;

    reveal_strlit("coverage");
    reveal_strlit("priority");
    assert(("coverage")@.len() == 8);
    assert(("priority")@.len() == 8);
    assert(("coverage")@[0] != ("priority")@[0]);
    lemma_reference_round_trip(v.coverage);
    let o = spec_encode_account_coverage(v)->Obj_0;
    assert(lookup(o, ("coverage")@) == Option::Some(spec_encode_reference(v.coverage)));
    assert(lookup(o, ("priority")@) == (if v.priority is Some {
            Option::Some(JsonV::Str(v.priority->Some_0))
        } else {
            Option::None
        }));
}

/// The encoded form of a sequence of `AccountCoverage` values, in order.
pub open spec fn spec_encode_account_coverage_all(vs: Seq<AccountCoverageV>) -> Seq<JsonV>
    decreases vs,
{
    if vs.len() == 0 {
        Seq::empty()
    } else {
        spec_encode_account_coverage_all(vs.drop_last()).push(spec_encode_account_coverage(vs.last()))
    }
}

/// The decoded reading of an array of `AccountCoverage` values: all elements must
/// decode, and the first offending element decides the error.
pub open spec fn spec_decode_account_coverage_all(a: Seq<JsonV>) -> Result<Seq<AccountCoverageV>, DecodeError>
    decreases a,
{
    if a.len() == 0 {
        Ok(Seq::empty())
    } else {
        match spec_decode_account_coverage_all(a.drop_last()) {
            Ok(rest) => match spec_decode_account_coverage(a.last()) {
                Ok(x) => Ok(rest.push(x)),
                Err(e) => Err(e),
            },
            Err(e) => Err(e),
        }
    }
}

/// Decoding an encoded sequence of `AccountCoverage` values yields the sequence back.
pub proof fn lemma_account_coverage_all_round_trip(vs: Seq<AccountCoverageV>)
    ensures
        spec_decode_account_coverage_all(spec_encode_account_coverage_all(vs)) == Ok::<Seq<AccountCoverageV>, DecodeError>(vs),
    decreases vs,
{
    if vs.len() > 0 {
        lemma_account_coverage_all_round_trip(vs.drop_last());
        lemma_account_coverage_round_trip(vs.last());
        let a = spec_encode_account_coverage_all(vs);
        assert(a.drop_last() =~= spec_encode_account_coverage_all(vs.drop_last()));
        assert(vs.drop_last().push(vs.last()) =~= vs);
    } else {
        assert(vs =~= Seq::<AccountCoverageV>::empty());
    }
}

/// When a prefix of the array decodes and the element after it does not,
/// the whole array fails with that element's error.
proof fn lemma_account_coverage_all_error_at(a: Seq<JsonV>, i: int)
    requires
        0 <= i < a.len(),
        spec_decode_account_coverage_all(a.subrange(0, i)) is Ok,
        spec_decode_account_coverage(a[i]) is Err,
    ensures
        spec_decode_account_coverage_all(a) == Err::<Seq<AccountCoverageV>, DecodeError>(spec_decode_account_coverage(a[i])->Err_0),
    decreases a,
{
    if i < a.len() - 1 {
        assert(a.drop_last().subrange(0, i) =~= a.subrange(0, i));
        lemma_account_coverage_all_error_at(a.drop_last(), i);
    } else {
        assert(a.drop_last() =~= a.subrange(0, i));
    }
}

/// Encodes a vector of `AccountCoverage` values as a JSON array.
#[verifier::loop_isolation(false)]
pub fn encode_account_coverage_arr(v: &Vec<AccountCoverage>) -> (r: Json)
    ensures
        r@ == JsonV::Arr(spec_encode_account_coverage_all(seq_views(v@))),
{
    broadcast use group_json_views;

    let ghost vs = seq_views(v@);
    let mut a: Vec<Json> = Vec::new();
    let n = v.len();
    let mut i: usize = 0;
    proof {
        assert(vs.subrange(0, 0) =~= Seq::<AccountCoverageV>::empty());
    }
    while i < n
        invariant
            i <= n,
            n == v@.len(),
            vs == seq_views(v@),
            arr_view(a@) =~= spec_encode_account_coverage_all(vs.subrange(0, i as int)),
        decreases n - i,
    {
        a.push(v[i].encode());
        proof {
            assert(vs.subrange(0, i as int + 1).drop_last() =~= vs.subrange(0, i as int));
            assert(arr_view(a@) =~= spec_encode_account_coverage_all(vs.subrange(0, i as int + 1)));
        }
        i = i + 1;
    }
    proof {
        assert(vs.subrange(0, n as int) =~= vs);
        assert(Json::Arr(a)@->Arr_0 =~= arr_view(a@));
    }
    Json::Arr(a)
}

/// Decodes a JSON array into a vector of `AccountCoverage` values.
#[verifier::loop_isolation(false)]
pub fn decode_account_coverage_arr(a: &Vec<Json>) -> (r: Result<Vec<AccountCoverage>, DecodeError>)
    ensures
        match r {
            Ok(v) => spec_decode_account_coverage_all(arr_view(a@)) == Ok::<_, DecodeError>(seq_views(v@)),
            Err(e) => spec_decode_account_coverage_all(arr_view(a@)) == Err::<Seq<AccountCoverageV>, DecodeError>(e),
        },
{
    broadcast use group_json_views;

    let ghost full = arr_view(a@);
    let n = a.len();
    let mut out: Vec<AccountCoverage> = Vec::new();
    let mut i: usize = 0;
    proof {
        assert(full.subrange(0, 0) =~= Seq::<JsonV>::empty());
        assert(seq_views(out@) =~= Seq::<AccountCoverageV>::empty());
    }
    while i < n
        invariant
            i <= n,
            n == a@.len(),
            full == arr_view(a@),
            out@.len() == i,
            spec_decode_account_coverage_all(full.subrange(0, i as int)) == Ok::<_, DecodeError>(
                seq_views(out@),
            ),
        decreases n - i,
    {
        let ji = &a[i];
        proof {
            assert(ji@ == full[i as int]);
        }
        match AccountCoverage::decode(ji) {
            Ok(x) => {
                out.push(x);
                proof {
                    assert(full.subrange(0, i as int + 1).drop_last() =~= full.subrange(
                        0,
                        i as int,
                    ));
                    assert(spec_decode_account_coverage_all(full.subrange(0, i as int + 1)) == Ok::<
                        _,
                        DecodeError,
                    >(seq_views(out@)));
                }
            },
            Err(e) => {
                proof {
                    lemma_account_coverage_all_error_at(full, i as int);
                }
                return Err(e);
            },
        }
        i = i + 1;
    }
    proof {
        assert(full.subrange(0, n as int) =~= full);
    }
    Ok(out)
}

} // verus!
