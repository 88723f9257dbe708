//! The `ContactPoint` composite: a way to reach a party.
use crate::json::{DecodeError, Json, JsonV, arr_view, entries_view, group_json_views, lookup, put_opt_i32, put_opt_str, put_str, seq_views, spec_opt_i32, spec_opt_str, spec_req_str, take_opt_i32, take_opt_str, take_req_str};
use vstd::prelude::*;

verus! {

/// A contact detail: a system such as phone or email, and a value.
#[derive(Debug, Clone, PartialEq)]
pub struct ContactPoint {
    system: String,
    value: String,
    use_value: Option<String>,
    rank: Option<i32>,
    period: Option<String>,
}

/// The mathematical shape of a `ContactPoint` value.
pub struct ContactPointV {
    pub system: Seq<char>,
    pub value: Seq<char>,
    pub use_value: Option<Seq<char>>,
    pub rank: Option<i32>,
    pub period: Option<Seq<char>>,
}

impl View for ContactPoint {
    type V = ContactPointV;

    closed spec fn view(&self) -> ContactPointV {
        ContactPointV {
            system: self.system@,
            value: self.value@,
            use_value: match self.use_value {
                Option::Some(ref s) => Option::Some(s@),
                Option::None => Option::None,
            },
            rank: self.rank,
            period: match self.period {
                Option::Some(ref s) => Option::Some(s@),
                Option::None => Option::None,
            },
        }
    }
}

impl ContactPoint {
    /// A contact point with the required system and value.
    pub fn new(system: String, value: String) -> (r: ContactPoint)
        ensures
            r@ == (ContactPointV {
                system: system@,
                value: value@,
                use_value: Option::None,
                rank: Option::None,
                period: Option::None,
            }),
    {
        let r = ContactPoint {
            system: system,
            value: value,
            use_value: Option::None,
            rank: Option::None,
            period: Option::None,
        };
        r
    }

    /// A contact point with every field given.
    pub fn new_with_details(system: String, value: String, use_value: Option<String>, rank: Option<i32>, period: Option<String>) -> (r: ContactPoint)
        ensures
            r@ == (ContactPointV {
                system: system@,
                value: value@,
                use_value: match use_value {
                Option::Some(ref s) => Option::Some(s@),
                Option::None => Option::None,
            },
                rank: rank,
                period: match period {
                Option::Some(ref s) => Option::Some(s@),
                Option::None => Option::None,
            },
            }),
    {
        let r = ContactPoint {
            system: system,
            value: value,
            use_value: use_value,
            rank: rank,
            period: period,
        };
        r
    }

    /// The contact system.
    pub fn system(&self) -> (r: &str)
        ensures
            r@ == self@.system,
    {
        self.system.as_str()
    }

    /// The contact value.
    pub fn value(&self) -> (r: &str)
        ensures
            r@ == self@.value,
    {
        self.value.as_str()
    }

    /// The use, when set.
    pub fn use_value(&self) -> (r: Option<&str>)
        ensures
            match r {
                Option::Some(s) => self@.use_value == Option::Some(s@),
                Option::None => self@.use_value is None,
            },
    {
        match &self.use_value {
            Option::Some(s) => Option::Some(s.as_str()),
            Option::None => Option::None,
        }
    }

    /// The rank, when set.
    pub fn rank(&self) -> (r: Option<i32>)
        ensures
            r == self@.rank,
    {
        self.rank
    }

    /// The period, when set.
    pub fn period(&self) -> (r: Option<&str>)
        ensures
            match r {
                Option::Some(s) => self@.period == Option::Some(s@),
                Option::None => self@.period is None,
            },
    {
        match &self.period {
            Option::Some(s) => Option::Some(s.as_str()),
            Option::None => Option::None,
        }
    }

    /// Replaces the contact system.
    pub fn set_system(&mut self, system: String)
        ensures
            final(self)@ == (ContactPointV { system: system@, ..old(self)@ }),
    {
        self.system = system;
    }

    /// Replaces the contact value.
    pub fn set_value(&mut self, value: String)
        ensures
            final(self)@ == (ContactPointV { value: value@, ..old(self)@ }),
    {
        self.value = value;
    }

    /// Replaces the use.
    pub fn set_use(&mut self, use_value: Option<String>)
        ensures
            final(self)@ == (ContactPointV { use_value: match use_value {
                Option::Some(ref s) => Option::Some(s@),
                Option::None => Option::None,
            }, ..old(self)@ }),
    {
        self.use_value = use_value;
    }

    /// Replaces the rank.
    pub fn set_rank(&mut self, rank: Option<i32>)
        ensures
            final(self)@ == (ContactPointV { rank: rank, ..old(self)@ }),
    {
        self.rank = rank;
    }

    /// Replaces the period.
    pub fn set_period(&mut self, period: Option<String>)
        ensures
            final(self)@ == (ContactPointV { period: match period {
                Option::Some(ref s) => Option::Some(s@),
                Option::None => Option::None,
            }, ..old(self)@ }),
    {
        self.period = period;
    }

    /// Encodes the value as an object in fixed field order, omitting
    /// absent optional fields.
    pub fn encode(&self) -> (r: Json)
        ensures
            r@ == spec_encode_contact_point(self@),
    {
        broadcast use group_json_views;

        let mut entries: Vec<(String, Json)> = Vec::new();
        proof {
            assert(entries_view(entries@) =~= Seq::<(Seq<char>, JsonV)>::empty());
        }
        put_str(&mut entries, "system", self.system.as_str());
        put_str(&mut entries, "value", self.value.as_str());
        put_opt_str(&mut entries, "use", &self.use_value);
        put_opt_i32(&mut entries, "rank", &self.rank);
        put_opt_str(&mut entries, "period", &self.period);
        let r = Json::Obj(entries);
        proof {
            assert(r@->Obj_0 =~= spec_encode_contact_point(self@)->Obj_0);
        }
        r
    }

    /// Decodes a value from an object, treating a missing key as an
    /// absent optional field; fails on any other shape.
    pub fn decode(j: &Json) -> (r: Result<ContactPoint, DecodeError>)
        ensures
            match r {
                Ok(x) => spec_decode_contact_point(j@) == Ok::<ContactPointV, DecodeError>(x@),
                Err(e) => spec_decode_contact_point(j@) == Err::<ContactPointV, DecodeError>(e),
            },
    {
        match j {
            Json::Obj(entries) => {
                proof {
                    assert(j@->Obj_0 =~= entries_view(entries@));
                }
                let system = match take_req_str(entries, "system") {
                    Ok(v) => v,
                    Err(e) => return Err(e),
                };
                let value = match take_req_str(entries, "value") {
                    Ok(v) => v,
                    Err(e) => return Err(e),
                };
                let use_value = match take_opt_str(entries, "use") {
                    Ok(v) => v,
                    Err(e) => return Err(e),
                };
                let rank = match take_opt_i32(entries, "rank") {
                    Ok(v) => v,
                    Err(e) => return Err(e),
                };
                let period = match take_opt_str(entries, "period") {
                    Ok(v) => v,
                    Err(e) => return Err(e),
                };
                Ok(ContactPoint { system, value, use_value, rank, period })
            },
            _ => Err(DecodeError::TypeMismatch),
        }
    }
}

/// The encoded form of a `ContactPoint` value: its fields in declaration order, each
/// optional field present exactly when set.
pub open spec fn spec_encode_contact_point(v: ContactPointV) -> JsonV {
    let o = Seq::<(Seq<char>, JsonV)>::empty();
    let o = o.push((("system")@, JsonV::Str(v.system)));
    let o = o.push((("value")@, JsonV::Str(v.value)));
    let o = if v.use_value is Some {
        o.push((("use")@, JsonV::Str(v.use_value->Some_0)))
    } else {
        o
    };
    let o = if v.rank is Some {
        o.push((("rank")@, JsonV::Int(v.rank->Some_0 as int)))
    } else {
        o
    };
    let o = if v.period is Some {
        o.push((("period")@, JsonV::Str(v.period->Some_0)))
    } else {
        o
    };
    JsonV::Obj(o)
}

/// The decoded reading of a `ContactPoint` value.
pub open spec fn spec_decode_contact_point(j: JsonV) -> Result<ContactPointV, DecodeError> {
    match j {
        JsonV::Obj(o) => match spec_req_str(o, ("system")@) {
            Ok(system) => match spec_req_str(o, ("value")@) {
                Ok(value) => match spec_opt_str(o, ("use")@) {
                    Ok(use_value) => match spec_opt_i32(o, ("rank")@) {
                        Ok(rank) => match spec_opt_str(o, ("period")@) {
                            Ok(period) => Ok(ContactPointV { system, value, use_value, rank, period }),
                            Err(e) => Err(e),
                        },
                        Err(e) => Err(e),
                    },
                    Err(e) => Err(e),
                },
                Err(e) => Err(e),
            },
            Err(e) => Err(e),
        },
        _ => Err(DecodeError::TypeMismatch),
    }
}

/// Decoding an encoded ContactPoint yields the value back.
pub proof fn lemma_contact_point_round_trip(v: ContactPointV)
    ensures
        spec_decode_contact_point(spec_encode_contact_point(v)) == Ok::<ContactPointV, DecodeError>(v),
{
    broadcast use group_json_views;

    reveal_strlit("system");
    reveal_strlit("value");
    reveal_strlit("use");
    reveal_strlit("rank");
    reveal_strlit("period");
    assert(("system")@.len() == 6);
    assert(("value")@.len() == 5);
    assert(("use")@.len() == 3);
    assert(("rank")@.len() == 4);
    assert(("period")@.len() == 6);
    assert(("system")@[0] != ("period")@[0]);
    let o = spec_encode_contact_point(v)->Obj_0;
    assert(lookup(o, ("system")@) == Option::Some(JsonV::Str(v.system)));
    assert(lookup(o, ("value")@) == Option::Some(JsonV::Str(v.value)));
    assert(lookup(o, ("use")@) == (if v.use_value is Some {
            Option::Some(JsonV::Str(v.use_value->Some_0))
        } else {
            Option::None
        }));
    assert(lookup(o, ("rank")@) == (if v.rank is Some {
            Option::Some(JsonV::Int(v.rank->Some_0 as int))
        } else {
            Option::None
        }));
    assert(lookup(o, ("period")@) == (if v.period is Some {
            Option::Some(JsonV::Str(v.period->Some_0))
        } else {
            Option::None
        }));
}

/// The encoded form of a sequence of `ContactPoint` values, in order.
pub open spec fn spec_encode_contact_point_all(vs: Seq<ContactPointV>) -> Seq<JsonV>
    decreases vs,
{
    if vs.len() == 0 {
        Seq::empty()
    } else {
        spec_encode_contact_point_all(vs.drop_last()).push(spec_encode_contact_point(vs.last()))
    }
}

/// The decoded reading of an array of `ContactPoint` values: all elements must
/// decode, and the first offending element decides the error.
pub open spec fn spec_decode_contact_point_all(a: Seq<JsonV>) -> Result<Seq<ContactPointV>, DecodeError>
    decreases a,
{
    if a.len() == 0 {
        Ok(Seq::empty())
    } else {
        match spec_decode_contact_point_all(a.drop_last()) {
            Ok(rest) => match spec_decode_contact_point(a.last()) {
                Ok(x) => Ok(rest.push(x)),
                Err(e) => Err(e),
            },
            Err(e) => Err(e),
        }
    }
}

/// Decoding an encoded sequence of `ContactPoint` values yields the sequence back.
pub proof fn lemma_contact_point_all_round_trip(vs: Seq<ContactPointV>)
    ensures
        spec_decode_contact_point_all(spec_encode_contact_point_all(vs)) == Ok::<Seq<ContactPointV>, DecodeError>(vs),
    decreases vs,
{
    if vs.len() > 0 {
        lemma_contact_point_all_round_trip(vs.drop_last());
        lemma_contact_point_round_trip(vs.last());
        let a = spec_encode_contact_point_all(vs);
        assert(a.drop_last() =~= spec_encode_contact_point_all(vs.drop_last()));
        assert(vs.drop_last().push(vs.last()) =~= vs);
    } else {
        assert(vs =~= Seq::<ContactPointV>::empty());
    }
}

/// When a prefix of the array decodes and the element after it does not,
/// the whole array fails with that element's error.
proof fn lemma_contact_point_all_error_at(a: Seq<JsonV>, i: int)
    requires
        0 <= i < a.len(),
        spec_decode_contact_point_all(a.subrange(0, i)) is Ok,
        spec_decode_contact_point(a[i]) is Err,
    ensures
        spec_decode_contact_point_all(a) == Err::<Seq<ContactPointV>, DecodeError>(spec_decode_contact_point(a[i])->Err_0),
    decreases a,
{
    if i < a.len() - 1 {
        assert(a.drop_last().subrange(0, i) =~= a.subrange(0, i));
        lemma_contact_point_all_error_at(a.drop_last(), i);
    } else {
        assert(a.drop_last() =~= a.subrange(0, i));
    }
}

/// Encodes a vector of `ContactPoint` values as a JSON array.
#[verifier::loop_isolation(false)]
pub fn encode_contact_point_arr(v: &Vec<ContactPoint>) -> (r: Json)
    ensures
        r@ == JsonV::Arr(spec_encode_contact_point_all(seq_views(v@))),
{
    broadcast use group_json_views;

    let ghost vs = seq_views(v@);
    let mut a: Vec<Json> = Vec::new();
    let n = v.len();
    let mut i: usize = 0;
    proof {
        assert(vs.subrange(0, 0) =~= Seq::<ContactPointV>::empty());
    }
    while i < n
        invariant
            i <= n,
            n == v@.len(),
            vs == seq_views(v@),
            arr_view(a@) =~= spec_encode_contact_point_all(vs.subrange(0, i as int)),
        decreases n - i,
    {
        a.push(v[i].encode());
        proof {
            assert(vs.subrange(0, i as int + 1).drop_last() =~= vs.subrange(0, i as int));
            assert(arr_view(a@) =~= spec_encode_contact_point_all(vs.subrange(0, i as int + 1)));
        }
        i = i + 1;
    }
    proof {
        assert(vs.subrange(0, n as int) =~= vs);
        assert(Json::Arr(a)@->Arr_0 =~= arr_view(a@));
    }
    Json::Arr(a)
}

/// Decodes a JSON array into a vector of `ContactPoint` values.
#[verifier::loop_isolation(false)]
pub fn decode_contact_point_arr(a: &Vec<Json>) -> (r: Result<Vec<ContactPoint>, DecodeError>)
    ensures
        match r {
            Ok(v) => spec_decode_contact_point_all(arr_view(a@)) == Ok::<_, DecodeError>(seq_views(v@)),
            Err(e) => spec_decode_contact_point_all(arr_view(a@)) == Err::<Seq<ContactPointV>, DecodeError>(e),
        },
{
    broadcast use group_json_views;

    let ghost full = arr_view(a@);
    let n = a.len();
    let mut out: Vec<ContactPoint> = Vec::new();
    let mut i: usize = 0;
    proof {
        assert(full.subrange(0, 0) =~= Seq::<JsonV>::empty());
        assert(seq_views(out@) =~= Seq::<ContactPointV>::empty());
    }
    while i < n
        invariant
            i <= n,
            n == a@.len(),
            full == arr_view(a@),
            out@.len() == i,
            spec_decode_contact_point_all(full.subrange(0, i as int)) == Ok::<_, DecodeError>(
                seq_views(out@),
            ),
        decreases n - i,
    {
        let ji = &a[i];
        proof {
            assert(ji@ == full[i as int]);
        }
        match ContactPoint::decode(ji) {
            Ok(x) => {
                out.push(x);
                proof {
                    assert(full.subrange(0, i as int + 1).drop_last() =~= full.subrange(
                        0,
                        i as int,
                    ));
                    assert(spec_decode_contact_point_all(full.subrange(0, i as int + 1)) == Ok::<
                        _,
                        DecodeError,
                    >(seq_views(out@)));
                }
            },
            Err(e) => {
                proof {
                    lemma_contact_point_all_error_at(full, i as int);
                }
                return Err(e);
            },
        }
        i = i + 1;
    }
    proof {
        assert(full.subrange(0, n as int) =~= full);
    }
    Ok(out)
}

} // verus!
