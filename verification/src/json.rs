//! The structured representation that resources encode to and decode
//! from: a JSON-shaped tree of objects, arrays, strings, numbers and
//! booleans, with ordered object entries.
use crate::money::{Decimal, DecimalV};
use vstd::prelude::*;

verus! {

/// A JSON-shaped value. Object entries keep their order, so encoding is
/// deterministic; integers and decimals are held exactly.
#[derive(Debug, PartialEq)]
pub enum Json {
    Null,
    Bool(bool),
    Int(i64),
    Dec(Decimal),
    Str(String),
    Arr(Vec<Json>),
    Obj(Vec<(String, Json)>),
}

/// The mathematical shape of a JSON value.
pub enum JsonV {
    Null,
    Bool(bool),
    Int(int),
    Dec(DecimalV),
    Str(Seq<char>),
    Arr(Seq<JsonV>),
    Obj(Seq<(Seq<char>, JsonV)>),
}

/// The view of one JSON value, recursing into arrays and objects.
pub open spec fn view_of(j: Json) -> JsonV
    decreases j,
{
    match j {
        Json::Null => JsonV::Null,
        Json::Bool(b) => JsonV::Bool(b),
        Json::Int(n) => JsonV::Int(n as int),
        Json::Dec(d) => JsonV::Dec(d@),
        Json::Str(s) => JsonV::Str(s@),
        Json::Arr(a) => JsonV::Arr(arr_view(a@)),
        Json::Obj(o) => JsonV::Obj(entries_view(o@)),
    }
}

/// The view of a sequence of JSON values, element by element.
pub open spec fn arr_view(s: Seq<Json>) -> Seq<JsonV>
    decreases s,
{
    if s.len() == 0 {
        Seq::empty()
    } else {
        arr_view(s.drop_last()).push(view_of(s.last()))
    }
}

/// The view of a sequence of object entries: each key and value viewed.
pub open spec fn entries_view(s: Seq<(String, Json)>) -> Seq<(Seq<char>, JsonV)>
    decreases s,
{
    if s.len() == 0 {
        Seq::empty()
    } else {
        entries_view(s.drop_last()).push((s.last().0@, view_of(s.last().1)))
    }
}

impl View for Json {
    type V = JsonV;

    open spec fn view(&self) -> JsonV {
        view_of(*self)
    }
}

pub broadcast proof fn lemma_arr_view_len(s: Seq<Json>)
    ensures
        #[trigger] arr_view(s).len() == s.len(),
    decreases s,
{
    if s.len() > 0 {
        lemma_arr_view_len(s.drop_last());
    }
}

pub broadcast proof fn lemma_arr_view_index(s: Seq<Json>, i: int)
    requires
        0 <= i < s.len(),
    ensures
        #[trigger] arr_view(s)[i] == view_of(s[i]),
    decreases s,
{
    lemma_arr_view_len(s);
    if i < s.len() - 1 {
        lemma_arr_view_len(s.drop_last());
        lemma_arr_view_index(s.drop_last(), i);
    }
}

pub broadcast proof fn lemma_arr_view_push(s: Seq<Json>, j: Json)
    ensures
        #[trigger] arr_view(s.push(j)) == arr_view(s).push(view_of(j)),
{
    assert(s.push(j).drop_last() =~= s);
}

pub broadcast proof fn lemma_entries_view_len(s: Seq<(String, Json)>)
    ensures
        #[trigger] entries_view(s).len() == s.len(),
    decreases s,
{
    if s.len() > 0 {
        lemma_entries_view_len(s.drop_last());
    }
}

pub broadcast proof fn lemma_entries_view_index(s: Seq<(String, Json)>, i: int)
    requires
        0 <= i < s.len(),
    ensures
        #[trigger] entries_view(s)[i] == (s[i].0@, view_of(s[i].1)),
    decreases s,
{
    lemma_entries_view_len(s);
    if i < s.len() - 1 {
        lemma_entries_view_len(s.drop_last());
        lemma_entries_view_index(s.drop_last(), i);
    }
}

pub broadcast proof fn lemma_entries_view_push(s: Seq<(String, Json)>, e: (String, Json))
    ensures
        #[trigger] entries_view(s.push(e)) == entries_view(s).push((e.0@, view_of(e.1))),
{
    assert(s.push(e).drop_last() =~= s);
}

/// The views of a sequence of values, element by element.
pub open spec fn seq_views<T: View>(s: Seq<T>) -> Seq<T::V>
    decreases s,
{
    if s.len() == 0 {
        Seq::empty()
    } else {
        seq_views(s.drop_last()).push(s.last()@)
    }
}

pub broadcast proof fn lemma_seq_views_len<T: View>(s: Seq<T>)
    ensures
        #[trigger] seq_views(s).len() == s.len(),
    decreases s,
{
    if s.len() > 0 {
        lemma_seq_views_len(s.drop_last());
    }
}

pub broadcast proof fn lemma_seq_views_index<T: View>(s: Seq<T>, i: int)
    requires
        0 <= i < s.len(),
    ensures
        #[trigger] seq_views(s)[i] == s[i]@,
    decreases s,
{
    lemma_seq_views_len(s);
    if i < s.len() - 1 {
        lemma_seq_views_len(s.drop_last());
        lemma_seq_views_index(s.drop_last(), i);
    }
}

pub broadcast proof fn lemma_seq_views_push<T: View>(s: Seq<T>, x: T)
    ensures
        #[trigger] seq_views(s.push(x)) == seq_views(s).push(x@),
{
    assert(s.push(x).drop_last() =~= s);
}

/// The failure of a decode: the payload had the wrong shape or type, or a
/// required field was missing.
#[derive(Debug, Clone, Copy, PartialEq, Eq, Structural)]
pub enum DecodeError {
    TypeMismatch,
    MissingField,
}

/// The value under the first entry of `o` whose key is `k`, or `None`.
pub open spec fn lookup(o: Seq<(Seq<char>, JsonV)>, k: Seq<char>) -> Option<JsonV>
    decreases o.len(),
{
    if o.len() == 0 {
        None
    } else if o[0].0 == k {
        Some(o[0].1)
    } else {
        lookup(o.drop_first(), k)
    }
}

/// Looking a key up in an object extended by one entry falls back to the
/// new entry only when the key was not there before.
pub broadcast proof fn lemma_lookup_push(o: Seq<(Seq<char>, JsonV)>, e: (Seq<char>, JsonV), k: Seq<char>)
    ensures
        #[trigger] lookup(o.push(e), k) == (if lookup(o, k) is Some {
            lookup(o, k)
        } else if e.0 == k {
            Some(e.1)
        } else {
            None
        }),
    decreases o.len(),
{
    if o.len() == 0 {
        assert(o.push(e).drop_first() =~= o);
        assert(o.push(e)[0] == e);
    } else {
        assert(o.push(e).drop_first() =~= o.drop_first().push(e));
        lemma_lookup_push(o.drop_first(), e, k);
    }
}

/// Looking a key up in an empty object finds nothing.
pub broadcast proof fn lemma_lookup_empty(k: Seq<char>)
    ensures
        #[trigger] lookup(Seq::<(Seq<char>, JsonV)>::empty(), k) is None,
{
}

/// The view lemmas and lookup lemmas that the encoders and decoders lean
/// on throughout.
pub broadcast group group_json_views {
    lemma_arr_view_len,
    lemma_arr_view_index,
    lemma_arr_view_push,
    lemma_entries_view_len,
    lemma_entries_view_index,
    lemma_entries_view_push,
    lemma_lookup_push,
    lemma_lookup_empty,
    lemma_seq_views_len,
    lemma_seq_views_index,
    lemma_seq_views_push,
}

impl Json {
    /// The value under the first entry of the object with the given key,
    /// or nothing when no entry has it.
    #[verifier::loop_isolation(false)]
    pub fn obj_get<'a>(entries: &'a Vec<(String, Json)>, key: &str) -> (r: Option<&'a Json>)
        ensures
            match r {
                Some(j) => lookup(entries_view(entries@), key@) == Some(j@),
                None => lookup(entries_view(entries@), key@) is None,
            },
    {
        broadcast use group_json_views;

        let ghost o = entries_view(entries@);
        let n = entries.len();
        let mut i: usize = 0;
        proof {
            assert(o.skip(0) =~= o);
        }
        while i < n
            invariant
                i <= n,
                o.len() == n,
                forall|j: int| 0 <= j < i ==> o[j].0 != key@,
                lookup(o, key@) == lookup(o.skip(i as int), key@),
            decreases n - i,
        {
            proof {
                assert(o[i as int] == (entries@[i as int].0@, entries@[i as int].1@));
            }
            if crate::text::str_eq(entries[i].0.as_str(), key) {
                proof {
                    assert(o.skip(i as int)[0] == o[i as int]);
                }
                return Some(&entries[i].1);
            }
            proof {
                assert(o.skip(i as int)[0] == o[i as int]);
                assert(o.skip(i as int).drop_first() =~= o.skip(i as int + 1));
            }
            i = i + 1;
        }
        proof {
            assert(o.skip(n as int) =~= Seq::empty());
        }
        None
    }
}

// Spec-level readers for the common field shapes. Each mirrors one of the
// exec readers below, so a decode contract is the reader chain itself.
/// An optional string field: absent, a string, or a type mismatch.
pub open spec fn spec_opt_str(o: Seq<(Seq<char>, JsonV)>, k: Seq<char>) -> Result<
    Option<Seq<char>>,
    DecodeError,
> {
    match lookup(o, k) {
        Option::None => Ok(Option::None),
        Option::Some(JsonV::Str(s)) => Ok(Option::Some(s)),
        Option::Some(_) => Err(DecodeError::TypeMismatch),
    }
}

/// A required string field: missing, a string, or a type mismatch.
pub open spec fn spec_req_str(o: Seq<(Seq<char>, JsonV)>, k: Seq<char>) -> Result<
    Seq<char>,
    DecodeError,
> {
    match lookup(o, k) {
        Option::None => Err(DecodeError::MissingField),
        Option::Some(JsonV::Str(s)) => Ok(s),
        Option::Some(_) => Err(DecodeError::TypeMismatch),
    }
}

/// An optional boolean field.
pub open spec fn spec_opt_bool(o: Seq<(Seq<char>, JsonV)>, k: Seq<char>) -> Result<
    Option<bool>,
    DecodeError,
> {
    match lookup(o, k) {
        Option::None => Ok(Option::None),
        Option::Some(JsonV::Bool(b)) => Ok(Option::Some(b)),
        Option::Some(_) => Err(DecodeError::TypeMismatch),
    }
}

/// An optional 32-bit integer field: an integer in range, or a mismatch.
pub open spec fn spec_opt_i32(o: Seq<(Seq<char>, JsonV)>, k: Seq<char>) -> Result<
    Option<i32>,
    DecodeError,
> {
    match lookup(o, k) {
        Option::None => Ok(Option::None),
        Option::Some(JsonV::Int(n)) => if i32::MIN <= n <= i32::MAX {
            Ok(Option::Some(n as i32))
        } else {
            Err(DecodeError::TypeMismatch)
        },
        Option::Some(_) => Err(DecodeError::TypeMismatch),
    }
}

/// An optional decimal field.
pub open spec fn spec_opt_dec(o: Seq<(Seq<char>, JsonV)>, k: Seq<char>) -> Result<
    Option<DecimalV>,
    DecodeError,
> {
    match lookup(o, k) {
        Option::None => Ok(Option::None),
        Option::Some(JsonV::Dec(d)) => Ok(Option::Some(d)),
        Option::Some(_) => Err(DecodeError::TypeMismatch),
    }
}

/// A required array field: missing, an array, or a type mismatch.
pub open spec fn spec_req_arr(o: Seq<(Seq<char>, JsonV)>, k: Seq<char>) -> Result<
    Seq<JsonV>,
    DecodeError,
> {
    match lookup(o, k) {
        Option::None => Err(DecodeError::MissingField),
        Option::Some(JsonV::Arr(a)) => Ok(a),
        Option::Some(_) => Err(DecodeError::TypeMismatch),
    }
}

/// A string element of an array.
pub open spec fn spec_dec_str(j: JsonV) -> Result<Seq<char>, DecodeError> {
    match j {
        JsonV::Str(s) => Ok(s),
        _ => Err(DecodeError::TypeMismatch),
    }
}

/// The encoded form of a sequence of strings, in order.
pub open spec fn spec_encode_str_all(vs: Seq<Seq<char>>) -> Seq<JsonV>
    decreases vs,
{
    if vs.len() == 0 {
        Seq::empty()
    } else {
        spec_encode_str_all(vs.drop_last()).push(JsonV::Str(vs.last()))
    }
}

/// The decoded reading of an array of strings: all elements must be
/// strings, and the first offending element decides the error.
pub open spec fn spec_decode_str_all(a: Seq<JsonV>) -> Result<Seq<Seq<char>>, DecodeError>
    decreases a,
{
    if a.len() == 0 {
        Ok(Seq::empty())
    } else {
        match spec_decode_str_all(a.drop_last()) {
            Ok(rest) => match spec_dec_str(a.last()) {
                Ok(x) => Ok(rest.push(x)),
                Err(e) => Err(e),
            },
            Err(e) => Err(e),
        }
    }
}

/// Decoding an encoded sequence of strings yields the sequence back.
pub proof fn lemma_str_all_round_trip(vs: Seq<Seq<char>>)
    ensures
        spec_decode_str_all(spec_encode_str_all(vs)) == Ok::<Seq<Seq<char>>, DecodeError>(vs),
    decreases vs,
{
    if vs.len() > 0 {
        lemma_str_all_round_trip(vs.drop_last());
        let a = spec_encode_str_all(vs);
        assert(a.drop_last() =~= spec_encode_str_all(vs.drop_last()));
        assert(vs.drop_last().push(vs.last()) =~= vs);
    } else {
        assert(vs =~= Seq::<Seq<char>>::empty());
    }
}

/// When a prefix of the array decodes and the element after it does not,
/// the whole array fails with that element's error.
pub proof fn lemma_str_all_error_at(a: Seq<JsonV>, i: int)
    requires
        0 <= i < a.len(),
        spec_decode_str_all(a.subrange(0, i)) is Ok,
        spec_dec_str(a[i]) is Err,
    ensures
        spec_decode_str_all(a) == Err::<Seq<Seq<char>>, DecodeError>(spec_dec_str(a[i])->Err_0),
    decreases a,
{
    if i < a.len() - 1 {
        assert(a.drop_last().subrange(0, i) =~= a.subrange(0, i));
        lemma_str_all_error_at(a.drop_last(), i);
    } else {
        assert(a.drop_last() =~= a.subrange(0, i));
    }
}

/// A required array-of-strings field.
pub open spec fn spec_str_arr(o: Seq<(Seq<char>, JsonV)>, k: Seq<char>) -> Result<
    Seq<Seq<char>>,
    DecodeError,
> {
    match spec_req_arr(o, k) {
        Ok(a) => spec_decode_str_all(a),
        Err(e) => Err(e),
    }
}

// Exec writers: each appends one entry, or none for an absent option.
/// Appends the entry `key: j` to the object under construction.
pub fn put_json(entries: &mut Vec<(String, Json)>, key: &str, j: Json)
    ensures
        entries_view(final(entries)@) == entries_view(old(entries)@).push((key@, j@)),
{
    broadcast use group_json_views;

    let ghost before = entries_view(entries@);
    entries.push((String::from_str(key), j));
    proof {
        assert(entries_view(entries@) =~= before.push((key@, entries@[entries@.len() - 1].1@)));
    }
}

/// Appends `key: s` as a string entry.
pub fn put_str(entries: &mut Vec<(String, Json)>, key: &str, s: &str)
    ensures
        entries_view(final(entries)@) == entries_view(old(entries)@).push(
            (key@, JsonV::Str(s@)),
        ),
{
    put_json(entries, key, Json::Str(s.to_owned()));
}

/// Appends `key: s` when the optional string is present, else nothing.
pub fn put_opt_str(entries: &mut Vec<(String, Json)>, key: &str, s: &Option<String>)
    ensures
        entries_view(final(entries)@) == (if s is Some {
            entries_view(old(entries)@).push((key@, JsonV::Str(s->Some_0@)))
        } else {
            entries_view(old(entries)@)
        }),
{
    match s {
        Option::Some(v) => put_str(entries, key, v.as_str()),
        Option::None => (),
    }
}

/// Appends `key: b` when the optional boolean is present, else nothing.
pub fn put_opt_bool(entries: &mut Vec<(String, Json)>, key: &str, b: &Option<bool>)
    ensures
        entries_view(final(entries)@) == (if b is Some {
            entries_view(old(entries)@).push((key@, JsonV::Bool(b->Some_0)))
        } else {
            entries_view(old(entries)@)
        }),
{
    match b {
        Option::Some(v) => put_json(entries, key, Json::Bool(*v)),
        Option::None => (),
    }
}

/// Appends `key: n` when the optional integer is present, else nothing.
pub fn put_opt_i32(entries: &mut Vec<(String, Json)>, key: &str, n: &Option<i32>)
    ensures
        entries_view(final(entries)@) == (if n is Some {
            entries_view(old(entries)@).push((key@, JsonV::Int(n->Some_0 as int)))
        } else {
            entries_view(old(entries)@)
        }),
{
    match n {
        Option::Some(v) => put_json(entries, key, Json::Int(*v as i64)),
        Option::None => (),
    }
}

/// Appends `key: d` when the optional decimal is present, else nothing.
pub fn put_opt_dec(entries: &mut Vec<(String, Json)>, key: &str, d: &Option<Decimal>)
    ensures
        entries_view(final(entries)@) == (if d is Some {
            entries_view(old(entries)@).push((key@, JsonV::Dec(d->Some_0@)))
        } else {
            entries_view(old(entries)@)
        }),
{
    match d {
        Option::Some(v) => put_json(entries, key, Json::Dec(*v)),
        Option::None => (),
    }
}

// Exec readers, mirroring the spec readers above.
/// Reads an optional string field.
pub fn take_opt_str(entries: &Vec<(String, Json)>, key: &str) -> (r: Result<
    Option<String>,
    DecodeError,
>)
    ensures
        match r {
            Ok(Option::Some(s)) => spec_opt_str(entries_view(entries@), key@) == Ok::<
                _,
                DecodeError,
            >(Option::Some(s@)),
            Ok(Option::None) => spec_opt_str(entries_view(entries@), key@) == Ok::<
                Option<Seq<char>>,
                DecodeError,
            >(Option::None),
            Err(e) => spec_opt_str(entries_view(entries@), key@) == Err::<
                Option<Seq<char>>,
                DecodeError,
            >(e),
        },
{
    match Json::obj_get(entries, key) {
        Option::None => Ok(Option::None),
        Option::Some(Json::Str(s)) => Ok(Option::Some(s.clone())),
        Option::Some(_) => Err(DecodeError::TypeMismatch),
    }
}

/// Reads a required string field.
pub fn take_req_str(entries: &Vec<(String, Json)>, key: &str) -> (r: Result<String, DecodeError>)
    ensures
        match r {
            Ok(s) => spec_req_str(entries_view(entries@), key@) == Ok::<_, DecodeError>(s@),
            Err(e) => spec_req_str(entries_view(entries@), key@) == Err::<Seq<char>, DecodeError>(
                e,
            ),
        },
{
    match Json::obj_get(entries, key) {
        Option::None => Err(DecodeError::MissingField),
        Option::Some(Json::Str(s)) => Ok(s.clone()),
        Option::Some(_) => Err(DecodeError::TypeMismatch),
    }
}

/// Reads an optional boolean field.
pub fn take_opt_bool(entries: &Vec<(String, Json)>, key: &str) -> (r: Result<
    Option<bool>,
    DecodeError,
>)
    ensures
        match r {
            Ok(b) => spec_opt_bool(entries_view(entries@), key@) == Ok::<_, DecodeError>(b),
            Err(e) => spec_opt_bool(entries_view(entries@), key@) == Err::<
                Option<bool>,
                DecodeError,
            >(e),
        },
{
    match Json::obj_get(entries, key) {
        Option::None => Ok(Option::None),
        Option::Some(Json::Bool(b)) => Ok(Option::Some(*b)),
        Option::Some(_) => Err(DecodeError::TypeMismatch),
    }
}

/// Reads an optional 32-bit integer field.
pub fn take_opt_i32(entries: &Vec<(String, Json)>, key: &str) -> (r: Result<
    Option<i32>,
    DecodeError,
>)
    ensures
        match r {
            Ok(v) => spec_opt_i32(entries_view(entries@), key@) == Ok::<Option<i32>, DecodeError>(
                v,
            ),
            Err(e) => spec_opt_i32(entries_view(entries@), key@) == Err::<
                Option<i32>,
                DecodeError,
            >(e),
        },
{
    match Json::obj_get(entries, key) {
        Option::None => Ok(Option::None),
        Option::Some(Json::Int(n)) => {
            if i32::MIN as i64 <= *n && *n <= i32::MAX as i64 {
                Ok(Option::Some(*n as i32))
            } else {
                Err(DecodeError::TypeMismatch)
            }
        },
        Option::Some(_) => Err(DecodeError::TypeMismatch),
    }
}

/// Reads an optional decimal field.
pub fn take_opt_dec(entries: &Vec<(String, Json)>, key: &str) -> (r: Result<
    Option<Decimal>,
    DecodeError,
>)
    ensures
        match r {
            Ok(Option::Some(d)) => spec_opt_dec(entries_view(entries@), key@) == Ok::<
                _,
                DecodeError,
            >(Option::Some(d@)),
            Ok(Option::None) => spec_opt_dec(entries_view(entries@), key@) == Ok::<
                Option<DecimalV>,
                DecodeError,
            >(Option::None),
            Err(e) => spec_opt_dec(entries_view(entries@), key@) == Err::<
                Option<DecimalV>,
                DecodeError,
            >(e),
        },
{
    match Json::obj_get(entries, key) {
        Option::None => Ok(Option::None),
        Option::Some(Json::Dec(d)) => Ok(Option::Some(*d)),
        Option::Some(_) => Err(DecodeError::TypeMismatch),
    }
}

/// Reads a required array field.
pub fn take_req_arr<'a>(entries: &'a Vec<(String, Json)>, key: &str) -> (r: Result<
    &'a Vec<Json>,
    DecodeError,
>)
    ensures
        match r {
            Ok(a) => spec_req_arr(entries_view(entries@), key@) == Ok::<_, DecodeError>(
                arr_view(a@),
            ),
            Err(e) => spec_req_arr(entries_view(entries@), key@) == Err::<Seq<JsonV>, DecodeError>(
                e,
            ),
        },
{
    match Json::obj_get(entries, key) {
        Option::None => Err(DecodeError::MissingField),
        Option::Some(Json::Arr(a)) => {
            proof {
                broadcast use group_json_views;

                assert(lookup(entries_view(entries@), key@)->Some_0->Arr_0 =~= arr_view(a@));
            }
            Ok(a)
        },
        Option::Some(_) => Err(DecodeError::TypeMismatch),
    }
}

/// Encodes a vector of strings as a JSON array of strings.
#[verifier::loop_isolation(false)]
pub fn encode_str_arr(v: &Vec<String>) -> (r: Json)
    ensures
        r@ == JsonV::Arr(spec_encode_str_all(seq_views(v@))),
{
    broadcast use group_json_views;

    let ghost vs = seq_views(v@);
    let mut a: Vec<Json> = Vec::new();
    let n = v.len();
    let mut i: usize = 0;
    proof {
        assert(vs.subrange(0, 0) =~= Seq::<Seq<char>>::empty());
    }
    while i < n
        invariant
            i <= n,
            n == v@.len(),
            vs == seq_views(v@),
            arr_view(a@) =~= spec_encode_str_all(vs.subrange(0, i as int)),
        decreases n - i,
    {
        a.push(Json::Str(v[i].clone()));
        proof {
            assert(vs.subrange(0, i as int + 1).drop_last() =~= vs.subrange(0, i as int));
            assert(arr_view(a@) =~= spec_encode_str_all(vs.subrange(0, i as int + 1)));
        }
        i = i + 1;
    }
    proof {
        assert(vs.subrange(0, n as int) =~= vs);
        assert(Json::Arr(a)@->Arr_0 =~= arr_view(a@));
    }
    Json::Arr(a)
}

/// Decodes a JSON array of strings into a vector of strings.
#[verifier::loop_isolation(false)]
pub fn decode_str_arr(a: &Vec<Json>) -> (r: Result<Vec<String>, DecodeError>)
    ensures
        match r {
            Ok(v) => spec_decode_str_all(arr_view(a@)) == Ok::<_, DecodeError>(seq_views(v@)),
            Err(e) => spec_decode_str_all(arr_view(a@)) == Err::<Seq<Seq<char>>, DecodeError>(e),
        },
{
    broadcast use group_json_views;

    let ghost full = arr_view(a@);
    let n = a.len();
    let mut out: Vec<String> = Vec::new();
    let mut i: usize = 0;
    proof {
        assert(full.subrange(0, 0) =~= Seq::<JsonV>::empty());
        assert(seq_views(out@) =~= Seq::<Seq<char>>::empty());
    }
    while i < n
        invariant
            i <= n,
            n == a@.len(),
            full == arr_view(a@),
            out@.len() == i,
            spec_decode_str_all(full.subrange(0, i as int)) == Ok::<_, DecodeError>(
                seq_views(out@),
            ),
        decreases n - i,
    {
        match &a[i] {
            Json::Str(c) => {
                out.push(c.clone());
                proof {
                    assert(full.subrange(0, i as int + 1).drop_last() =~= full.subrange(
                        0,
                        i as int,
                    ));
                    assert(spec_decode_str_all(full.subrange(0, i as int + 1)) == Ok::<
                        _,
                        DecodeError,
                    >(seq_views(out@)));
                }
            },
            _ => {
                proof {
                    lemma_str_all_error_at(full, i as int);
                }
                return Err(DecodeError::TypeMismatch);
            },
        }
        i = i + 1;
    }
    proof {
        assert(full.subrange(0, n as int) =~= full);
    }
    Ok(out)
}


// ---------------------------------------------------------------------
// Rendering a JSON value as text. The writer is deterministic: the text
// is a function of the value alone, with fixed field order, no spaces,
// and absent optional fields already omitted by the encoders.
/// The character for one decimal digit.
pub open spec fn digit_char(d: nat) -> char {
    if d == 0 {
        '0'
    } else if d == 1 {
        '1'
    } else if d == 2 {
        '2'
    } else if d == 3 {
        '3'
    } else if d == 4 {
        '4'
    } else if d == 5 {
        '5'
    } else if d == 6 {
        '6'
    } else if d == 7 {
        '7'
    } else if d == 8 {
        '8'
    } else {
        '9'
    }
}

/// The character for one hexadecimal digit.
pub open spec fn hex_char(d: nat) -> char {
    if d < 10 {
        digit_char(d)
    } else if d == 10 {
        'a'
    } else if d == 11 {
        'b'
    } else if d == 12 {
        'c'
    } else if d == 13 {
        'd'
    } else if d == 14 {
        'e'
    } else {
        'f'
    }
}

/// The decimal digits of `n`, most significant first.
pub open spec fn spec_digits(n: nat) -> Seq<char>
    decreases n,
{
    if n < 10 {
        seq![digit_char(n)]
    } else {
        spec_digits(n / 10).push(digit_char(n % 10))
    }
}

/// `n` zero characters.
pub open spec fn spec_zeros(n: nat) -> Seq<char>
    decreases n,
{
    if n == 0 {
        Seq::empty()
    } else {
        spec_zeros((n - 1) as nat).push('0')
    }
}

/// The text of an integer: a minus sign for negatives, then its digits.
pub open spec fn spec_write_int(n: int) -> Seq<char> {
    if n < 0 {
        seq!['-'] + spec_digits((-n) as nat)
    } else {
        spec_digits(n as nat)
    }
}

/// The text of a decimal: the scaled mantissa with a decimal point, and
/// always at least one digit on either side of the point.
pub open spec fn spec_write_dec(d: DecimalV) -> Seq<char> {
    let m = if d.mantissa < 0 {
        (-d.mantissa) as nat
    } else {
        d.mantissa as nat
    };
    let digits = spec_digits(m);
    let body = if d.scale == 0 {
        digits + seq!['.', '0']
    } else if d.scale < digits.len() {
        digits.subrange(0, digits.len() - d.scale) + seq!['.'] + digits.subrange(
            digits.len() - d.scale,
            digits.len() as int,
        )
    } else {
        seq!['0', '.'] + spec_zeros((d.scale - digits.len()) as nat) + digits
    };
    if d.mantissa < 0 {
        seq!['-'] + body
    } else {
        body
    }
}

/// The escaped form of one string character.
pub open spec fn spec_escape_char(c: char) -> Seq<char> {
    if c == '"' {
        seq!['\\', '"']
    } else if c == '\\' {
        seq!['\\', '\\']
    } else if c == '\n' {
        seq!['\\', 'n']
    } else if c == '\r' {
        seq!['\\', 'r']
    } else if c == '\t' {
        seq!['\\', 't']
    } else if (c as u32) < 0x20 {
        seq!['\\', 'u', '0', '0', hex_char((c as u32 / 16) as nat), hex_char((c as u32 % 16) as nat)]
    } else {
        seq![c]
    }
}

/// The escaped body of a string, character by character.
pub open spec fn spec_escape(s: Seq<char>) -> Seq<char>
    decreases s,
{
    if s.len() == 0 {
        Seq::empty()
    } else {
        spec_escape(s.drop_last()) + spec_escape_char(s.last())
    }
}

/// The text of a string: its escaped body between double quotes.
pub open spec fn spec_write_str(s: Seq<char>) -> Seq<char> {
    seq!['"'] + spec_escape(s) + seq!['"']
}

/// The text of a JSON value.
pub open spec fn spec_write_json(j: JsonV) -> Seq<char>
    decreases j,
{
    match j {
        JsonV::Null => seq!['n', 'u', 'l', 'l'],
        JsonV::Bool(b) => if b {
            seq!['t', 'r', 'u', 'e']
        } else {
            seq!['f', 'a', 'l', 's', 'e']
        },
        JsonV::Int(n) => spec_write_int(n),
        JsonV::Dec(d) => spec_write_dec(d),
        JsonV::Str(s) => spec_write_str(s),
        JsonV::Arr(a) => seq!['['] + spec_write_arr(a) + seq![']'],
        JsonV::Obj(o) => seq!['{'] + spec_write_obj(o) + seq!['}'],
    }
}

/// The comma-separated texts of the elements of an array.
pub open spec fn spec_write_arr(a: Seq<JsonV>) -> Seq<char>
    decreases a,
{
    if a.len() == 0 {
        Seq::empty()
    } else if a.len() == 1 {
        spec_write_json(a.last())
    } else {
        spec_write_arr(a.drop_last()) + seq![','] + spec_write_json(a.last())
    }
}

/// The comma-separated `key:value` texts of the entries of an object.
pub open spec fn spec_write_obj(o: Seq<(Seq<char>, JsonV)>) -> Seq<char>
    decreases o,
{
    if o.len() == 0 {
        Seq::empty()
    } else if o.len() == 1 {
        spec_write_entry(o.last())
    } else {
        spec_write_obj(o.drop_last()) + seq![','] + spec_write_entry(o.last())
    }
}

/// The text of one object entry: the quoted key, a colon, the value.
pub open spec fn spec_write_entry(e: (Seq<char>, JsonV)) -> Seq<char>
    decreases e,
{
    spec_write_str(e.0) + seq![':'] + spec_write_json(e.1)
}

/// Appends the decimal digits of `n`.
fn append_digits(buf: &mut String, n: u64)
    ensures
        final(buf)@ == old(buf)@ + spec_digits(n as nat),
    decreases n,
{
    if n >= 10 {
        append_digits(buf, n / 10);
    }
    let d = n % 10;
    let c: char = if d == 0 {
        '0'
    } else if d == 1 {
        '1'
    } else if d == 2 {
        '2'
    } else if d == 3 {
        '3'
    } else if d == 4 {
        '4'
    } else if d == 5 {
        '5'
    } else if d == 6 {
        '6'
    } else if d == 7 {
        '7'
    } else if d == 8 {
        '8'
    } else {
        '9'
    };
    crate::text::push_char(buf, c);
    proof {
        if n < 10 {
            assert(old(buf)@ + spec_digits(n as nat) =~= buf@);
        } else {
            assert(old(buf)@ + spec_digits(n as nat) =~= buf@);
        }
    }
}

/// Appends the text of an integer.
fn append_int(buf: &mut String, n: i64)
    ensures
        final(buf)@ == old(buf)@ + spec_write_int(n as int),
{
    if n < 0 {
        crate::text::push_char(buf, '-');
        let mag: u64 = (-(n as i128)) as u64;
        append_digits(buf, mag);
        proof {
            assert(old(buf)@ + spec_write_int(n as int) =~= buf@);
        }
    } else {
        append_digits(buf, n as u64);
    }
}

/// Appends the text of a decimal.
#[verifier::loop_isolation(false)]
fn append_dec(buf: &mut String, d: &Decimal)
    ensures
        final(buf)@ == old(buf)@ + spec_write_dec(d@),
{
    let mag: u64 = if d.mantissa < 0 {
        (-(d.mantissa as i128)) as u64
    } else {
        d.mantissa as u64
    };
    if d.mantissa < 0 {
        crate::text::push_char(buf, '-');
    }
    let mut digits = String::new();
    append_digits(&mut digits, mag);
    let ghost ds = spec_digits(mag as nat);
    proof {
        assert(digits@ =~= ds);
    }
    let len = digits.as_str().unicode_len();
    let scale = d.scale as usize;
    if scale == 0 {
        buf.append(digits.as_str());
        crate::text::push_char(buf, '.');
        crate::text::push_char(buf, '0');
        proof {
            assert(old(buf)@ + spec_write_dec(d@) =~= buf@);
        }
    } else if scale < len {
        let head = digits.as_str().substring_char(0, len - scale);
        let tail = digits.as_str().substring_char(len - scale, len);
        buf.append(head);
        crate::text::push_char(buf, '.');
        buf.append(tail);
        proof {
            assert(old(buf)@ + spec_write_dec(d@) =~= buf@);
        }
    } else {
        crate::text::push_char(buf, '0');
        crate::text::push_char(buf, '.');
        let mut z: usize = 0;
        let pad = scale - len;
        while z < pad
            invariant
                z <= pad,
                buf@ == old(buf)@ + (if d@.mantissa < 0 {
                    seq!['-']
                } else {
                    Seq::empty()
                }) + seq!['0', '.'] + spec_zeros(z as nat),
            decreases pad - z,
        {
            crate::text::push_char(buf, '0');
            z = z + 1;
            proof {
                assert(spec_zeros(z as nat) =~= spec_zeros((z - 1) as nat).push('0'));
                assert(buf@ =~= old(buf)@ + (if d@.mantissa < 0 {
                    seq!['-']
                } else {
                    Seq::empty()
                }) + seq!['0', '.'] + spec_zeros(z as nat));
            }
        }
        buf.append(digits.as_str());
        proof {
            assert(old(buf)@ + spec_write_dec(d@) =~= buf@);
        }
    }
}

/// Appends the escaped body of a string.
#[verifier::loop_isolation(false)]
fn append_escaped(buf: &mut String, s: &str)
    ensures
        final(buf)@ == old(buf)@ + spec_escape(s@),
{
    let cs = crate::text::str_chars(s);
    let n = cs.len();
    let mut i: usize = 0;
    proof {
        assert(s@.subrange(0, 0) =~= Seq::<char>::empty());
        assert(buf@ =~= old(buf)@ + spec_escape(s@.subrange(0, 0)));
    }
    while i < n
        invariant
            i <= n,
            buf@ == old(buf)@ + spec_escape(s@.subrange(0, i as int)),
        decreases n - i,
    {
        let c = cs[i];
        let u = c as u32;
        if c == '"' {
            crate::text::push_char(buf, '\\');
            crate::text::push_char(buf, '"');
        } else if c == '\\' {
            crate::text::push_char(buf, '\\');
            crate::text::push_char(buf, '\\');
        } else if c == '\n' {
            crate::text::push_char(buf, '\\');
            crate::text::push_char(buf, 'n');
        } else if c == '\r' {
            crate::text::push_char(buf, '\\');
            crate::text::push_char(buf, 'r');
        } else if c == '\t' {
            crate::text::push_char(buf, '\\');
            crate::text::push_char(buf, 't');
        } else if u < 0x20 {
            crate::text::push_char(buf, '\\');
            crate::text::push_char(buf, 'u');
            crate::text::push_char(buf, '0');
            crate::text::push_char(buf, '0');
            let hi = u / 16;
            let lo = u % 16;
            let hc: char = if hi == 0 {
                '0'
            } else {
                '1'
            };
            let lc: char = if lo == 0 {
                '0'
            } else if lo == 1 {
                '1'
            } else if lo == 2 {
                '2'
            } else if lo == 3 {
                '3'
            } else if lo == 4 {
                '4'
            } else if lo == 5 {
                '5'
            } else if lo == 6 {
                '6'
            } else if lo == 7 {
                '7'
            } else if lo == 8 {
                '8'
            } else if lo == 9 {
                '9'
            } else if lo == 10 {
                'a'
            } else if lo == 11 {
                'b'
            } else if lo == 12 {
                'c'
            } else if lo == 13 {
                'd'
            } else if lo == 14 {
                'e'
            } else {
                'f'
            };
            crate::text::push_char(buf, hc);
            crate::text::push_char(buf, lc);
        } else {
            crate::text::push_char(buf, c);
        }
        i = i + 1;
        proof {
            assert(s@.subrange(0, i as int).drop_last() =~= s@.subrange(0, i as int - 1));
            assert(buf@ =~= old(buf)@ + spec_escape(s@.subrange(0, i as int)));
        }
    }
    proof {
        assert(s@.subrange(0, n as int) =~= s@);
    }
}

/// Appends the quoted, escaped text of a string.
fn append_str(buf: &mut String, s: &str)
    ensures
        final(buf)@ == old(buf)@ + spec_write_str(s@),
{
    crate::text::push_char(buf, '"');
    append_escaped(buf, s);
    crate::text::push_char(buf, '"');
    proof {
        assert(old(buf)@ + spec_write_str(s@) =~= buf@);
    }
}

/// Appends the text of a JSON value.
#[verifier::loop_isolation(false)]
fn append_json(buf: &mut String, j: &Json)
    ensures
        final(buf)@ == old(buf)@ + spec_write_json(j@),
    decreases j,
{
    broadcast use group_json_views;

    match j {
        Json::Null => {
            buf.append("null");
            proof {
                reveal_strlit("null");
                assert(old(buf)@ + spec_write_json(j@) =~= buf@);
            }
        },
        Json::Bool(b) => {
            if *b {
                buf.append("true");
                proof {
                    reveal_strlit("true");
                    assert(old(buf)@ + spec_write_json(j@) =~= buf@);
                }
            } else {
                buf.append("false");
                proof {
                    reveal_strlit("false");
                    assert(old(buf)@ + spec_write_json(j@) =~= buf@);
                }
            }
        },
        Json::Int(n) => {
            append_int(buf, *n);
        },
        Json::Dec(d) => {
            append_dec(buf, d);
        },
        Json::Str(s) => {
            append_str(buf, s.as_str());
        },
        Json::Arr(a) => {
            let ghost av = arr_view(a@);
            crate::text::push_char(buf, '[');
            let n = a.len();
            let mut i: usize = 0;
            proof {
                assert(av.subrange(0, 0) =~= Seq::<JsonV>::empty());
                assert(buf@ =~= old(buf)@ + seq!['['] + spec_write_arr(av.subrange(0, 0)));
            }
            while i < n
                invariant
                    i <= n,
                    n == a@.len(),
                    av == arr_view(a@),
                    buf@ == old(buf)@ + seq!['['] + spec_write_arr(av.subrange(0, i as int)),
                decreases n - i,
            {
                if i > 0 {
                    crate::text::push_char(buf, ',');
                }
                let ji = &a[i];
                proof {
                    assert(ji@ == av[i as int]);
                }
                append_json(buf, ji);
                i = i + 1;
                proof {
                    assert(av.subrange(0, i as int).drop_last() =~= av.subrange(0, i as int - 1));
                    assert(buf@ =~= old(buf)@ + seq!['['] + spec_write_arr(
                        av.subrange(0, i as int),
                    ));
                }
            }
            crate::text::push_char(buf, ']');
            proof {
                assert(av.subrange(0, n as int) =~= av);
                assert(old(buf)@ + spec_write_json(j@) =~= buf@);
            }
        },
        Json::Obj(o) => {
            let ghost ov = entries_view(o@);
            crate::text::push_char(buf, '{');
            let n = o.len();
            let mut i: usize = 0;
            proof {
                assert(ov.subrange(0, 0) =~= Seq::<(Seq<char>, JsonV)>::empty());
                assert(buf@ =~= old(buf)@ + seq!['{'] + spec_write_obj(ov.subrange(0, 0)));
            }
            while i < n
                invariant
                    i <= n,
                    n == o@.len(),
                    ov == entries_view(o@),
                    buf@ == old(buf)@ + seq!['{'] + spec_write_obj(ov.subrange(0, i as int)),
                decreases n - i,
            {
                let ghost pre = buf@;
                proof {
                    assert(ov[i as int] == (o@[i as int].0@, o@[i as int].1@));
                }
                if i > 0 {
                    crate::text::push_char(buf, ',');
                }
                append_str(buf, o[i].0.as_str());
                crate::text::push_char(buf, ':');
                let ji = &o[i].1;
                proof {
                    assert(ji@ == ov[i as int].1);
                }
                append_json(buf, ji);
                proof {
                    assert(buf@ =~= pre + (if i > 0 {
                        seq![',']
                    } else {
                        Seq::<char>::empty()
                    }) + spec_write_entry(ov[i as int]));
                }
                i = i + 1;
                proof {
                    assert(ov.subrange(0, i as int).drop_last() =~= ov.subrange(0, i as int - 1));
                    assert(ov.subrange(0, i as int).last() == ov[i as int - 1]);
                    assert(buf@ =~= old(buf)@ + seq!['{'] + spec_write_obj(
                        ov.subrange(0, i as int),
                    ));
                }
            }
            crate::text::push_char(buf, '}');
            proof {
                assert(ov.subrange(0, n as int) =~= ov);
                assert(old(buf)@ + spec_write_json(j@) =~= buf@);
            }
        },
    }
}

/// Renders a JSON value as text: fixed field order, no added spacing, so
/// the text is a function of the value alone.
pub fn write_json(j: &Json) -> (r: String)
    ensures
        r@ == spec_write_json(j@),
{
    let mut buf = String::new();
    append_json(&mut buf, j);
    proof {
        assert(Seq::<char>::empty() + spec_write_json(j@) =~= spec_write_json(j@));
    }
    buf
}

} // verus!
