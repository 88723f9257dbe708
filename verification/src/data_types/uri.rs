//! The `Uri` primitive: a validated string holding a uniform resource
//! identifier reference, absolute or relative, with an optional fragment.
use crate::json::{
    entries_view, lemma_lookup_empty, lemma_lookup_push, lookup, put_str, spec_req_str,
    take_req_str, DecodeError, Json, JsonV,
};
use crate::text::{
    alnum_char, control_char, find_char, first_non_ws, is_alnum_char, is_control_char,
    is_white_space, last_non_ws_end, lemma_find_char_props, lemma_first_non_ws_props,
    lemma_last_non_ws_end_props, lower_of, lowercase, spec_trim, str_chars, white_space,
};
use vstd::prelude::*;

verus! {

/// The ways a string can fail `Uri` validation, one kind per rule; each
/// carrying kind keeps the offending string.
#[derive(Debug, Clone, PartialEq, Eq)]
pub enum UriError {
    Empty,
    InvalidCharacters(String),
    UuidNotLowercase(String),
    InvalidFormat(String),
}

/// The mathematical shape of a `Uri` validation error.
pub enum UriErrorV {
    Empty,
    InvalidCharacters(Seq<char>),
    UuidNotLowercase(Seq<char>),
    InvalidFormat(Seq<char>),
}

impl View for UriError {
    type V = UriErrorV;

    open spec fn view(&self) -> UriErrorV {
        match self {
            UriError::Empty => UriErrorV::Empty,
            UriError::InvalidCharacters(s) => UriErrorV::InvalidCharacters(s@),
            UriError::UuidNotLowercase(s) => UriErrorV::UuidNotLowercase(s@),
            UriError::InvalidFormat(s) => UriErrorV::InvalidFormat(s@),
        }
    }
}

/// Some character of `s` is a control character.
pub open spec fn has_control_char(s: Seq<char>) -> bool {
    exists|i: int| 0 <= i < s.len() && is_control_char(#[trigger] s[i])
}

/// `s` begins with the literal prefix `urn:uuid:`.
pub open spec fn starts_with_urn_uuid(s: Seq<char>) -> bool {
    s.len() >= 9 && s[0] == 'u' && s[1] == 'r' && s[2] == 'n' && s[3] == ':' && s[4] == 'u' && s[5]
        == 'u' && s[6] == 'i' && s[7] == 'd' && s[8] == ':'
}

/// The scheme separator `://` stands at index `i` of `s`.
pub open spec fn scheme_sep_at(s: Seq<char>, i: int) -> bool {
    0 <= i && i + 3 <= s.len() && s[i] == ':' && s[i + 1] == '/' && s[i + 2] == '/'
}

/// `s` contains the scheme separator `://` somewhere.
pub open spec fn has_scheme_sep(s: Seq<char>) -> bool {
    exists|i: int| #[trigger] scheme_sep_at(s, i)
}

/// The index of the first scheme separator of `s` at or after `from`, or
/// `s.len()` when there is none.
pub open spec fn find_scheme_sep(s: Seq<char>, from: int) -> int
    decreases s.len() - from,
{
    if from < 0 || from + 3 > s.len() {
        s.len() as int
    } else if s[from] == ':' && s[from + 1] == '/' && s[from + 2] == '/' {
        from
    } else {
        find_scheme_sep(s, from + 1)
    }
}

/// `find_scheme_sep` yields an index within bounds, pointing at a
/// separator when there is one, with no earlier separator.
proof fn lemma_find_scheme_sep_props(s: Seq<char>, from: int)
    requires
        0 <= from <= s.len(),
    ensures
        from <= find_scheme_sep(s, from) <= s.len(),
        find_scheme_sep(s, from) < s.len() ==> scheme_sep_at(s, find_scheme_sep(s, from)),
        forall|j: int| from <= j < find_scheme_sep(s, from) ==> !scheme_sep_at(s, j),
        find_scheme_sep(s, from) == s.len() ==> forall|j: int|
            from <= j ==> !scheme_sep_at(s, j),
    decreases s.len() - from,
{
    if from + 3 <= s.len() && !(s[from] == ':' && s[from + 1] == '/' && s[from + 2] == '/') {
        lemma_find_scheme_sep_props(s, from + 1);
    }
}

/// A character that may stand in a scheme: alphanumeric, `+`, `-` or `.`.
pub open spec fn is_scheme_char(c: char) -> bool {
    is_alnum_char(c) || c == '+' || c == '-' || c == '.'
}

/// The scheme of `t` (everything before its first `://`) is non-empty and
/// made of scheme characters only.
pub open spec fn scheme_ok(t: Seq<char>) -> bool {
    let k = find_scheme_sep(t, 0);
    k > 0 && (forall|j: int| 0 <= j < k ==> is_scheme_char(#[trigger] t[j]))
}

/// The overall format rule: the trimmed string is non-empty, and when it
/// contains `://` its scheme passes the scheme check.
pub open spec fn uri_format_ok(s: Seq<char>) -> bool {
    let t = spec_trim(s);
    t.len() > 0 && (has_scheme_sep(t) ==> scheme_ok(t))
}

/// The validation rules for a URI, in their fixed priority order: the
/// result is the kind of the first rule that `s` violates, or `None` when
/// `s` is a well-formed URI.
pub open spec fn spec_validate_uri(s: Seq<char>) -> Option<UriErrorV> {
    if s.len() == 0 {
        Some(UriErrorV::Empty)
    } else if has_control_char(s) {
        Some(UriErrorV::InvalidCharacters(s))
    } else if starts_with_urn_uuid(s) && s != lower_of(s) {
        Some(UriErrorV::UuidNotLowercase(s))
    } else if !uri_format_ok(s) {
        Some(UriErrorV::InvalidFormat(s))
    } else {
        None
    }
}

/// `s` passes every validation rule for a URI.
pub open spec fn valid_uri(s: Seq<char>) -> bool {
    spec_validate_uri(s) is None
}

/// The fragment of `s`: the entire part after its first `#`, or none when
/// `s` holds no `#`.
pub open spec fn spec_fragment(s: Seq<char>) -> Option<Seq<char>> {
    let i = find_char(s, '#', 0);
    if i == s.len() {
        None
    } else {
        Some(s.subrange(i + 1, s.len() as int))
    }
}

/// A uniform resource identifier reference: non-empty, free of control
/// characters, lowercase when in `urn:uuid:` form, and with a well-formed
/// scheme when absolute.
#[derive(Debug, Clone, PartialEq, Eq, PartialOrd, Ord, Hash)]
pub struct Uri {
    value: String,
}

impl View for Uri {
    type V = Seq<char>;

    closed spec fn view(&self) -> Seq<char> {
        self.value@
    }
}

impl Uri {
    /// Validating construction: succeeds exactly on well-formed URIs and
    /// otherwise reports the first violated rule.
    pub fn new(value: String) -> (r: Result<Uri, UriError>)
        ensures
            match r {
                Ok(u) => valid_uri(value@) && u@ == value@,
                Err(e) => spec_validate_uri(value@) == Some(e@),
            },
    {
        let uri = Uri { value };
        match uri.validate() {
            Ok(()) => Ok(uri),
            Err(e) => Err(e),
        }
    }

    /// Unchecked construction: stores the string as given, with no claim
    /// that it is a well-formed URI.
    pub fn new_unchecked(value: String) -> (r: Uri)
        ensures
            r@ == value@,
    {
        Uri { value }
    }

    /// The stored string, verbatim.
    pub fn as_str(&self) -> (r: &str)
        ensures
            r@ == self@,
    {
        self.value.as_str()
    }

    /// The stored string, verbatim, as an owned value.
    pub fn to_string(&self) -> (r: String)
        ensures
            r@ == self@,
    {
        self.value.clone()
    }

    /// Checks the stored string against the validation rules in their
    /// fixed priority order and reports the first violated rule.
    #[verifier::loop_isolation(false)]
    pub fn validate(&self) -> (r: Result<(), UriError>)
        ensures
            match r {
                Ok(()) => valid_uri(self@),
                Err(e) => spec_validate_uri(self@) == Some(e@),
            },
    {
        let s = self.value.as_str();
        let cs = str_chars(s);
        let n = cs.len();
        if n == 0 {
            return Err(UriError::Empty);
        }
        let mut i: usize = 0;
        while i < n
            invariant
                i <= n,
                forall|j: int| 0 <= j < i ==> !is_control_char(#[trigger] cs@[j]),
            decreases n - i,
        {
            if control_char(cs[i]) {
                return Err(UriError::InvalidCharacters(self.value.clone()));
            }
            i = i + 1;
        }
        if n >= 9 && cs[0] == 'u' && cs[1] == 'r' && cs[2] == 'n' && cs[3] == ':' && cs[4] == 'u'
            && cs[5] == 'u' && cs[6] == 'i' && cs[7] == 'd' && cs[8] == ':' {
            let low = lowercase(s);
            if !(self.value == low) {
                return Err(UriError::UuidNotLowercase(self.value.clone()));
            }
        }
        if !self.format_ok(&cs) {
            return Err(UriError::InvalidFormat(self.value.clone()));
        }
        Ok(())
    }

    /// The trimmed string is non-empty and, when it contains `://`, its
    /// scheme is non-empty and made of scheme characters only.
    #[verifier::loop_isolation(false)]
    fn format_ok(&self, cs: &Vec<char>) -> (r: bool)
        requires
            cs@ == self@,
        ensures
            r == uri_format_ok(self@),
    {
        let n = cs.len();
        let ghost sv = self@;
        // Trim bounds.
        let mut a: usize = 0;
        while a < n && white_space(cs[a])
            invariant
                a <= n,
                forall|j: int| 0 <= j < a ==> is_white_space(sv[j]),
            decreases n - a,
        {
            a = a + 1;
        }
        let mut b: usize = n;
        while b > a && white_space(cs[b - 1])
            invariant
                a <= b <= n,
                forall|j: int| b <= j < n ==> is_white_space(sv[j]),
            decreases b,
        {
            b = b - 1;
        }
        proof {
            lemma_first_non_ws_props(sv, 0);
            lemma_last_non_ws_end_props(sv, sv.len() as int);
            if a < n && b == n {
                assert(first_non_ws(sv, 0) == a) by {
                    if first_non_ws(sv, 0) < a {
                        assert(is_white_space(sv[first_non_ws(sv, 0)]));
                    }
                    if first_non_ws(sv, 0) > a {
                        assert(!is_white_space(sv[a as int]));
                    }
                }
            }
        }
        if a >= b {
            // All white space: the trimmed string is empty.
            proof {
                let ta = first_non_ws(sv, 0);
                let tb = last_non_ws_end(sv, sv.len() as int);
                assert(ta >= tb) by {
                    if ta < tb {
                        assert(!is_white_space(sv[tb - 1]));
                        assert(a == n || !is_white_space(sv[a as int]));
                        if a == n {
                            assert(is_white_space(sv[tb - 1]));
                        } else {
                            assert(b <= tb - 1 < n);
                        }
                    }
                }
                assert(spec_trim(sv).len() == 0);
            }
            return false;
        }
        // a < b: establish the trim bounds exactly.
        proof {
            assert(first_non_ws(sv, 0) == a) by {
                if first_non_ws(sv, 0) < a {
                    assert(is_white_space(sv[first_non_ws(sv, 0)]));
                }
                if first_non_ws(sv, 0) > a {
                    assert(a < sv.len());
                    assert(!is_white_space(sv[a as int]));
                }
            }
            assert(last_non_ws_end(sv, sv.len() as int) == b) by {
                let tb = last_non_ws_end(sv, sv.len() as int);
                if tb < b {
                    assert(is_white_space(sv[tb]) ==> true);
                    assert(tb <= b - 1 < sv.len());
                    assert(is_white_space(sv[b - 1]));
                }
                if tb > b {
                    assert(b <= tb - 1 < sv.len());
                    assert(is_white_space(sv[tb - 1]));
                }
            }
            assert(spec_trim(sv) =~= sv.subrange(a as int, b as int));
        }
        let ghost t = spec_trim(sv);
        // Find the first scheme separator inside the trimmed range.
        let mut k: usize = a;
        let mut found: bool = false;
        while !found && b - k >= 3
            invariant
                a <= k <= b,
                forall|j: int| 0 <= j < k - a ==> !scheme_sep_at(t, j),
                found ==> k + 3 <= b && scheme_sep_at(t, k - a),
            decreases b - k + (if found {
                0int
            } else {
                1int
            }),
        {
            if cs[k] == ':' && cs[k + 1] == '/' && cs[k + 2] == '/' {
                proof {
                    assert(t[k - a] == sv[k as int]);
                    assert(t[k - a + 1] == sv[k as int + 1]);
                    assert(t[k - a + 2] == sv[k as int + 2]);
                    assert(scheme_sep_at(t, k - a));
                }
                found = true;
            } else {
                proof {
                    assert(t[k - a] == sv[k as int]);
                    if k - a + 3 <= t.len() {
                        assert(t[k - a + 1] == sv[k as int + 1]);
                        assert(t[k - a + 2] == sv[k as int + 2]);
                    }
                    assert(!scheme_sep_at(t, k - a));
                }
                k = k + 1;
            }
        }
        proof {
            lemma_find_scheme_sep_props(t, 0);
            if found {
                assert(find_scheme_sep(t, 0) == k - a) by {
                    if find_scheme_sep(t, 0) > k - a {
                        assert(!scheme_sep_at(t, k - a));
                    }
                }
                assert(has_scheme_sep(t));
            } else {
                assert(forall|j: int| 0 <= j ==> !scheme_sep_at(t, j)) by {
                    assert(forall|j: int| j > b - a - 3 ==> !scheme_sep_at(t, j));
                }
                assert(!has_scheme_sep(t));
            }
        }
        if !found {
            return true;
        }
        if k == a {
            // Empty scheme.
            proof {
                assert(!scheme_ok(t));
            }
            return false;
        }
        let mut j: usize = a;
        while j < k
            invariant
                a <= j <= k,
                forall|p: int| 0 <= p < j - a ==> is_scheme_char(#[trigger] t[p]),
            decreases k - j,
        {
            let c = cs[j];
            let ok = alnum_char(c) || c == '+' || c == '-' || c == '.';
            if !ok {
                proof {
                    assert(t[j - a] == sv[j as int]);
                    assert(!is_scheme_char(t[j - a]));
                    assert(!scheme_ok(t));
                }
                return false;
            }
            proof {
                assert(t[j - a] == sv[j as int]);
            }
            j = j + 1;
        }
        proof {
            assert(scheme_ok(t));
        }
        true
    }

    /// The URI is in `urn:uuid:` form.
    pub fn is_uuid(&self) -> (r: bool)
        ensures
            r == starts_with_urn_uuid(self@),
    {
        let s = self.value.as_str();
        let cs = str_chars(s);
        let n = cs.len();
        n >= 9 && cs[0] == 'u' && cs[1] == 'r' && cs[2] == 'n' && cs[3] == ':' && cs[4] == 'u'
            && cs[5] == 'u' && cs[6] == 'i' && cs[7] == 'd' && cs[8] == ':'
    }

    /// The URI is absolute: it contains the scheme separator `://`.
    #[verifier::loop_isolation(false)]
    pub fn is_absolute(&self) -> (r: bool)
        ensures
            r == has_scheme_sep(self@),
    {
        let cs = str_chars(self.value.as_str());
        let n = cs.len();
        let mut i: usize = 0;
        while n - i >= 3
            invariant
                i <= n,
                forall|j: int| 0 <= j < i ==> !scheme_sep_at(self@, j),
            decreases n - i,
        {
            if cs[i] == ':' && cs[i + 1] == '/' && cs[i + 2] == '/' {
                proof {
                    assert(scheme_sep_at(self@, i as int));
                }
                return true;
            }
            i = i + 1;
        }
        proof {
            assert(forall|j: int| j >= i ==> !scheme_sep_at(self@, j));
        }
        false
    }

    /// The URI is relative: it contains no scheme separator.
    pub fn is_relative(&self) -> (r: bool)
        ensures
            r == !has_scheme_sep(self@),
    {
        !self.is_absolute()
    }

    /// The fragment identifier, when the URI has one: the entire part
    /// after the first `#`.
    #[verifier::loop_isolation(false)]
    pub fn fragment(&self) -> (r: Option<&str>)
        ensures
            match r {
                Some(f) => spec_fragment(self@) == Some(f@),
                None => spec_fragment(self@) is None,
            },
    {
        let s = self.value.as_str();
        let cs = str_chars(s);
        let n = cs.len();
        let ghost sv = self@;
        let mut i: usize = 0;
        while i < n && cs[i] != '#'
            invariant
                i <= n,
                forall|j: int| 0 <= j < i ==> sv[j] != '#',
            decreases n - i,
        {
            i = i + 1;
        }
        proof {
            lemma_find_char_props(sv, '#', 0);
            assert(find_char(sv, '#', 0) == i) by {
                if find_char(sv, '#', 0) < i {
                    assert(sv[find_char(sv, '#', 0)] == '#');
                }
                if find_char(sv, '#', 0) > i && i < n {
                    assert(sv[i as int] != '#');
                }
            }
        }
        if i == n {
            return None;
        }
        Some(s.substring_char(i + 1, n))
    }
}

/// Every string that passes URI validation is non-empty, holds no control
/// character, and equals its own lowercasing when it is in `urn:uuid:`
/// form.
pub proof fn lemma_valid_uri_shape(s: Seq<char>)
    requires
        valid_uri(s),
    ensures
        s.len() > 0,
        !has_control_char(s),
        starts_with_urn_uuid(s) ==> s == lower_of(s),
{
}

/// A failed URI validation reports exactly the first rule, in the fixed
/// priority order, that the string violates.
pub proof fn lemma_uri_error_priority(s: Seq<char>)
    ensures
        spec_validate_uri(s) == Some(UriErrorV::Empty) <==> s.len() == 0,
        spec_validate_uri(s) == Some(UriErrorV::InvalidCharacters(s)) <==> (s.len() > 0
            && has_control_char(s)),
        spec_validate_uri(s) == Some(UriErrorV::UuidNotLowercase(s)) <==> (s.len() > 0
            && !has_control_char(s) && starts_with_urn_uuid(s) && s != lower_of(s)),
        spec_validate_uri(s) == Some(UriErrorV::InvalidFormat(s)) <==> (s.len() > 0
            && !has_control_char(s) && !(starts_with_urn_uuid(s) && s != lower_of(s))
            && !uri_format_ok(s)),
        valid_uri(s) <==> (s.len() > 0 && !has_control_char(s) && (starts_with_urn_uuid(s) ==> s
            == lower_of(s)) && uri_format_ok(s)),
{
}

impl Uri {
    /// Encodes the URI as an object holding its string under `value`.
    pub fn encode(&self) -> (r: Json)
        ensures
            r@ == spec_encode_uri(self@),
    {
        let mut entries: Vec<(String, Json)> = Vec::new();
        proof {
            assert(entries_view(entries@) =~= Seq::<(Seq<char>, JsonV)>::empty());
        }
        put_str(&mut entries, "value", self.value.as_str());
        let r = Json::Obj(entries);
        proof {
            assert(r@->Obj_0 =~= spec_encode_uri(self@)->Obj_0);
        }
        r
    }

    /// Decodes a URI from its encoded object form; the stored string is
    /// taken as already validated, as the unchecked constructor does.
    pub fn decode(j: &Json) -> (r: Result<Uri, DecodeError>)
        ensures
            match r {
                Ok(u) => spec_decode_uri(j@) == Ok::<Seq<char>, DecodeError>(u@),
                Err(e) => spec_decode_uri(j@) == Err::<Seq<char>, DecodeError>(e),
            },
    {
        match j {
            Json::Obj(entries) => {
                proof {
                    assert(j@->Obj_0 =~= entries_view(entries@));
                }
                match take_req_str(entries, "value") {
                    Ok(value) => Ok(Uri { value }),
                    Err(e) => Err(e),
                }
            },
            _ => Err(DecodeError::TypeMismatch),
        }
    }
}

/// The encoded form of a URI: an object holding its string under `value`.
pub open spec fn spec_encode_uri(u: Seq<char>) -> JsonV {
    JsonV::Obj(Seq::<(Seq<char>, JsonV)>::empty().push((("value")@, JsonV::Str(u))))
}

/// The decoded reading of a URI.
pub open spec fn spec_decode_uri(j: JsonV) -> Result<Seq<char>, DecodeError> {
    match j {
        JsonV::Obj(o) => spec_req_str(o, ("value")@),
        _ => Err(DecodeError::TypeMismatch),
    }
}

/// Decoding an encoded URI yields the URI back.
pub proof fn lemma_uri_round_trip(u: Seq<char>)
    ensures
        spec_decode_uri(spec_encode_uri(u)) == Ok::<Seq<char>, DecodeError>(u),
{
    broadcast use lemma_lookup_push, lemma_lookup_empty;

    reveal_strlit("value");
}

/// A required `Uri` field of an enclosing object.
pub open spec fn spec_req_uri(o: Seq<(Seq<char>, JsonV)>, k: Seq<char>) -> Result<
    Seq<char>,
    DecodeError,
> {
    match lookup(o, k) {
        Option::None => Err(DecodeError::MissingField),
        Option::Some(jv) => spec_decode_uri(jv),
    }
}

/// Reads a required `Uri` field.
pub fn take_req_uri(entries: &Vec<(String, Json)>, key: &str) -> (r: Result<Uri, DecodeError>)
    ensures
        match r {
            Ok(x) => spec_req_uri(entries_view(entries@), key@) == Ok::<Seq<char>, DecodeError>(
                x@,
            ),
            Err(e) => spec_req_uri(entries_view(entries@), key@) == Err::<Seq<char>, DecodeError>(
                e,
            ),
        },
{
    match Json::obj_get(entries, key) {
        Option::None => Err(DecodeError::MissingField),
        Option::Some(j) => Uri::decode(j),
    }
}

impl core::str::FromStr for Uri {
    type Err = UriError;

    fn from_str(s: &str) -> Result<Uri, UriError> {
        Uri::new(s.to_owned())
    }
}

} // verus!
