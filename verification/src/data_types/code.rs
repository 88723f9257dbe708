//! The `Code` primitive: a validated string holding one or more
//! non-whitespace tokens separated by single spaces.
use crate::text::{find_char, is_white_space, lemma_find_char_props, str_chars, white_space};
use vstd::prelude::*;

verus! {

/// The ways a string can fail `Code` validation, one kind per rule.
#[derive(Debug, Clone, Copy, PartialEq, Eq, Structural)]
pub enum CodeError {
    Empty,
    LeadingTrailingWhitespace,
    MultipleSpaces,
    InvalidWhitespace,
    InvalidPattern,
}

/// Some character of `s` is a tab, line feed or carriage return.
pub open spec fn has_tab_nl_cr(s: Seq<char>) -> bool {
    exists|i: int|
        0 <= i < s.len() && (s[i] == '\u{0009}' || s[i] == '\u{000a}' || s[i] == '\u{000d}')
}

/// Two spaces stand next to each other somewhere in `s`.
pub open spec fn has_double_space(s: Seq<char>) -> bool {
    exists|i: int| 0 <= i && i + 1 < s.len() && #[trigger] s[i] == ' ' && s[i + 1] == ' '
}

/// `s` is non-empty and begins or ends with white space; exactly when
/// trimming would change it.
pub open spec fn has_edge_white_space(s: Seq<char>) -> bool {
    s.len() > 0 && (is_white_space(s[0]) || is_white_space(s[s.len() - 1]))
}

/// Some character of `s` is a space.
pub open spec fn has_space(s: Seq<char>) -> bool {
    exists|i: int| 0 <= i < s.len() && s[i] == ' '
}

/// The token pattern: one or more runs of non-whitespace characters
/// separated by single spaces.
pub open spec fn code_pattern_ok(s: Seq<char>) -> bool {
    s.len() > 0 && s[0] != ' ' && s[s.len() - 1] != ' ' && !has_double_space(s) && (forall|i: int|
        0 <= i < s.len() && is_white_space(s[i]) ==> s[i] == ' ')
}

/// The validation rules for a code, in their fixed priority order: the
/// result is the kind of the first rule that `s` violates, or `None` when
/// `s` is a well-formed code.
pub open spec fn spec_validate_code(s: Seq<char>) -> Option<CodeError> {
    if s.len() == 0 {
        Some(CodeError::Empty)
    } else if has_edge_white_space(s) {
        Some(CodeError::LeadingTrailingWhitespace)
    } else if has_tab_nl_cr(s) {
        Some(CodeError::InvalidWhitespace)
    } else if has_double_space(s) {
        Some(CodeError::MultipleSpaces)
    } else if !code_pattern_ok(s) {
        Some(CodeError::InvalidPattern)
    } else {
        None
    }
}

/// `s` passes every validation rule for a code.
pub open spec fn valid_code(s: Seq<char>) -> bool {
    spec_validate_code(s) is None
}

/// The segments of `s` between its spaces, in order; splitting on single
/// spaces, so consecutive spaces yield empty segments.
pub open spec fn spec_tokens(s: Seq<char>) -> Seq<Seq<char>>
    decreases s.len(),
{
    let k = find_char(s, ' ', 0);
    if 0 <= k < s.len() {
        seq![s.subrange(0, k)] + spec_tokens(s.subrange(k + 1, s.len() as int))
    } else {
        seq![s]
    }
}

/// The number of tokens of `s`.
pub open spec fn spec_token_count(s: Seq<char>) -> nat {
    spec_tokens(s).len()
}

/// `s` is a single token: it holds no space.
pub open spec fn spec_is_single_token(s: Seq<char>) -> bool {
    !has_space(s)
}

/// `s` holds several tokens: it holds a space.
pub open spec fn spec_is_multi_token(s: Seq<char>) -> bool {
    has_space(s)
}

/// A value from a controlled set of strings: at least one character, no
/// leading or trailing whitespace, and no whitespace other than single
/// spaces in the contents.
#[derive(Debug, Clone, PartialEq, Eq, PartialOrd, Ord, Hash)]
pub struct Code {
    value: String,
}

impl View for Code {
    type V = Seq<char>;

    closed spec fn view(&self) -> Seq<char> {
        self.value@
    }
}

impl Code {
    /// Validating construction: succeeds exactly on well-formed codes and
    /// otherwise reports the first violated rule.
    pub fn new(value: String) -> (r: Result<Code, CodeError>)
        ensures
            match r {
                Ok(c) => valid_code(value@) && c@ == value@,
                Err(e) => spec_validate_code(value@) == Some(e),
            },
    {
        let code = Code { value };
        match code.validate() {
            Ok(()) => Ok(code),
            Err(e) => Err(e),
        }
    }

    /// Unchecked construction: stores the string as given, with no claim
    /// that it is a well-formed code.
    pub fn new_unchecked(value: String) -> (r: Code)
        ensures
            r@ == value@,
    {
        Code { value }
    }

    /// The stored string, verbatim.
    pub fn as_str(&self) -> (r: &str)
        ensures
            r@ == self@,
    {
        self.value.as_str()
    }

    /// The stored string, verbatim, as an owned value.
    pub fn to_string(&self) -> (r: String)
        ensures
            r@ == self@,
    {
        self.value.clone()
    }

    /// Checks the stored string against the validation rules in their
    /// fixed priority order and reports the first violated rule.
    #[verifier::loop_isolation(false)]
    pub fn validate(&self) -> (r: Result<(), CodeError>)
        ensures
            match r {
                Ok(()) => valid_code(self@),
                Err(e) => spec_validate_code(self@) == Some(e),
            },
    {
        let cs = str_chars(self.value.as_str());
        let n = cs.len();
        if n == 0 {
            return Err(CodeError::Empty);
        }
        if white_space(cs[0]) || white_space(cs[n - 1]) {
            return Err(CodeError::LeadingTrailingWhitespace);
        }
        let mut i: usize = 0;
        while i < n
            invariant
                i <= n,
                forall|j: int|
                    0 <= j < i ==> !(cs@[j] == '\u{0009}' || cs@[j] == '\u{000a}' || cs@[j]
                        == '\u{000d}'),
            decreases n - i,
        {
            let c = cs[i];
            if c == '\t' || c == '\n' || c == '\r' {
                return Err(CodeError::InvalidWhitespace);
            }
            i = i + 1;
        }
        let mut i: usize = 0;
        while i + 1 < n
            invariant
                i < n,
                forall|j: int|
                    0 <= j && j + 1 < i + 1 ==> !(#[trigger] cs@[j] == ' ' && cs@[j + 1] == ' '),
            decreases n - i,
        {
            if cs[i] == ' ' && cs[i + 1] == ' ' {
                return Err(CodeError::MultipleSpaces);
            }
            i = i + 1;
        }
        let mut i: usize = 0;
        while i < n
            invariant
                i <= n,
                forall|j: int| 0 <= j < i ==> (is_white_space(cs@[j]) ==> cs@[j] == ' '),
            decreases n - i,
        {
            let c = cs[i];
            if white_space(c) && c != ' ' {
                proof {
                    assert(is_white_space(self@[i as int]) && self@[i as int] != ' ');
                    assert(!code_pattern_ok(self@));
                }
                return Err(CodeError::InvalidPattern);
            }
            i = i + 1;
        }
        Ok(())
    }

    /// The tokens of the code, split on single spaces, in order.
    #[verifier::loop_isolation(false)]
    pub fn tokens(&self) -> (r: Vec<&str>)
        ensures
            r.deep_view() == spec_tokens(self@),
    {
        let s = self.value.as_str();
        let cs = str_chars(s);
        let n = cs.len();
        let mut r: Vec<&str> = Vec::new();
        let mut start: usize = 0;
        let mut i: usize = 0;
        proof {
            assert(s@.subrange(0, n as int) =~= s@);
            assert(r.deep_view() + spec_tokens(s@) =~= spec_tokens(s@));
        }
        while i < n
            invariant
                start <= i <= n,
                forall|j: int| start <= j < i ==> cs@[j] != ' ',
                spec_tokens(s@) == r.deep_view() + spec_tokens(
                    s@.subrange(start as int, n as int),
                ),
            decreases n - i,
        {
            if cs[i] == ' ' {
                let tok = s.substring_char(start, i);
                let ghost r0 = r.deep_view();
                let ghost rest = s@.subrange(start as int, n as int);
                proof {
                    lemma_tokens_split(rest, i - start);
                    assert(rest.subrange(0, i - start) =~= s@.subrange(start as int, i as int));
                    assert(rest.subrange(i - start + 1, rest.len() as int) =~= s@.subrange(
                        i as int + 1,
                        n as int,
                    ));
                }
                r.push(tok);
                proof {
                    assert(r.deep_view() =~= r0 + seq![tok@]);
                    assert((r0 + seq![tok@]) + spec_tokens(s@.subrange(i as int + 1, n as int))
                        =~= r0 + (seq![tok@] + spec_tokens(s@.subrange(i as int + 1, n as int))));
                }
                start = i + 1;
            }
            i = i + 1;
        }
        let tok = s.substring_char(start, n);
        let ghost r0 = r.deep_view();
        proof {
            lemma_tokens_no_space(s@.subrange(start as int, n as int));
        }
        r.push(tok);
        proof {
            assert(r.deep_view() =~= r0 + seq![tok@]);
            assert(r.deep_view() =~= spec_tokens(s@));
        }
        r
    }

    /// The number of tokens of the code.
    pub fn token_count(&self) -> (r: usize)
        ensures
            r == spec_token_count(self@),
    {
        self.tokens().len()
    }

    /// The code holds exactly one token: it contains no space.
    pub fn is_single_token(&self) -> (r: bool)
        ensures
            r == spec_is_single_token(self@),
    {
        !self.contains_space()
    }

    /// The code holds more than one token: it contains a space.
    pub fn is_multi_token(&self) -> (r: bool)
        ensures
            r == spec_is_multi_token(self@),
    {
        self.contains_space()
    }

    #[verifier::loop_isolation(false)]
    fn contains_space(&self) -> (r: bool)
        ensures
            r == has_space(self@),
    {
        let cs = str_chars(self.value.as_str());
        let n = cs.len();
        let mut i: usize = 0;
        while i < n
            invariant
                i <= n,
                forall|j: int| 0 <= j < i ==> cs@[j] != ' ',
            decreases n - i,
        {
            if cs[i] == ' ' {
                proof {
                    assert(self@[i as int] == ' ');
                }
                return true;
            }
            i = i + 1;
        }
        false
    }
}

/// There is at least one token in any split.
proof fn lemma_tokens_nonempty(s: Seq<char>)
    ensures
        spec_tokens(s).len() >= 1,
    decreases s.len(),
{
    let k = find_char(s, ' ', 0);
    if 0 <= k < s.len() {
        lemma_tokens_nonempty(s.subrange(k + 1, s.len() as int));
    }
}

/// Every token of a sequence that matches the code pattern is non-empty
/// and free of whitespace.
proof fn lemma_tokens_of_pattern(s: Seq<char>)
    requires
        code_pattern_ok(s),
    ensures
        forall|k: int| 0 <= k < spec_tokens(s).len() ==> (#[trigger] spec_tokens(s)[k]).len() > 0,
        forall|k: int, j: int|
            0 <= k < spec_tokens(s).len() && 0 <= j < spec_tokens(s)[k].len()
                ==> !is_white_space(#[trigger] spec_tokens(s)[k][j]),
    decreases s.len(),
{
    let k = find_char(s, ' ', 0);
    lemma_find_char_props(s, ' ', 0);
    if 0 <= k < s.len() {
        let t0 = s.subrange(0, k);
        let rest = s.subrange(k + 1, s.len() as int);
        assert(s[k] == ' ');
        assert(k > 0);
        assert(k + 1 < s.len()) by {
            assert(s[s.len() - 1] != ' ');
        }
        assert(rest[0] == s[k + 1]);
        assert(s[k + 1] != ' ') by {
            assert(!(s[k] == ' ' && s[k + 1] == ' '));
        }
        assert(code_pattern_ok(rest)) by {
            assert(rest[rest.len() - 1] == s[s.len() - 1]);
            assert(forall|i: int|
                0 <= i && i + 1 < rest.len() ==> !(#[trigger] rest[i] == ' ' && rest[i + 1]
                    == ' ')) by {
                assert(forall|i: int|
                    0 <= i && i + 1 < rest.len() ==> #[trigger] rest[i] == s[k + 1 + i] && rest[i
                        + 1] == s[k + 1 + i + 1]);
            }
            assert(forall|i: int|
                0 <= i < rest.len() && is_white_space(#[trigger] rest[i]) ==> rest[i] == ' ') by {
                assert(forall|i: int| 0 <= i < rest.len() ==> rest[i] == s[k + 1 + i]);
            }
        }
        lemma_tokens_of_pattern(rest);
        assert(forall|j: int| 0 <= j < t0.len() ==> !is_white_space(#[trigger] t0[j])) by {
            assert(forall|j: int| 0 <= j < t0.len() ==> t0[j] == s[j] && s[j] != ' ');
        }
        assert(forall|kk: int|
            1 <= kk < spec_tokens(s).len() ==> #[trigger] spec_tokens(s)[kk] == spec_tokens(
                rest,
            )[kk - 1]);
    } else {
        assert(spec_tokens(s) == seq![s]);
        assert(forall|j: int| 0 <= j < s.len() ==> s[j] != ' ');
        assert(forall|j: int| 0 <= j < s.len() ==> !is_white_space(#[trigger] s[j]));
    }
}

/// Every string that passes code validation is non-empty, begins and ends
/// with non-whitespace (so trimming leaves it unchanged), holds no tab,
/// line feed or carriage return, holds no two consecutive spaces, and
/// splits on single spaces into non-empty, whitespace-free tokens.
pub proof fn lemma_valid_code_shape(s: Seq<char>)
    requires
        valid_code(s),
    ensures
        s.len() > 0,
        !is_white_space(s[0]),
        !is_white_space(s[s.len() - 1]),
        !has_tab_nl_cr(s),
        !has_double_space(s),
        forall|k: int| 0 <= k < spec_tokens(s).len() ==> (#[trigger] spec_tokens(s)[k]).len() > 0,
        forall|k: int, j: int|
            0 <= k < spec_tokens(s).len() && 0 <= j < spec_tokens(s)[k].len()
                ==> !is_white_space(#[trigger] spec_tokens(s)[k][j]),
{
    lemma_tokens_of_pattern(s);
}

/// A failed code validation reports exactly the first rule, in the fixed
/// priority order, that the string violates.
pub proof fn lemma_code_error_priority(s: Seq<char>)
    ensures
        spec_validate_code(s) == Some(CodeError::Empty) <==> s.len() == 0,
        spec_validate_code(s) == Some(CodeError::LeadingTrailingWhitespace) <==> (s.len() > 0
            && has_edge_white_space(s)),
        spec_validate_code(s) == Some(CodeError::InvalidWhitespace) <==> (s.len() > 0
            && !has_edge_white_space(s) && has_tab_nl_cr(s)),
        spec_validate_code(s) == Some(CodeError::MultipleSpaces) <==> (s.len() > 0
            && !has_edge_white_space(s) && !has_tab_nl_cr(s) && has_double_space(s)),
        spec_validate_code(s) == Some(CodeError::InvalidPattern) <==> (s.len() > 0
            && !has_edge_white_space(s) && !has_tab_nl_cr(s) && !has_double_space(s)
            && !code_pattern_ok(s)),
        valid_code(s) <==> (s.len() > 0 && !has_edge_white_space(s) && !has_tab_nl_cr(s)
            && !has_double_space(s) && code_pattern_ok(s)),
{
}

/// For every code value, the token count equals the number of tokens, the
/// single-token and multi-token classifications are opposites, and a code
/// is a single token exactly when it splits into one token.
pub proof fn lemma_code_token_consistency(s: Seq<char>)
    ensures
        spec_token_count(s) == spec_tokens(s).len(),
        spec_is_single_token(s) == !spec_is_multi_token(s),
        spec_is_single_token(s) <==> spec_tokens(s).len() == 1,
{
    let k = find_char(s, ' ', 0);
    lemma_find_char_props(s, ' ', 0);
    if 0 <= k < s.len() {
        lemma_tokens_nonempty(s.subrange(k + 1, s.len() as int));
        assert(s[k] == ' ');
    } else {
        assert(forall|j: int| 0 <= j < s.len() ==> s[j] != ' ');
    }
}

/// The tokens of a space-free sequence are that sequence alone.
proof fn lemma_tokens_no_space(s: Seq<char>)
    requires
        forall|j: int| 0 <= j < s.len() ==> s[j] != ' ',
    ensures
        spec_tokens(s) == seq![s],
{
    lemma_find_char_props(s, ' ', 0);
}

/// When the first space of `s` stands at `k`, the tokens of `s` are the
/// prefix before `k` followed by the tokens of the rest.
proof fn lemma_tokens_split(s: Seq<char>, k: int)
    requires
        0 <= k < s.len(),
        forall|j: int| 0 <= j < k ==> s[j] != ' ',
        s[k] == ' ',
    ensures
        spec_tokens(s) == seq![s.subrange(0, k)] + spec_tokens(s.subrange(k + 1, s.len() as int)),
{
    lemma_find_char_props(s, ' ', 0);
    assert(find_char(s, ' ', 0) == k) by {
        if find_char(s, ' ', 0) < k {
            assert(s[find_char(s, ' ', 0)] == ' ');
        }
    }
}

impl core::str::FromStr for Code {
    type Err = CodeError;

    fn from_str(s: &str) -> Result<Code, CodeError> {
        Code::new(s.to_owned())
    }
}

} // verus!
