//! Characters and small string utilities: the whitespace set that separates
//! tokens, string equality, and trimming.

use vstd::prelude::*;

verus! {

/// The whitespace characters that separate tokens on a command line:
/// the ASCII blank characters.
pub open spec fn is_shell_whitespace(c: char) -> bool {
    c == ' ' || c == '\t' || c == '\n' || c == '\r' || c == '\u{b}' || c == '\u{c}'
}

/// Executable test for [`is_shell_whitespace`].
pub fn shell_whitespace(c: char) -> (r: bool)
    ensures
        r == is_shell_whitespace(c),
{
    c == ' ' || c == '\t' || c == '\n' || c == '\r' || c == '\u{b}' || c == '\u{c}'
}

/// Exact string equality, character by character.
pub fn str_eq(a: &str, b: &str) -> (r: bool)
    ensures
        r == (a@ == b@),
{
    let alen = a.unicode_len();
    let blen = b.unicode_len();
    if alen != blen {
        return false;
    }
    let mut i: usize = 0;
    while i < alen
        invariant
            alen == a@.len(),
            alen == b@.len(),
            i <= alen,
            forall|j: int| 0 <= j < i ==> a@[j] == b@[j],
        decreases alen - i,
    {
        if a.get_char(i) != b.get_char(i) {
            return false;
        }
        i += 1;
    }
    proof {
        assert(a@ =~= b@);
    }
    true
}

/// How many whitespace characters the text starts with.
pub open spec fn leading_ws_len(s: Seq<char>) -> nat
    decreases s.len(),
{
    if s.len() == 0 || !is_shell_whitespace(s[0]) {
        0
    } else {
        1 + leading_ws_len(s.skip(1))
    }
}

/// How many whitespace characters the text ends with.
pub open spec fn trailing_ws_len(s: Seq<char>) -> nat
    decreases s.len(),
{
    if s.len() == 0 || !is_shell_whitespace(s[s.len() - 1]) {
        0
    } else {
        1 + trailing_ws_len(s.take(s.len() - 1))
    }
}

/// The text with leading and trailing whitespace removed.
pub open spec fn spec_trim(s: Seq<char>) -> Seq<char> {
    if leading_ws_len(s) == s.len() {
        Seq::empty()
    } else {
        s.subrange(leading_ws_len(s) as int, s.len() - trailing_ws_len(s))
    }
}

/// The leading run of whitespace is whitespace throughout, no longer than
/// the text, and ends at the first non-whitespace character.
pub proof fn lemma_leading_ws(s: Seq<char>)
    ensures
        leading_ws_len(s) <= s.len(),
        forall|j: int| 0 <= j < leading_ws_len(s) ==> is_shell_whitespace(s[j]),
        leading_ws_len(s) < s.len() ==> !is_shell_whitespace(s[leading_ws_len(s) as int]),
    decreases s.len(),
{
    if s.len() == 0 || !is_shell_whitespace(s[0]) {
    } else {
        lemma_leading_ws(s.skip(1));
        assert(forall|j: int| 1 <= j < leading_ws_len(s) ==> s[j] == s.skip(1)[j - 1]);
        if leading_ws_len(s) < s.len() {
            assert(s[leading_ws_len(s) as int] == s.skip(1)[leading_ws_len(s.skip(1)) as int]);
        }
    }
}

/// The trailing run of whitespace is whitespace throughout, no longer than
/// the text, and begins after the last non-whitespace character.
pub proof fn lemma_trailing_ws(s: Seq<char>)
    ensures
        trailing_ws_len(s) <= s.len(),
        forall|j: int| s.len() - trailing_ws_len(s) <= j < s.len() ==> is_shell_whitespace(s[j]),
        trailing_ws_len(s) < s.len() ==> !is_shell_whitespace(
            s[s.len() - trailing_ws_len(s) - 1],
        ),
    decreases s.len(),
{
    if s.len() == 0 || !is_shell_whitespace(s[s.len() - 1]) {
    } else {
        lemma_trailing_ws(s.take(s.len() - 1));
        assert(forall|j: int| 0 <= j < s.len() - 1 ==> s[j] == s.take(s.len() - 1)[j]);
    }
}

/// The text with leading and trailing whitespace removed, as an owned string.
pub fn trim(s: &str) -> (r: String)
    ensures
        r@ == spec_trim(s@),
{
    let n = s.unicode_len();
    let mut a: usize = 0;
    while a < n && shell_whitespace(s.get_char(a))
        invariant
            n == s@.len(),
            a <= n,
            forall|j: int| 0 <= j < a ==> is_shell_whitespace(s@[j]),
        decreases n - a,
    {
        a += 1;
    }
    proof {
        lemma_leading_ws(s@);
        // two candidate run lengths that both stop at a non-whitespace
        // character (or the end) must agree
        assert(leading_ws_len(s@) == a) by {
            if leading_ws_len(s@) < a {
                assert(is_shell_whitespace(s@[leading_ws_len(s@) as int]));
            }
            if a < leading_ws_len(s@) {
                assert(is_shell_whitespace(s@[a as int]));
            }
        }
    }
    if a == n {
        return String::new();
    }
    let mut b: usize = n;
    while b > a && shell_whitespace(s.get_char(b - 1))
        invariant
            n == s@.len(),
            a < n,
            a <= b <= n,
            !is_shell_whitespace(s@[a as int]),
            forall|j: int| b <= j < n ==> is_shell_whitespace(s@[j]),
        decreases b,
    {
        b -= 1;
    }
    proof {
        lemma_trailing_ws(s@);
        assert(trailing_ws_len(s@) == n - b) by {
            if trailing_ws_len(s@) < n - b {
                // then position n - trailing - 1 lies in [b, n) yet is not whitespace
                assert(is_shell_whitespace(s@[s@.len() - trailing_ws_len(s@) - 1]));
            }
            if n - b < trailing_ws_len(s@) {
                // then position b - 1 lies in the trailing run: b - 1 >= n - trailing
                if b > a {
                    assert(is_shell_whitespace(s@[b - 1]));
                } else {
                    assert(is_shell_whitespace(s@[a as int]));
                }
            }
        }
    }
    let piece = s.substring_char(a, b);
    let r = String::from_str(piece);
    proof {
        assert(r@ =~= spec_trim(s@));
    }
    r
}

} // verus!
