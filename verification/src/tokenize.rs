//! Splitting a command line into whitespace-separated tokens.

use crate::text::is_shell_whitespace;
use crate::text::shell_whitespace;
use vstd::prelude::*;

verus! {

/// The length of the leading run of non-whitespace characters.
pub open spec fn token_run(s: Seq<char>) -> nat
    decreases s.len(),
{
    if s.len() == 0 || is_shell_whitespace(s[0]) {
        0
    } else {
        1 + token_run(s.skip(1))
    }
}

/// The leading token never runs past the end of the text.
pub proof fn lemma_token_run_le(s: Seq<char>)
    ensures
        token_run(s) <= s.len(),
    decreases s.len(),
{
    if s.len() == 0 || is_shell_whitespace(s[0]) {
    } else {
        lemma_token_run_le(s.skip(1));
    }
}

/// A run of non-whitespace characters that stops at whitespace (or at the
/// end) is the leading token run.
pub proof fn lemma_token_run_is(s: Seq<char>, k: int)
    requires
        0 <= k <= s.len(),
        forall|m: int| 0 <= m < k ==> !is_shell_whitespace(s[m]),
        k == s.len() || is_shell_whitespace(s[k]),
    ensures
        token_run(s) == k,
    decreases k,
{
    if k == 0 {
    } else {
        assert(!is_shell_whitespace(s[0]));
        assert(forall|m: int| 0 <= m < k - 1 ==> s.skip(1)[m] == s[m + 1]);
        if k < s.len() {
            assert(s.skip(1)[k - 1] == s[k]);
        }
        lemma_token_run_is(s.skip(1), k - 1);
    }
}

/// The whitespace-separated tokens of a command line, in order.
pub open spec fn spec_tokens(s: Seq<char>) -> Seq<Seq<char>>
    decreases s.len(),
    via spec_tokens_decreases
{
    if s.len() == 0 {
        Seq::empty()
    } else if is_shell_whitespace(s[0]) {
        spec_tokens(s.skip(1))
    } else {
        seq![s.take(token_run(s) as int)] + spec_tokens(s.skip(token_run(s) as int))
    }
}

#[via_fn]
proof fn spec_tokens_decreases(s: Seq<char>) {
    if s.len() > 0 && !is_shell_whitespace(s[0]) {
        lemma_token_run_le(s);
    }
}

/// Law: a line of nothing but whitespace has no tokens at all, so the
/// dispatcher leaves it alone.
pub proof fn lemma_all_whitespace_no_tokens(s: Seq<char>)
    requires
        forall|i: int| 0 <= i < s.len() ==> is_shell_whitespace(s[i]),
    ensures
        spec_tokens(s).len() == 0,
    decreases s.len(),
{
    if s.len() > 0 {
        assert(forall|i: int| 0 <= i < s.skip(1).len() ==> s.skip(1)[i] == s[i + 1]);
        lemma_all_whitespace_no_tokens(s.skip(1));
    }
}

/// Splits a line into its whitespace-separated tokens.
pub fn tokenize(line: &str) -> (r: Vec<String>)
    ensures
        r.deep_view() == spec_tokens(line@),
{
    let n = line.unicode_len();
    let mut toks: Vec<String> = Vec::new();
    let mut i: usize = 0;
    proof {
        assert(line@.skip(0) =~= line@);
        assert(toks.deep_view() =~= Seq::<Seq<char>>::empty());
        assert(toks.deep_view() + spec_tokens(line@) =~= spec_tokens(line@));
    }
    while i < n
        invariant
            n == line@.len(),
            i <= n,
            spec_tokens(line@) == toks.deep_view() + spec_tokens(line@.skip(i as int)),
        decreases n - i,
    {
        let c = line.get_char(i);
        if shell_whitespace(c) {
            proof {
                assert(line@.skip(i as int).skip(1) =~= line@.skip(i + 1));
                assert(spec_tokens(line@.skip(i as int)) == spec_tokens(line@.skip(i + 1)));
            }
            i += 1;
        } else {
            let ghost prev = toks.deep_view();
            let mut j: usize = i;
            while j < n && !shell_whitespace(line.get_char(j))
                invariant
                    n == line@.len(),
                    i <= j <= n,
                    forall|m: int| i <= m < j ==> !is_shell_whitespace(line@[m]),
                decreases n - j,
            {
                j += 1;
            }
            let tok = String::from_str(line.substring_char(i, j));
            toks.push(tok);
            proof {
                let rest = line@.skip(i as int);
                assert(forall|m: int| 0 <= m < j - i ==> rest[m] == line@[i + m]);
                if j < n {
                    assert(rest[j - i] == line@[j as int]);
                }
                lemma_token_run_is(rest, j - i);
                assert(rest.take(j - i) =~= line@.subrange(i as int, j as int));
                assert(rest.skip(j - i) =~= line@.skip(j as int));
                assert(spec_tokens(rest) == seq![line@.subrange(i as int, j as int)]
                    + spec_tokens(line@.skip(j as int)));
                assert(toks.deep_view() =~= prev.push(line@.subrange(i as int, j as int)));
                assert(toks.deep_view() + spec_tokens(line@.skip(j as int)) =~= prev + seq![
                    line@.subrange(i as int, j as int),
                ] + spec_tokens(line@.skip(j as int)));
                assert(spec_tokens(line@) == toks.deep_view() + spec_tokens(line@.skip(j as int)));
            }
            i = j;
        }
    }
    proof {
        assert(line@.skip(n as int).len() == 0);
        assert(spec_tokens(line@) =~= toks.deep_view());
    }
    toks
}

} // verus!
