//! Plain-text helpers: whitespace tokenization of a command's argument
//! string, and stripping the quote characters that a serialized prefix
//! value carries.

use vstd::prelude::*;

verus! {

/// The whitespace characters that separate argument tokens.
pub open spec fn is_ws_char(c: char) -> bool {
    c == ' ' || c == '\t' || c == '\n' || c == '\r'
}

/// Length of the maximal leading run of non-whitespace characters.
pub open spec fn token_len(s: Seq<char>) -> nat
    decreases s.len(),
{
    if s.len() == 0 || is_ws_char(s[0]) {
        0
    } else {
        1 + token_len(s.skip(1))
    }
}

/// The sequence of maximal non-whitespace runs of `s`, in order.
pub open spec fn split_ws_spec(s: Seq<char>) -> Seq<Seq<char>>
    decreases s.len(),
    via split_ws_spec_decreases
{
    if s.len() == 0 {
        seq![]
    } else if is_ws_char(s[0]) {
        split_ws_spec(s.skip(1))
    } else {
        seq![s.take(token_len(s) as int)] + split_ws_spec(s.skip(token_len(s) as int))
    }
}

#[via_fn]
proof fn split_ws_spec_decreases(s: Seq<char>) {
    if s.len() > 0 && !is_ws_char(s[0]) {
        lemma_token_len_le(s);
        assert(token_len(s) >= 1);
    }
}

pub proof fn lemma_token_len_le(s: Seq<char>)
    ensures
        token_len(s) <= s.len(),
    decreases s.len(),
{
    if s.len() == 0 || is_ws_char(s[0]) {
    } else {
        lemma_token_len_le(s.skip(1));
    }
}

/// A maximal run of exactly `j` non-whitespace characters starts the string.
pub proof fn lemma_token_len_run(s: Seq<char>, j: int)
    requires
        0 <= j <= s.len(),
        forall|k: int| 0 <= k < j ==> !is_ws_char(s[k]),
        j == s.len() || is_ws_char(s[j]),
    ensures
        token_len(s) == j,
    decreases j,
{
    if j == 0 {
    } else {
        assert(!is_ws_char(s[0]));
        assert(forall|k: int| 0 <= k < j - 1 ==> s.skip(1)[k] == s[k + 1]);
        lemma_token_len_run(s.skip(1), j - 1);
    }
}

/// Decide whether a character separates argument tokens.
pub fn is_ws(c: char) -> (r: bool)
    ensures
        r == is_ws_char(c),
{
    c == ' ' || c == '\t' || c == '\n' || c == '\r'
}

/// Index just past the maximal non-whitespace run starting at `start`.
fn token_end(s: &str, start: usize) -> (j: usize)
    requires
        start < s@.len(),
        !is_ws_char(s@[start as int]),
    ensures
        start < j <= s@.len(),
        forall|k: int| start <= k < j ==> !is_ws_char(s@[k]),
        j < s@.len() ==> is_ws_char(s@[j as int]),
{
    let n: usize = s.unicode_len();
    let mut j: usize = start + 1;
    while j < n && !is_ws(s.get_char(j))
        invariant
            n == s@.len(),
            start < j <= n,
            forall|k: int| start <= k < j ==> !is_ws_char(s@[k]),
        decreases n - j,
    {
        j = j + 1;
    }
    j
}

/// Split a string into its whitespace-separated tokens, in order.
pub fn split_ws(s: &str) -> (r: Vec<String>)
    ensures
        r.deep_view() == split_ws_spec(s@),
{
    let n: usize = s.unicode_len();
    let mut out: Vec<String> = Vec::new();
    let mut i: usize = 0;
    proof {
        assert(out.deep_view() =~= Seq::<Seq<char>>::empty());
        assert(s@.skip(0) =~= s@);
        assert(out.deep_view() + split_ws_spec(s@) =~= split_ws_spec(s@));
    }
    while i < n
        invariant
            n == s@.len(),
            0 <= i <= n,
            split_ws_spec(s@) == out.deep_view() + split_ws_spec(s@.skip(i as int)),
        decreases n - i,
    {
        let c = s.get_char(i);
        if is_ws(c) {
            proof {
                let ss = s@.skip(i as int);
                assert(ss[0] == s@[i as int]);
                assert(ss.skip(1) =~= s@.skip(i as int + 1));
            }
            i = i + 1;
        } else {
            let ghost prev = out.deep_view();
            let j: usize = token_end(s, i);
            let tok: &str = s.substring_char(i, j);
            out.push(tok.to_owned());
            proof {
                let ss = s@.skip(i as int);
                assert(forall|k: int| 0 <= k < j - i ==> ss[k] == s@[k + i]);
                assert(j - i < ss.len() ==> ss[j - i] == s@[j as int]);
                lemma_token_len_run(ss, j - i);
                assert(ss.take(j - i) =~= s@.subrange(i as int, j as int));
                assert(ss.skip(j - i) =~= s@.skip(j as int));
                assert(out.deep_view() =~= prev.push(tok@));
                assert(out.deep_view() + split_ws_spec(s@.skip(j as int)) =~= prev
                    + split_ws_spec(ss));
            }
            i = j;
        }
    }
    proof {
        assert(split_ws_spec(s@.skip(n as int)) =~= Seq::<Seq<char>>::empty());
        assert(out.deep_view() + Seq::<Seq<char>>::empty() =~= out.deep_view());
    }
    out
}

/// What `strip_quotes` returns: the string without its surrounding
/// double quotes when both are present, otherwise the string itself.
pub open spec fn strip_quotes_spec(s: Seq<char>) -> Seq<char> {
    if s.len() >= 2 && s[0] == '"' && s[s.len() - 1] == '"' {
        s.subrange(1, s.len() - 1)
    } else {
        s
    }
}

/// Remove one pair of surrounding double quotes, if present.
pub fn strip_quotes(s: &str) -> (r: String)
    ensures
        r@ == strip_quotes_spec(s@),
{
    let n: usize = s.unicode_len();
    if n >= 2 && s.get_char(0) == '"' && s.get_char(n - 1) == '"' {
        let inner: &str = s.substring_char(1, n - 1);
        String::from_str(inner)
    } else {
        s.to_owned()
    }
}

} // verus!
