//! The `enable`/`disable` argument tokenizer: a free-text argument string of
//! the shape `<command> ... [in <channel> ...] [for <role-or-user> ...]` is
//! partitioned into three optional token lists (commands, channels,
//! role-or-user targets), which are then filtered against validity
//! predicates, an absent list defaulting to the sentinel `all`.
//!
//! The delimiter tokens `in` and `for` are matched by exact literal
//! equality, so a command or channel literally named `in` or `for` cannot
//! be expressed; that limitation is accepted.

use vstd::prelude::*;
use crate::text::split_ws;
use crate::text::split_ws_spec;

verus! {

/// The three token lists a command argument string splits into.
pub struct FilteredArgs {
    pub commands: Option<Vec<String>>,
    pub channels: Option<Vec<String>>,
    pub role_user: Option<Vec<String>>,
}

/// Index of the first occurrence of `w` in `toks`, if any.
pub open spec fn first_index(toks: Seq<Seq<char>>, w: Seq<char>) -> Option<int>
    decreases toks.len(),
{
    if toks.len() == 0 {
        None
    } else if toks[0] == w {
        Some(0int)
    } else {
        match first_index(toks.skip(1), w) {
            None => None,
            Some(i) => Some(i + 1),
        }
    }
}

pub proof fn lemma_first_index_none(toks: Seq<Seq<char>>, w: Seq<char>)
    requires
        forall|k: int| 0 <= k < toks.len() ==> toks[k] != w,
    ensures
        first_index(toks, w) is None,
    decreases toks.len(),
{
    if toks.len() == 0 {
    } else {
        assert(forall|k: int| 0 <= k < toks.skip(1).len() ==> toks.skip(1)[k] == toks[k + 1]);
        lemma_first_index_none(toks.skip(1), w);
    }
}

pub proof fn lemma_first_index_some(toks: Seq<Seq<char>>, w: Seq<char>, i: int)
    requires
        0 <= i < toks.len(),
        toks[i] == w,
        forall|k: int| 0 <= k < i ==> toks[k] != w,
    ensures
        first_index(toks, w) == Some(i),
    decreases toks.len(),
{
    if i == 0 {
    } else {
        assert(forall|k: int| 0 <= k < toks.skip(1).len() ==> toks.skip(1)[k] == toks[k + 1]);
        lemma_first_index_some(toks.skip(1), w, i - 1);
    }
}

pub proof fn lemma_first_index_is_at(toks: Seq<Seq<char>>, w: Seq<char>)
    requires
        first_index(toks, w) is Some,
    ensures
        0 <= first_index(toks, w)->Some_0 < toks.len(),
        toks[first_index(toks, w)->Some_0] == w,
    decreases toks.len(),
{
    if toks.len() == 0 {
    } else if toks[0] == w {
    } else {
        lemma_first_index_is_at(toks.skip(1), w);
    }
}

/// The commands slice of the raw partition of `toks`.
pub open spec fn partition_commands(toks: Seq<Seq<char>>) -> Option<Seq<Seq<char>>> {
    match (first_index(toks, "in"@), first_index(toks, "for"@)) {
        (None, None) => Some(toks),
        (None, Some(f)) => Some(toks.take(f)),
        (Some(i), None) => Some(toks.take(i)),
        (Some(i), Some(f)) => if i > f {
            Some(toks.take(f))
        } else {
            Some(toks.take(i))
        },
    }
}

/// The channels slice of the raw partition of `toks`.
pub open spec fn partition_channels(toks: Seq<Seq<char>>) -> Option<Seq<Seq<char>>> {
    match (first_index(toks, "in"@), first_index(toks, "for"@)) {
        (None, None) => None,
        (None, Some(f)) => None,
        (Some(i), None) => Some(toks.skip(i + 1)),
        (Some(i), Some(f)) => if i > f {
            Some(toks.skip(i + 1))
        } else {
            Some(toks.subrange(i + 1, f))
        },
    }
}

/// The role-or-user slice of the raw partition of `toks`.
pub open spec fn partition_role_user(toks: Seq<Seq<char>>) -> Option<Seq<Seq<char>>> {
    match (first_index(toks, "in"@), first_index(toks, "for"@)) {
        (None, None) => None,
        (None, Some(f)) => Some(toks.skip(f + 1)),
        (Some(i), None) => None,
        (Some(i), Some(f)) => if i > f {
            Some(toks.subrange(f + 1, i))
        } else {
            Some(toks.skip(f + 1))
        },
    }
}

/// Owned copy of the tokens with indices in `[lo, hi)`.
fn copy_range(toks: &Vec<String>, lo: usize, hi: usize) -> (r: Vec<String>)
    requires
        lo <= hi <= toks@.len(),
    ensures
        r.deep_view() == toks.deep_view().subrange(lo as int, hi as int),
{
    let mut r: Vec<String> = Vec::new();
    let mut k: usize = lo;
    proof {
        assert(r.deep_view() =~= toks.deep_view().subrange(lo as int, lo as int));
    }
    while k < hi
        invariant
            lo <= k <= hi <= toks@.len(),
            r.deep_view() == toks.deep_view().subrange(lo as int, k as int),
        decreases hi - k,
    {
        let ghost prev = r.deep_view();
        r.push(toks[k].clone());
        proof {
            assert(r.deep_view() =~= prev.push(toks.deep_view()[k as int]));
            assert(r.deep_view() =~= toks.deep_view().subrange(lo as int, k as int + 1));
        }
        k = k + 1;
    }
    r
}

/// First index at which `w` occurs in `toks`, scanning left to right.
fn find_first(toks: &Vec<String>, w: &String) -> (r: Option<usize>)
    ensures
        match r {
            Some(i) => i < toks@.len() && first_index(toks.deep_view(), w@) == Some(i as int),
            None => first_index(toks.deep_view(), w@) is None,
        },
{
    let n: usize = toks.len();
    let mut k: usize = 0;
    while k < n
        invariant
            n == toks@.len(),
            0 <= k <= n,
            forall|j: int| 0 <= j < k ==> toks.deep_view()[j] != w@,
        decreases n - k,
    {
        if toks[k].eq(w) {
            proof {
                lemma_first_index_some(toks.deep_view(), w@, k as int);
            }
            return Some(k);
        }
        k = k + 1;
    }
    proof {
        lemma_first_index_none(toks.deep_view(), w@);
    }
    None
}

/// Partition a token list at the first `in` and the first `for` delimiter.
///
/// Four shapes arise: neither delimiter, only `in`, only `for`, or both in
/// either order; the slices before, between, and after the delimiters become
/// the command, channel, and role-or-user lists.
pub fn partition_args(toks: &Vec<String>) -> (r: FilteredArgs)
    ensures
        r.commands.deep_view() == partition_commands(toks.deep_view()),
        r.channels.deep_view() == partition_channels(toks.deep_view()),
        r.role_user.deep_view() == partition_role_user(toks.deep_view()),
{
    let in_word: String = "in".to_owned();
    let for_word: String = "for".to_owned();
    let in_idx: Option<usize> = find_first(toks, &in_word);
    let for_idx: Option<usize> = find_first(toks, &for_word);
    let n: usize = toks.len();
    proof {
        assert(toks.deep_view().len() == toks@.len());
    }
    match (in_idx, for_idx) {
        (None, None) => {
            let r = FilteredArgs {
                commands: Some(copy_range(toks, 0, n)),
                channels: None,
                role_user: None,
            };
            proof {
                assert(toks.deep_view().subrange(0, n as int) =~= toks.deep_view());
            }
            r
        },
        (None, Some(f)) => {
            let r = FilteredArgs {
                commands: Some(copy_range(toks, 0, f)),
                channels: None,
                role_user: Some(copy_range(toks, f + 1, n)),
            };
            proof {
                assert(toks.deep_view().subrange(0, f as int) =~= toks.deep_view().take(
                    f as int,
                ));
                assert(toks.deep_view().subrange(f as int + 1, n as int) =~= toks.deep_view().skip(
                    f as int + 1,
                ));
            }
            r
        },
        (Some(i), None) => {
            let r = FilteredArgs {
                commands: Some(copy_range(toks, 0, i)),
                channels: Some(copy_range(toks, i + 1, n)),
                role_user: None,
            };
            proof {
                assert(toks.deep_view().subrange(0, i as int) =~= toks.deep_view().take(
                    i as int,
                ));
                assert(toks.deep_view().subrange(i as int + 1, n as int) =~= toks.deep_view().skip(
                    i as int + 1,
                ));
            }
            r
        },
        (Some(i), Some(f)) => {
            proof {
                reveal_strlit("in");
                reveal_strlit("for");
                lemma_first_index_is_at(toks.deep_view(), "in"@);
                lemma_first_index_is_at(toks.deep_view(), "for"@);
                assert("in"@.len() != "for"@.len());
            }
            if i > f {
                let r = FilteredArgs {
                    commands: Some(copy_range(toks, 0, f)),
                    channels: Some(copy_range(toks, i + 1, n)),
                    role_user: Some(copy_range(toks, f + 1, i)),
                };
                proof {
                    assert(toks.deep_view().subrange(0, f as int) =~= toks.deep_view().take(
                        f as int,
                    ));
                    assert(toks.deep_view().subrange(i as int + 1, n as int)
                        =~= toks.deep_view().skip(i as int + 1));
                }
                r
            } else {
                let r = FilteredArgs {
                    commands: Some(copy_range(toks, 0, i)),
                    channels: Some(copy_range(toks, i + 1, f)),
                    role_user: Some(copy_range(toks, f + 1, n)),
                };
                proof {
                    assert(toks.deep_view().subrange(0, i as int) =~= toks.deep_view().take(
                        i as int,
                    ));
                    assert(toks.deep_view().subrange(f as int + 1, n as int)
                        =~= toks.deep_view().skip(f as int + 1));
                }
                r
            }
        },
    }
}

/// A clause may name its targets with `in` before `for` or the other way
/// round: as long as none of the payload tokens is itself a delimiter word,
/// both orders partition into the same command, channel, and role-or-user
/// lists.
pub proof fn lemma_clause_order_irrelevant(a: Seq<Seq<char>>, b: Seq<Seq<char>>, c: Seq<Seq<char>>)
    requires
        forall|k: int| 0 <= k < a.len() ==> a[k] != "in"@ && a[k] != "for"@,
        forall|k: int| 0 <= k < b.len() ==> b[k] != "in"@ && b[k] != "for"@,
        forall|k: int| 0 <= k < c.len() ==> c[k] != "in"@ && c[k] != "for"@,
    ensures
        ({
            let t1 = a + seq!["in"@] + b + seq!["for"@] + c;
            let t2 = a + seq!["for"@] + c + seq!["in"@] + b;
            partition_commands(t1) == Some(a) && partition_channels(t1) == Some(b)
                && partition_role_user(t1) == Some(c) && partition_commands(t2) == Some(a)
                && partition_channels(t2) == Some(b) && partition_role_user(t2) == Some(c)
        }),
{
    let la = a.len() as int;
    let lb = b.len() as int;
    let lc = c.len() as int;
    let t1 = a + seq!["in"@] + b + seq!["for"@] + c;
    let t2 = a + seq!["for"@] + c + seq!["in"@] + b;
    reveal_strlit("in");
    reveal_strlit("for");
    assert("in"@.len() == 2 && "for"@.len() == 3);

    assert(t1.len() == la + lb + lc + 2);
    assert(t1[la] == "in"@);
    assert(t1[la + 1 + lb] == "for"@);
    assert(forall|k: int| 0 <= k < la ==> t1[k] == a[k]);
    assert(forall|k: int| la + 1 <= k < la + 1 + lb ==> t1[k] == b[k - la - 1]);
    assert(forall|k: int| la + lb + 2 <= k < t1.len() ==> t1[k] == c[k - la - lb - 2]);
    lemma_first_index_some(t1, "in"@, la);
    lemma_first_index_some(t1, "for"@, la + 1 + lb);
    assert(t1.take(la) =~= a);
    assert(t1.subrange(la + 1, la + 1 + lb) =~= b);
    assert(t1.skip(la + 1 + lb + 1) =~= c);

    assert(t2.len() == la + lb + lc + 2);
    assert(t2[la] == "for"@);
    assert(t2[la + 1 + lc] == "in"@);
    assert(forall|k: int| 0 <= k < la ==> t2[k] == a[k]);
    assert(forall|k: int| la + 1 <= k < la + 1 + lc ==> t2[k] == c[k - la - 1]);
    assert(forall|k: int| la + lc + 2 <= k < t2.len() ==> t2[k] == b[k - la - lc - 2]);
    lemma_first_index_some(t2, "for"@, la);
    lemma_first_index_some(t2, "in"@, la + 1 + lc);
    assert(t2.take(la) =~= a);
    assert(t2.subrange(la + 1, la + 1 + lc) =~= c);
    assert(t2.skip(la + 1 + lc + 1) =~= b);
}

/// The registered command names, plus the sentinel `all`.
pub open spec fn is_known_command(t: Seq<char>) -> bool {
    t == "all"@ || t == "ping"@ || t == "say"@ || t == "botinvite"@ || t == "invite"@ || t
        == "enable"@ || t == "disable"@ || t == "prefix"@ || t == "help"@
}

/// A channel reference: `#name`, a channel mention `<#...>`, or the
/// sentinel `all`.
pub open spec fn is_channel_ref(t: Seq<char>) -> bool {
    t == "all"@ || (t.len() >= 2 && t[0] == '#') || (t.len() >= 4 && t[0] == '<' && t[1] == '#'
        && t[t.len() - 1] == '>')
}

/// A role or user reference: `@name`, a mention `<@...>`, or the
/// sentinel `all`.
pub open spec fn is_role_or_user_ref(t: Seq<char>) -> bool {
    t == "all"@ || (t.len() >= 2 && t[0] == '@') || (t.len() >= 4 && t[0] == '<' && t[1] == '@'
        && t[t.len() - 1] == '>')
}

fn str_eq(a: &str, b: &str) -> (r: bool)
    ensures
        r == (a@ == b@),
{
    let sa: String = a.to_owned();
    sa.eq(&b.to_owned())
}

/// Decide whether a token names a registered command (or `all`).
pub fn check_command(t: &str) -> (r: bool)
    ensures
        r == is_known_command(t@),
{
    str_eq(t, "all") || str_eq(t, "ping") || str_eq(t, "say") || str_eq(t, "botinvite") || str_eq(
        t,
        "invite",
    ) || str_eq(t, "enable") || str_eq(t, "disable") || str_eq(t, "prefix") || str_eq(t, "help")
}

/// Decide whether a token is a channel reference (or `all`).
pub fn check_channel(t: &str) -> (r: bool)
    ensures
        r == is_channel_ref(t@),
{
    if str_eq(t, "all") {
        return true;
    }
    let n: usize = t.unicode_len();
    if n >= 2 && t.get_char(0) == '#' {
        return true;
    }
    n >= 4 && t.get_char(0) == '<' && t.get_char(1) == '#' && t.get_char(n - 1) == '>'
}

/// Decide whether a token is a role or user reference (or `all`).
pub fn check_role_or_user(t: &str) -> (r: bool)
    ensures
        r == is_role_or_user_ref(t@),
{
    if str_eq(t, "all") {
        return true;
    }
    let n: usize = t.unicode_len();
    if n >= 2 && t.get_char(0) == '@' {
        return true;
    }
    n >= 4 && t.get_char(0) == '<' && t.get_char(1) == '@' && t.get_char(n - 1) == '>'
}

/// The tokens of `ts` that name a registered command, in order.
pub open spec fn keep_commands(ts: Seq<Seq<char>>) -> Seq<Seq<char>>
    decreases ts.len(),
{
    if ts.len() == 0 {
        seq![]
    } else {
        let init = keep_commands(ts.drop_last());
        if is_known_command(ts.last()) {
            init.push(ts.last())
        } else {
            init
        }
    }
}

/// The tokens of `ts` that are channel references, in order.
pub open spec fn keep_channels(ts: Seq<Seq<char>>) -> Seq<Seq<char>>
    decreases ts.len(),
{
    if ts.len() == 0 {
        seq![]
    } else {
        let init = keep_channels(ts.drop_last());
        if is_channel_ref(ts.last()) {
            init.push(ts.last())
        } else {
            init
        }
    }
}

/// The tokens of `ts` that are role or user references, in order.
pub open spec fn keep_role_user(ts: Seq<Seq<char>>) -> Seq<Seq<char>>
    decreases ts.len(),
{
    if ts.len() == 0 {
        seq![]
    } else {
        let init = keep_role_user(ts.drop_last());
        if is_role_or_user_ref(ts.last()) {
            init.push(ts.last())
        } else {
            init
        }
    }
}

fn retain_commands(ts: &Vec<String>) -> (r: Vec<String>)
    ensures
        r.deep_view() == keep_commands(ts.deep_view()),
{
    let mut r: Vec<String> = Vec::new();
    let mut k: usize = 0;
    proof {
        assert(ts.deep_view().take(0) =~= Seq::<Seq<char>>::empty());
    }
    while k < ts.len()
        invariant
            0 <= k <= ts@.len(),
            r.deep_view() == keep_commands(ts.deep_view().take(k as int)),
        decreases ts@.len() - k,
    {
        let ghost prev = r.deep_view();
        if check_command(ts[k].as_str()) {
            r.push(ts[k].clone());
        }
        proof {
            let dv = ts.deep_view();
            assert(dv.take(k as int + 1).drop_last() =~= dv.take(k as int));
            assert(dv.take(k as int + 1).last() == dv[k as int]);
            if is_known_command(dv[k as int]) {
                assert(r.deep_view() =~= prev.push(dv[k as int]));
            }
        }
        k = k + 1;
    }
    proof {
        assert(ts.deep_view().take(ts@.len() as int) =~= ts.deep_view());
    }
    r
}

fn retain_channels(ts: &Vec<String>) -> (r: Vec<String>)
    ensures
        r.deep_view() == keep_channels(ts.deep_view()),
{
    let mut r: Vec<String> = Vec::new();
    let mut k: usize = 0;
    proof {
        assert(ts.deep_view().take(0) =~= Seq::<Seq<char>>::empty());
    }
    while k < ts.len()
        invariant
            0 <= k <= ts@.len(),
            r.deep_view() == keep_channels(ts.deep_view().take(k as int)),
        decreases ts@.len() - k,
    {
        let ghost prev = r.deep_view();
        if check_channel(ts[k].as_str()) {
            r.push(ts[k].clone());
        }
        proof {
            let dv = ts.deep_view();
            assert(dv.take(k as int + 1).drop_last() =~= dv.take(k as int));
            assert(dv.take(k as int + 1).last() == dv[k as int]);
            if is_channel_ref(dv[k as int]) {
                assert(r.deep_view() =~= prev.push(dv[k as int]));
            }
        }
        k = k + 1;
    }
    proof {
        assert(ts.deep_view().take(ts@.len() as int) =~= ts.deep_view());
    }
    r
}

fn retain_role_user(ts: &Vec<String>) -> (r: Vec<String>)
    ensures
        r.deep_view() == keep_role_user(ts.deep_view()),
{
    let mut r: Vec<String> = Vec::new();
    let mut k: usize = 0;
    proof {
        assert(ts.deep_view().take(0) =~= Seq::<Seq<char>>::empty());
    }
    while k < ts.len()
        invariant
            0 <= k <= ts@.len(),
            r.deep_view() == keep_role_user(ts.deep_view().take(k as int)),
        decreases ts@.len() - k,
    {
        let ghost prev = r.deep_view();
        if check_role_or_user(ts[k].as_str()) {
            r.push(ts[k].clone());
        }
        proof {
            let dv = ts.deep_view();
            assert(dv.take(k as int + 1).drop_last() =~= dv.take(k as int));
            assert(dv.take(k as int + 1).last() == dv[k as int]);
            if is_role_or_user_ref(dv[k as int]) {
                assert(r.deep_view() =~= prev.push(dv[k as int]));
            }
        }
        k = k + 1;
    }
    proof {
        assert(ts.deep_view().take(ts@.len() as int) =~= ts.deep_view());
    }
    r
}

/// An absent token list defaults to the sentinel `all`.
pub open spec fn default_all(o: Option<Seq<Seq<char>>>) -> Seq<Seq<char>> {
    match o {
        Some(ts) => ts,
        None => seq!["all"@],
    }
}

fn or_all(o: Option<Vec<String>>) -> (r: Vec<String>)
    ensures
        r.deep_view() == default_all(o.deep_view()),
{
    match o {
        Some(v) => v,
        None => {
            let mut v: Vec<String> = Vec::new();
            v.push("all".to_owned());
            proof {
                assert(v.deep_view() =~= seq!["all"@]);
            }
            v
        },
    }
}

/// The command list after partitioning, defaulting, and filtering.
pub open spec fn filtered_commands(toks: Seq<Seq<char>>) -> Seq<Seq<char>> {
    keep_commands(default_all(partition_commands(toks)))
}

/// The channel list after partitioning, defaulting, and filtering.
pub open spec fn filtered_channels(toks: Seq<Seq<char>>) -> Seq<Seq<char>> {
    keep_channels(default_all(partition_channels(toks)))
}

/// The role-or-user list after partitioning, defaulting, and filtering.
pub open spec fn filtered_role_user(toks: Seq<Seq<char>>) -> Seq<Seq<char>> {
    keep_role_user(default_all(partition_role_user(toks)))
}

/// Partition a token list at the delimiters, default absent lists to the
/// sentinel `all`, and keep only the tokens each list's validity predicate
/// accepts.
pub fn filter_args(toks: &Vec<String>) -> (r: FilteredArgs)
    ensures
        r.commands.deep_view() == Some(filtered_commands(toks.deep_view())),
        r.channels.deep_view() == Some(filtered_channels(toks.deep_view())),
        r.role_user.deep_view() == Some(filtered_role_user(toks.deep_view())),
{
    let p = partition_args(toks);
    let cs: Vec<String> = or_all(p.commands);
    let chs: Vec<String> = or_all(p.channels);
    let rus: Vec<String> = or_all(p.role_user);
    FilteredArgs {
        commands: Some(retain_commands(&cs)),
        channels: Some(retain_channels(&chs)),
        role_user: Some(retain_role_user(&rus)),
    }
}

/// Split an argument string into tokens, partition, default, and filter.
pub fn tokenize_args(input: &str) -> (r: FilteredArgs)
    ensures
        r.commands.deep_view() == Some(filtered_commands(split_ws_spec(input@))),
        r.channels.deep_view() == Some(filtered_channels(split_ws_spec(input@))),
        r.role_user.deep_view() == Some(filtered_role_user(split_ws_spec(input@))),
{
    let toks: Vec<String> = split_ws(input);
    filter_args(&toks)
}

} // verus!
