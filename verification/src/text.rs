//! Helpers for moving between string slices and character vectors,
//! and for splitting space-separated text into tokens.

use vstd::prelude::*;
use vstd::std_specs::iter::IteratorSpec;

verus! {

broadcast use vstd::string::next_postcondition;

/// Collects the characters of a string slice into a vector.
pub fn chars_of(s: &str) -> (out: Vec<char>)
    ensures
        out@ == s@,
{
    let mut it = s.chars();
    let mut out: Vec<char> = Vec::new();
    loop
        invariant
            it.obeys_prophetic_iter_laws(),
            it.decrease() is Some,
            out@ + it.remaining() == s@,
        ensures
            out@ == s@,
        decreases it.decrease()->0,
    {
        match it.next() {
            Some(c) => {
                out.push(c);
                assert(out@ + it.remaining() =~= s@);
            }
            None => {
                assert(out@ =~= s@);
                break ;
            }
        }
    }
    out
}

/// The whitespace characters stripped from the ends of a hand's text.
pub open spec fn is_space(c: char) -> bool {
    c == ' ' || c == '\n' || c == '\t' || c == '\r'
}

/// Runtime counterpart of `is_space`.
pub fn is_space_char(c: char) -> (b: bool)
    ensures
        b == is_space(c),
{
    c == ' ' || c == '\n' || c == '\t' || c == '\r'
}

/// The given characters with leading and trailing whitespace removed.
pub open spec fn trim_sp(s: Seq<char>) -> Seq<char>
    decreases s.len(),
{
    if s.len() == 0 {
        s
    } else if is_space(s[0]) {
        trim_sp(s.drop_first())
    } else if is_space(s[s.len() - 1]) {
        trim_sp(s.drop_last())
    } else {
        s
    }
}

/// `trim_sp` is exactly the subrange that discards the spaces at both ends.
proof fn lemma_trim_subrange(s: Seq<char>, lo: int, hi: int)
    requires
        0 <= lo <= hi <= s.len(),
        forall|k: int| 0 <= k < lo ==> is_space(#[trigger] s[k]),
        forall|k: int| hi <= k < s.len() ==> is_space(#[trigger] s[k]),
        lo < hi ==> !is_space(s[lo]) && !is_space(s[hi - 1]),
    ensures
        trim_sp(s) == s.subrange(lo, hi),
    decreases s.len(),
{
    if s.len() == 0 {
        assert(trim_sp(s) =~= s.subrange(lo, hi));
    } else if lo > 0 {
        assert(is_space(s[0]));
        let t = s.drop_first();
        assert(forall|k: int| 0 <= k < lo - 1 ==> is_space(#[trigger] t[k]));
        assert(forall|k: int| hi - 1 <= k < t.len() ==> is_space(#[trigger] t[k]));
        lemma_trim_subrange(t, lo - 1, hi - 1);
        assert(t.subrange(lo - 1, hi - 1) =~= s.subrange(lo, hi));
    } else if hi < s.len() {
        assert(is_space(s[s.len() - 1]));
        if is_space(s[0]) {
            assert(lo == hi);
            let t = s.drop_first();
            assert(forall|k: int| 0 <= k < t.len() ==> is_space(#[trigger] t[k])) by {
                assert(forall|k: int| 0 <= k < t.len() ==> t[k] == s[k + 1]);
            }
            lemma_trim_subrange(t, 0, 0);
            assert(t.subrange(0, 0) =~= s.subrange(lo, hi));
        } else {
            let t = s.drop_last();
            assert(forall|k: int| hi <= k < t.len() ==> is_space(#[trigger] t[k]));
            lemma_trim_subrange(t, lo, hi);
            assert(t.subrange(lo, hi) =~= s.subrange(lo, hi));
        }
    } else {
        assert(lo == 0 && hi == s.len());
        if lo < hi {
            assert(!is_space(s[0]));
            assert(!is_space(s[s.len() - 1]));
            assert(trim_sp(s) == s);
        } else {
            assert(s.len() == 0);
        }
        assert(trim_sp(s) =~= s.subrange(lo, hi));
    }
}

/// Strips leading and trailing whitespace from a character vector.
pub fn trim_chars(v: &Vec<char>) -> (out: Vec<char>)
    ensures
        out@ == trim_sp(v@),
{
    let n = v.len();
    let mut lo: usize = 0;
    while lo < n && is_space_char(v[lo])
        invariant
            0 <= lo <= n == v@.len(),
            forall|k: int| 0 <= k < lo ==> is_space(#[trigger] v@[k]),
        decreases n - lo,
    {
        lo = lo + 1;
    }
    let mut hi: usize = n;
    while hi > lo && is_space_char(v[hi - 1])
        invariant
            lo <= hi <= n == v@.len(),
            forall|k: int| hi <= k < n ==> is_space(#[trigger] v@[k]),
        decreases hi,
    {
        hi = hi - 1;
    }
    let mut out: Vec<char> = Vec::new();
    let mut i: usize = lo;
    while i < hi
        invariant
            lo <= i <= hi <= v@.len(),
            out@ == v@.subrange(lo as int, i as int),
        decreases hi - i,
    {
        out.push(v[i]);
        assert(out@ =~= v@.subrange(lo as int, i + 1));
        i = i + 1;
    }
    proof {
        lemma_trim_subrange(v@, lo as int, hi as int);
    }
    out
}

/// The given characters split on single spaces. Splitting always yields
/// at least one token; a space at either end or two spaces in a row
/// yield empty tokens, as the game's text encoding never contains them.
pub open spec fn split_sp(s: Seq<char>) -> Seq<Seq<char>>
    decreases s.len(),
{
    if s.len() == 0 {
        seq![Seq::<char>::empty()]
    } else if s[0] == ' ' {
        seq![Seq::<char>::empty()] + split_sp(s.drop_first())
    } else {
        let r = split_sp(s.drop_first());
        r.update(0, seq![s[0]] + r[0])
    }
}

/// The tokens joined back together with single spaces.
pub open spec fn join_sp(ts: Seq<Seq<char>>) -> Seq<char>
    decreases ts.len(),
{
    if ts.len() == 0 {
        Seq::<char>::empty()
    } else if ts.len() == 1 {
        ts[0]
    } else {
        ts[0] + seq![' '] + join_sp(ts.drop_first())
    }
}

/// Splitting always yields at least one token.
pub proof fn lemma_split_len(s: Seq<char>)
    ensures
        split_sp(s).len() >= 1,
    decreases s.len(),
{
    if s.len() == 0 {
    } else if s[0] == ' ' {
        lemma_split_len(s.drop_first());
    } else {
        lemma_split_len(s.drop_first());
    }
}

/// Joining the tokens of a split gives back the original characters.
pub proof fn lemma_join_split(s: Seq<char>)
    ensures
        join_sp(split_sp(s)) == s,
    decreases s.len(),
{
    if s.len() == 0 {
        assert(join_sp(split_sp(s)) =~= s);
    } else if s[0] == ' ' {
        let rest = s.drop_first();
        lemma_join_split(rest);
        lemma_split_len(rest);
        let ts = seq![Seq::<char>::empty()] + split_sp(rest);
        assert(ts.len() >= 2);
        assert(ts.drop_first() =~= split_sp(rest));
        assert(join_sp(ts) =~= s);
    } else {
        let rest = s.drop_first();
        lemma_join_split(rest);
        lemma_split_len(rest);
        let r = split_sp(rest);
        let ts = r.update(0, seq![s[0]] + r[0]);
        if r.len() == 1 {
            assert(join_sp(ts) == ts[0]);
            assert(join_sp(r) == r[0]);
            assert(join_sp(ts) =~= s);
        } else {
            assert(ts.drop_first() =~= r.drop_first());
            assert(join_sp(ts) == ts[0] + seq![' '] + join_sp(ts.drop_first()));
            assert(join_sp(r) == r[0] + seq![' '] + join_sp(r.drop_first()));
            assert(join_sp(ts) =~= seq![s[0]] + join_sp(r));
            assert(seq![s[0]] + join_sp(r) =~= s);
        }
    }
}

/// Text without any whitespace at either end is already trimmed.
pub proof fn lemma_trim_id(s: Seq<char>)
    requires
        s.len() == 0 || (!is_space(s[0]) && !is_space(s[s.len() - 1])),
    ensures
        trim_sp(s) == s,
{
}

/// Splitting spaceless text yields that text as the only token.
proof fn lemma_split_spaceless(s: Seq<char>)
    requires
        forall|j: int| 0 <= j < s.len() ==> s[j] != ' ',
    ensures
        split_sp(s) == seq![s],
    decreases s.len(),
{
    if s.len() == 0 {
        assert(split_sp(s) =~~= seq![s]);
    } else {
        assert(s[0] != ' ');
        let t = s.drop_first();
        assert(forall|j: int| 0 <= j < t.len() ==> t[j] == s[j + 1]);
        lemma_split_spaceless(t);
        let r = split_sp(t);
        assert(r.update(0, seq![s[0]] + r[0]) =~~= seq![s]);
    }
}

/// A spaceless token followed by a space splits off as the first
/// token of the rest.
proof fn lemma_split_prepend(t0: Seq<char>, s: Seq<char>)
    requires
        forall|j: int| 0 <= j < t0.len() ==> t0[j] != ' ',
    ensures
        split_sp(t0 + seq![' '] + s) == seq![t0] + split_sp(s),
    decreases t0.len(),
{
    let whole = t0 + seq![' '] + s;
    if t0.len() == 0 {
        assert(whole[0] == ' ');
        assert(whole.drop_first() =~= s);
        assert(split_sp(whole) =~~= seq![t0] + split_sp(s));
    } else {
        assert(whole[0] == t0[0]);
        assert(whole[0] != ' ');
        let t = t0.drop_first();
        assert(forall|j: int| 0 <= j < t.len() ==> t[j] == t0[j + 1]);
        assert(whole.drop_first() =~= t + seq![' '] + s);
        lemma_split_prepend(t, s);
        let r = split_sp(t + seq![' '] + s);
        assert(r == seq![t] + split_sp(s));
        lemma_split_len(s);
        assert(r[0] == t);
        assert(split_sp(whole) == r.update(0, seq![t0[0]] + t));
        assert(seq![t0[0]] + t =~= t0);
        assert(r.update(0, t0) =~~= seq![t0] + split_sp(s));
    }
}

/// Splitting the space-joined tokens gives the tokens back, as long
/// as every token is nonempty and spaceless.
pub proof fn lemma_split_join(ts: Seq<Seq<char>>)
    requires
        ts.len() >= 1,
        forall|k: int, j: int|
            0 <= k < ts.len() && 0 <= j < ts[k].len() ==> #[trigger] ts[k][j] != ' ',
    ensures
        split_sp(join_sp(ts)) == ts,
    decreases ts.len(),
{
    if ts.len() == 1 {
        lemma_split_spaceless(ts[0]);
        assert(split_sp(join_sp(ts)) =~~= ts);
    } else {
        let rest = ts.drop_first();
        assert(forall|k: int, j: int|
            0 <= k < rest.len() && 0 <= j < rest[k].len() ==> rest[k][j] == ts[k + 1][j]);
        lemma_split_join(rest);
        lemma_split_prepend(ts[0], join_sp(rest));
        assert(join_sp(ts) == ts[0] + seq![' '] + join_sp(rest));
        assert(seq![ts[0]] + split_sp(join_sp(rest)) =~~= ts);
    }
}

/// The token list with the first token extended at its front.
pub open spec fn with_first(ts: Seq<Seq<char>>, pre: Seq<char>) -> Seq<Seq<char>> {
    ts.update(0, pre + ts[0])
}

/// Splits a character vector on single spaces. The result has
/// `split_sp(v@).len()` tokens and token `k` reads `split_sp(v@)[k]`.
pub fn split_chars(v: &Vec<char>) -> (out: Vec<Vec<char>>)
    ensures
        out@.len() == split_sp(v@).len(),
        forall|k: int| 0 <= k < out@.len() ==> (#[trigger] out@[k])@ == split_sp(v@)[k],
{
    let ghost s = v@;
    let n = v.len();
    let mut out: Vec<Vec<char>> = Vec::new();
    let mut cur: Vec<char> = Vec::new();
    let ghost mut done: Seq<Seq<char>> = Seq::empty();
    proof {
        lemma_split_len(s);
        assert(s.skip(0) =~= s);
        assert(done + with_first(split_sp(s), Seq::<char>::empty()) =~~= split_sp(s));
    }
    let mut i: usize = 0;
    while i < n
        invariant
            0 <= i <= n == s.len(),
            v@ == s,
            done == out@.map_values(|t: Vec<char>| t@),
            split_sp(s) == done + with_first(split_sp(s.skip(i as int)), cur@),
        decreases n - i,
    {
        let ghost tail = split_sp(s.skip(i + 1));
        proof {
            lemma_split_len(s.skip(i + 1));
            assert(s.skip(i as int)[0] == s[i as int]);
            assert(s.skip(i as int).drop_first() =~= s.skip(i + 1));
        }
        let c = v[i];
        if c == ' ' {
            proof {
                assert(split_sp(s.skip(i as int)) == seq![Seq::<char>::empty()] + tail);
                assert(with_first(split_sp(s.skip(i as int)), cur@) =~~= seq![cur@]
                    + with_first(tail, Seq::<char>::empty()));
                assert(done + with_first(split_sp(s.skip(i as int)), cur@) =~~= done.push(cur@)
                    + with_first(tail, Seq::<char>::empty()));
            }
            let ghost curv = cur@;
            let ghost out0 = out@;
            out.push(cur);
            cur = Vec::new();
            proof {
                done = done.push(curv);
                assert(out@.map_values(|t: Vec<char>| t@) =~= out0.map_values(
                    |t: Vec<char>| t@,
                ).push(curv));
            }
        } else {
            proof {
                assert(split_sp(s.skip(i as int)) == tail.update(0, seq![s[i as int]] + tail[0]));
                assert(with_first(split_sp(s.skip(i as int)), cur@) =~~= with_first(
                    tail,
                    cur@.push(c),
                ));
            }
            cur.push(c);
        }
        i = i + 1;
    }
    proof {
        assert(s.skip(n as int) =~= Seq::<char>::empty());
        assert(split_sp(s) =~~= done.push(cur@)) by {
            assert(with_first(split_sp(Seq::<char>::empty()), cur@) =~~= seq![cur@]);
        }
    }
    let ghost curv = cur@;
    let ghost out0 = out@;
    out.push(cur);
    proof {
        assert(out@.map_values(|t: Vec<char>| t@) =~= out0.map_values(|t: Vec<char>| t@).push(
            curv,
        ));
        assert(forall|k: int|
            0 <= k < out@.len() ==> (#[trigger] out@[k])@ == out@.map_values(|t: Vec<char>| t@)[k]);
    }
    out
}

} // verus!
