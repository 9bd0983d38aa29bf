//! Text utilities for description resolution.
//!
//! A target's description is assembled from the free-text documentation lines
//! attached to the function: each line is trimmed of surrounding whitespace
//! and the lines are joined with newlines in source order. This module holds
//! the verified trimming and joining primitives, and the proof that
//! description resolution is idempotent.

use vstd::prelude::*;

verus! {

/// Whitespace characters stripped from the ends of a documentation line.
pub open spec fn is_space_char(c: char) -> bool {
    c == ' ' || c == '\t' || c == '\r' || c == '\n'
}

/// The sequence with leading whitespace removed.
pub open spec fn trim_front(s: Seq<char>) -> Seq<char>
    decreases s.len(),
{
    if s.len() > 0 && is_space_char(s[0]) {
        trim_front(s.drop_first())
    } else {
        s
    }
}

/// The sequence with trailing whitespace removed.
pub open spec fn trim_back(s: Seq<char>) -> Seq<char>
    decreases s.len(),
{
    if s.len() > 0 && is_space_char(s.last()) {
        trim_back(s.drop_last())
    } else {
        s
    }
}

/// The sequence with whitespace removed from both ends.
pub open spec fn trim_spec(s: Seq<char>) -> Seq<char> {
    trim_back(trim_front(s))
}

/// Trimmed lines joined with a newline between each pair of neighbours.
pub open spec fn join_lines(lines: Seq<Seq<char>>) -> Seq<char>
    decreases lines.len(),
{
    if lines.len() == 0 {
        Seq::empty()
    } else if lines.len() == 1 {
        lines[0]
    } else {
        lines[0] + seq!['\n'] + join_lines(lines.drop_first())
    }
}

/// Index of the first newline in `s`, or `s.len()` if there is none.
pub open spec fn find_nl(s: Seq<char>) -> nat
    decreases s.len(),
{
    if s.len() == 0 {
        0
    } else if s[0] == '\n' {
        0
    } else {
        1 + find_nl(s.drop_first())
    }
}

pub proof fn lemma_find_nl(s: Seq<char>)
    ensures
        find_nl(s) <= s.len(),
        forall|j: int| 0 <= j < find_nl(s) ==> s[j] != '\n',
        find_nl(s) < s.len() ==> s[find_nl(s) as int] == '\n',
    decreases s.len(),
{
    if s.len() > 0 && s[0] != '\n' {
        let t = s.drop_first();
        lemma_find_nl(t);
        assert forall|j: int| 0 <= j < find_nl(s) implies s[j] != '\n' by {
            if j > 0 {
                assert(s[j] == t[j - 1]);
            }
        }
    }
}

#[via_fn]
proof fn split_lines_decreases(s: Seq<char>) {
    lemma_find_nl(s);
}

/// Splits `s` at each newline; the newlines themselves are dropped.
/// A sequence without newlines yields itself as its only segment.
pub open spec fn split_lines(s: Seq<char>) -> Seq<Seq<char>>
    decreases s.len(),
    via split_lines_decreases
{
    if find_nl(s) == s.len() {
        seq![s]
    } else {
        seq![s.subrange(0, find_nl(s) as int)] + split_lines(
            s.subrange(find_nl(s) as int + 1, s.len() as int),
        )
    }
}

/// Resolves documentation lines into one description: each line trimmed,
/// then all lines joined with newlines in source order.
pub open spec fn resolve_lines(lines: Seq<Seq<char>>) -> Seq<char> {
    join_lines(lines.map_values(|l: Seq<char>| trim_spec(l)))
}

// ---
// Properties of trimming
// ---

pub proof fn lemma_trim_front_subrange(s: Seq<char>, i: int)
    requires
        0 <= i <= s.len(),
        forall|j: int| 0 <= j < i ==> is_space_char(s[j]),
        i == s.len() || !is_space_char(s[i]),
    ensures
        trim_front(s) =~= s.subrange(i, s.len() as int),
    decreases i,
{
    if i == 0 {
        assert(trim_front(s) =~= s.subrange(0, s.len() as int));
    } else {
        let t = s.drop_first();
        assert(forall|j: int| 0 <= j < i - 1 ==> is_space_char(#[trigger] t[j]));
        lemma_trim_front_subrange(t, i - 1);
    }
}

pub proof fn lemma_trim_back_subrange(s: Seq<char>, i: int)
    requires
        0 <= i <= s.len(),
        forall|j: int| i <= j < s.len() ==> is_space_char(s[j]),
        i == 0 || !is_space_char(s[i - 1]),
    ensures
        trim_back(s) =~= s.subrange(0, i),
    decreases s.len() - i,
{
    if i == s.len() {
        assert(trim_back(s) =~= s.subrange(0, s.len() as int));
    } else {
        let t = s.drop_last();
        assert(forall|j: int| i <= j < t.len() ==> is_space_char(#[trigger] t[j]));
        lemma_trim_back_subrange(t, i);
    }
}

/// A trimmed sequence neither starts nor ends with whitespace.
pub proof fn lemma_trim_ends(s: Seq<char>)
    ensures
        trim_front(s).len() > 0 ==> !is_space_char(trim_front(s)[0]),
        trim_back(s).len() > 0 ==> !is_space_char(trim_back(s).last()),
    decreases s.len(),
{
    if s.len() > 0 {
        lemma_trim_ends(s.drop_first());
        lemma_trim_ends(s.drop_last());
    }
}

/// Trimming the back keeps the first character, or empties the sequence.
pub proof fn lemma_trim_back_prefix(s: Seq<char>)
    ensures
        trim_back(s).len() > 0 ==> trim_back(s)[0] == s[0],
        trim_back(s).len() <= s.len(),
    decreases s.len(),
{
    if s.len() > 0 && is_space_char(s.last()) {
        lemma_trim_back_prefix(s.drop_last());
    }
}

/// Trimming keeps every character of the result inside the original, so a
/// trimmed line contains no newline when the original's interior has none;
/// stated here in the form needed below: trimming is idempotent.
pub proof fn lemma_trim_idempotent(s: Seq<char>)
    ensures
        trim_spec(trim_spec(s)) == trim_spec(s),
{
    let t = trim_spec(s);
    lemma_trim_ends(trim_front(s));
    lemma_trim_back_prefix(trim_front(s));
    lemma_trim_ends(s);
    // t neither starts nor ends with whitespace, so both trims leave it alone.
    assert(trim_front(t) == t);
    assert(trim_back(t) == t);
}

// ---
// Properties of joining and splitting
// ---

pub proof fn lemma_join_push(lines: Seq<Seq<char>>, x: Seq<char>)
    requires
        lines.len() >= 1,
    ensures
        join_lines(lines.push(x)) == join_lines(lines) + seq!['\n'] + x,
    decreases lines.len(),
{
    if lines.len() == 1 {
        let p = lines.push(x);
        assert(p.len() == 2);
        assert(p[0] == lines[0]);
        assert(p.drop_first() =~= seq![x]);
        assert(join_lines(seq![x]) == x);
        assert(join_lines(p) == p[0] + seq!['\n'] + join_lines(p.drop_first()));
        assert(join_lines(p) == lines[0] + seq!['\n'] + x);
    } else {
        let p = lines.push(x);
        assert(p.drop_first() =~= lines.drop_first().push(x));
        lemma_join_push(lines.drop_first(), x);
        assert(join_lines(p) == p[0] + seq!['\n'] + join_lines(lines.drop_first().push(x)));
        assert(join_lines(lines) + seq!['\n'] + x == lines[0] + seq!['\n'] + (join_lines(
            lines.drop_first(),
        ) + seq!['\n'] + x)) by {
            assert(join_lines(lines) == lines[0] + seq!['\n'] + join_lines(lines.drop_first()));
            assert((lines[0] + seq!['\n'] + join_lines(lines.drop_first())) + seq!['\n'] + x
                =~= lines[0] + seq!['\n'] + (join_lines(lines.drop_first()) + seq!['\n'] + x));
        }
    }
}

proof fn lemma_find_nl_no_nl(s: Seq<char>)
    requires
        forall|j: int| 0 <= j < s.len() ==> s[j] != '\n',
    ensures
        find_nl(s) == s.len(),
    decreases s.len(),
{
    if s.len() > 0 {
        let t = s.drop_first();
        assert(forall|j: int| 0 <= j < t.len() ==> #[trigger] t[j] != '\n');
        lemma_find_nl_no_nl(t);
    }
}

proof fn lemma_find_nl_concat(a: Seq<char>, b: Seq<char>)
    requires
        forall|j: int| 0 <= j < a.len() ==> a[j] != '\n',
    ensures
        find_nl(a + seq!['\n'] + b) == a.len(),
    decreases a.len(),
{
    let s = a + seq!['\n'] + b;
    if a.len() == 0 {
        assert(s[0] == '\n');
    } else {
        assert(s[0] == a[0]);
        assert(s[0] != '\n');
        let t = a.drop_first();
        assert(forall|j: int| 0 <= j < t.len() ==> #[trigger] t[j] != '\n');
        lemma_find_nl_concat(t, b);
        assert(s.drop_first() =~= t + seq!['\n'] + b);
    }
}

/// Splitting a newline-join recovers the joined segments, provided no
/// segment contains a newline of its own.
pub proof fn lemma_split_join(lines: Seq<Seq<char>>)
    requires
        lines.len() >= 1,
        forall|k: int, j: int|
            0 <= k < lines.len() && 0 <= j < lines[k].len() ==> lines[k][j] != '\n',
    ensures
        split_lines(join_lines(lines)) == lines,
    decreases lines.len(),
{
    if lines.len() == 1 {
        let s = join_lines(lines);
        assert(s == lines[0]);
        assert(forall|j: int| 0 <= j < s.len() ==> s[j] != '\n');
        lemma_find_nl_no_nl(s);
        assert(split_lines(s) =~= lines);
    } else {
        let rest = lines.drop_first();
        let s = join_lines(lines);
        assert(s == lines[0] + seq!['\n'] + join_lines(rest));
        lemma_find_nl_concat(lines[0], join_lines(rest));
        let i = lines[0].len() as int;
        assert(find_nl(s) == i);
        lemma_find_nl(s);
        assert(find_nl(s) < s.len());
        assert(s.subrange(0, i) =~= lines[0]);
        assert(s.subrange(i + 1, s.len() as int) =~= join_lines(rest));
        assert(forall|k: int, j: int|
            0 <= k < rest.len() && 0 <= j < rest[k].len() ==> #[trigger] rest[k][j] != '\n');
        lemma_split_join(rest);
        assert(split_lines(s) =~= seq![lines[0]] + rest);
        assert(seq![lines[0]] + rest =~= lines);
    }
}

/// LAW: description resolution is idempotent. Resolving documentation lines
/// trims each line and joins them with newlines; feeding the resolved text's
/// lines through resolution again yields the identical description, as long
/// as no line keeps a newline of its own after trimming.
pub proof fn lemma_description_resolution_idempotent(lines: Seq<Seq<char>>)
    requires
        forall|k: int, j: int|
            0 <= k < lines.len() && 0 <= j < trim_spec(lines[k]).len() ==> trim_spec(
                lines[k],
            )[j] != '\n',
    ensures
        resolve_lines(split_lines(resolve_lines(lines))) == resolve_lines(lines),
{
    let ts = lines.map_values(|l: Seq<char>| trim_spec(l));
    if lines.len() == 0 {
        assert(ts.len() == 0);
        assert(join_lines(ts) == Seq::<char>::empty());
        let s = Seq::<char>::empty();
        lemma_find_nl_no_nl(s);
        assert(split_lines(s) =~= seq![s]);
        let ss = split_lines(s).map_values(|l: Seq<char>| trim_spec(l));
        assert(ss =~= seq![trim_spec(s)]);
        assert(trim_spec(s) =~= s);
        assert(join_lines(ss) == s);
    } else {
        assert(forall|k: int, j: int|
            0 <= k < ts.len() && 0 <= j < ts[k].len() ==> #[trigger] ts[k][j] != '\n');
        lemma_split_join(ts);
        assert(split_lines(resolve_lines(lines)) == ts);
        let ts2 = ts.map_values(|l: Seq<char>| trim_spec(l));
        assert forall|k: int| 0 <= k < ts.len() implies ts2[k] == ts[k] by {
            lemma_trim_idempotent(lines[k]);
        }
        assert(ts2 =~= ts);
    }
}

// ---
// Executable counterparts
// ---

/// True when two string slices hold the same characters.
pub fn str_eq(a: &str, b: &str) -> (r: bool)
    ensures
        r == (a@ == b@),
{
    let sa: String = a.to_owned();
    let sb: String = b.to_owned();
    sa == sb
}

/// True for the whitespace characters trimmed from line ends.
pub fn is_space(c: char) -> (r: bool)
    ensures
        r == is_space_char(c),
{
    c == ' ' || c == '\t' || c == '\r' || c == '\n'
}

/// Removes whitespace from both ends of a line.
pub fn trim(s: &str) -> (r: String)
    ensures
        r@ == trim_spec(s@),
{
    let n = s.unicode_len();
    let mut start: usize = 0;
    while start < n && is_space(s.get_char(start))
        invariant
            n == s@.len(),
            start <= n,
            forall|j: int| 0 <= j < start ==> is_space_char(s@[j]),
        decreases n - start,
    {
        start = start + 1;
    }
    proof {
        lemma_trim_front_subrange(s@, start as int);
    }
    if start == n {
        proof {
            assert(trim_front(s@) =~= Seq::<char>::empty());
            assert(trim_spec(s@) =~= Seq::<char>::empty());
        }
        return String::new();
    }
    let mut end: usize = n;
    while end > start && is_space(s.get_char(end - 1))
        invariant
            n == s@.len(),
            start <= end <= n,
            forall|j: int| end <= j < n ==> is_space_char(s@[j]),
            !is_space_char(s@[start as int]),
        decreases end,
    {
        end = end - 1;
    }
    proof {
        let f = trim_front(s@);
        assert(f =~= s@.subrange(start as int, n as int));
        lemma_trim_back_subrange(f, end - start);
        assert(trim_back(f) =~= s@.subrange(start as int, end as int));
    }
    let piece = s.substring_char(start, end);
    piece.to_owned()
}

/// Joins lines with a newline between each pair of neighbours.
pub fn join_with_newlines(lines: &Vec<String>) -> (r: String)
    ensures
        r@ == join_lines(lines.deep_view()),
{
    let ghost dv = lines.deep_view();
    let mut r = String::new();
    let n = lines.len();
    let mut i: usize = 0;
    proof {
        assert(dv.take(0) =~= Seq::<Seq<char>>::empty());
    }
    while i < n
        invariant
            n == lines@.len(),
            dv == lines.deep_view(),
            dv.len() == n,
            forall|k: int| 0 <= k < n ==> dv[k] == lines@[k]@,
            i <= n,
            r@ == join_lines(dv.take(i as int)),
        decreases n - i,
    {
        if i > 0 {
            r.append("\n");
            proof {
                reveal_strlit("\n");
                assert(r@ =~= join_lines(dv.take(i as int)) + seq!['\n']);
            }
        }
        r.append(lines[i].as_str());
        proof {
            let prev = dv.take(i as int);
            assert(dv.take(i + 1) =~= prev.push(dv[i as int]));
            if i == 0 {
                assert(join_lines(dv.take(1)) == dv[0]);
                assert(r@ =~= dv[0]);
            } else {
                lemma_join_push(prev, dv[i as int]);
                assert(r@ =~= join_lines(prev) + seq!['\n'] + dv[i as int]);
            }
        }
        i = i + 1;
    }
    proof {
        assert(dv.take(n as int) =~= dv);
    }
    r
}

} // verus!
