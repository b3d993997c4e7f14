//! Searching and cutting character sequences.

use vstd::prelude::*;

verus! {

/// The position of the first `c` in `s`, or `s.len()` where `s` holds none.
pub open spec fn first_index(s: Seq<char>, c: char) -> int
    decreases s.len(),
{
    if s.len() == 0 || s[0] == c {
        0
    } else {
        1 + first_index(s.drop_first(), c)
    }
}

/// `first_index` stops at the first `c` and passes no other on its way.
pub proof fn lemma_first_index(s: Seq<char>, c: char)
    ensures
        0 <= first_index(s, c) <= s.len(),
        forall|j: int| 0 <= j < first_index(s, c) ==> s[j] != c,
        first_index(s, c) < s.len() ==> s[first_index(s, c)] == c,
        first_index(s, c) == s.len() <==> !s.contains(c),
    decreases s.len(),
{
    if s.len() == 0 || s[0] == c {
    } else {
        let t = s.drop_first();
        lemma_first_index(t, c);
        assert forall|j: int| 0 <= j < first_index(s, c) implies s[j] != c by {
            if j > 0 {
                assert(s[j] == t[j - 1]);
            }
        }
        if first_index(t, c) < t.len() {
            assert(s[first_index(s, c)] == t[first_index(t, c)]);
        }
        if t.contains(c) {
            let k = choose|k: int| 0 <= k < t.len() && t[k] == c;
            assert(s[k + 1] == c);
        }
        if s.contains(c) {
            let k = choose|k: int| 0 <= k < s.len() && s[k] == c;
            assert(t[k - 1] == c);
        }
    }
}

/// Any position that holds the first `c` of `s` is `first_index(s, c)`.
pub proof fn lemma_first_index_unique(s: Seq<char>, c: char, i: int)
    requires
        0 <= i <= s.len(),
        forall|j: int| 0 <= j < i ==> s[j] != c,
        i < s.len() ==> s[i] == c,
    ensures
        first_index(s, c) == i,
{
    lemma_first_index(s, c);
    let f = first_index(s, c);
    if f < i {
        assert(s[f] != c);
    } else if i < f {
        assert(s[i] != c);
    }
}

/// Finds the first `c` in `s`, counting characters.
pub fn find_char(s: &str, c: char) -> (out: Option<usize>)
    ensures
        out is None <==> !s@.contains(c),
        out matches Some(i) ==> i == first_index(s@, c),
{
    let total: usize = s.unicode_len();
    let mut found: Option<usize> = None;
    let mut at: usize = 0;
    for ch in it: s.chars()
        invariant
            at == it.index(),
            it.seq() == s@,
            total == s@.len(),
            found matches Some(i) ==> i < at && s@[i as int] == c && forall|j: int| 0 <= j < i ==> s@[j] != c,
            found is None ==> forall|j: int| 0 <= j < at ==> s@[j] != c,
    {
        if found.is_none() && ch == c {
            found = Some(at);
        }
        at = at + 1;
    }
    proof {
        match found {
            Some(i) => {
                lemma_first_index_unique(s@, c, i as int);
                lemma_first_index(s@, c);
            },
            None => {
                lemma_first_index_unique(s@, c, s@.len() as int);
                lemma_first_index(s@, c);
            },
        }
    }
    found
}

/// How often `c` occurs in `s`.
pub open spec fn count(s: Seq<char>, c: char) -> nat
    decreases s.len(),
{
    if s.len() == 0 {
        0
    } else {
        count(s.drop_first(), c) + if s[0] == c { 1nat } else { 0nat }
    }
}

/// `c` occurs in `s` exactly when its count is not zero, and behind the
/// first occurrence there is one occurrence fewer.
pub proof fn lemma_count_first(s: Seq<char>, c: char)
    ensures
        count(s, c) == 0 <==> !s.contains(c),
        first_index(s, c) < s.len() ==> count(s, c) == 1 + count(
            s.subrange(first_index(s, c) + 1, s.len() as int),
            c,
        ),
    decreases s.len(),
{
    lemma_first_index(s, c);
    if s.len() == 0 {
    } else {
        let t = s.drop_first();
        lemma_count_first(t, c);
        lemma_first_index(t, c);
        if s[0] == c {
            assert(s.subrange(1, s.len() as int) == t);
        } else {
            let i = first_index(t, c);
            if i < t.len() {
                assert(t.subrange(i + 1, t.len() as int) == s.subrange(i + 2, s.len() as int));
            }
        }
    }
}

/// The pieces that remain of `s` when every `sep` is taken out of it, in
/// order. There is always at least one piece; a piece is empty where `s`
/// begins or ends with `sep` or holds two in a row.
pub open spec fn split_seq(s: Seq<char>, sep: char) -> Seq<Seq<char>>
    decreases s.len(),
{
    let i = first_index(s, sep);
    if 0 <= i < s.len() {
        seq![s.subrange(0, i)] + split_seq(s.subrange(i + 1, s.len() as int), sep)
    } else {
        seq![s]
    }
}

/// `pieces` put together again, with one `sep` between neighbours.
pub open spec fn join_seq(pieces: Seq<Seq<char>>, sep: char) -> Seq<char>
    decreases pieces.len(),
{
    if pieces.len() == 0 {
        Seq::empty()
    } else if pieces.len() == 1 {
        pieces[0]
    } else {
        pieces[0] + seq![sep] + join_seq(pieces.drop_first(), sep)
    }
}

/// Joining one piece more appends it behind a separator, except to nothing.
pub proof fn lemma_join_push(pieces: Seq<Seq<char>>, last: Seq<char>, sep: char)
    ensures
        join_seq(pieces.push(last), sep) == if pieces.len() == 0 {
            last
        } else {
            join_seq(pieces, sep) + seq![sep] + last
        },
    decreases pieces.len(),
{
    let all = pieces.push(last);
    if pieces.len() == 0 {
    } else if pieces.len() == 1 {
        assert(all.drop_first() == seq![last]);
        assert(join_seq(all.drop_first(), sep) == last);
    } else {
        let tail = pieces.drop_first();
        lemma_join_push(tail, last, sep);
        assert(all.drop_first() == tail.push(last));
        assert(join_seq(all, sep) == pieces[0] + seq![sep] + (join_seq(tail, sep) + seq![sep] + last));
        assert(join_seq(pieces, sep) == pieces[0] + seq![sep] + join_seq(tail, sep));
        assert(join_seq(all, sep) == join_seq(pieces, sep) + seq![sep] + last);
    }
}

/// Cutting yields one piece more than there are separators.
pub proof fn lemma_split_len(s: Seq<char>, sep: char)
    ensures
        split_seq(s, sep).len() == count(s, sep) + 1,
    decreases s.len(),
{
    lemma_first_index(s, sep);
    lemma_count_first(s, sep);
    let i = first_index(s, sep);
    if i < s.len() {
        lemma_split_len(s.subrange(i + 1, s.len() as int), sep);
    }
}

/// No piece holds a separator.
pub proof fn lemma_split_pieces(s: Seq<char>, sep: char)
    ensures
        forall|k: int| 0 <= k < split_seq(s, sep).len() ==> !(#[trigger] split_seq(s, sep)[k]).contains(sep),
    decreases s.len(),
{
    lemma_first_index(s, sep);
    let i = first_index(s, sep);
    if i < s.len() {
        let rest = s.subrange(i + 1, s.len() as int);
        lemma_split_pieces(rest, sep);
        let head = s.subrange(0, i);
        assert(!head.contains(sep)) by {
            if head.contains(sep) {
                let j = choose|j: int| 0 <= j < head.len() && head[j] == sep;
                assert(s[j] == sep);
            }
        }
        assert forall|k: int| 0 <= k < split_seq(s, sep).len() implies !(#[trigger] split_seq(s, sep)[k]).contains(sep) by {
            if k > 0 {
                assert(split_seq(s, sep)[k] == split_seq(rest, sep)[k - 1]);
            }
        }
    }
}

/// Joining the pieces with the separator gives the text back.
pub proof fn lemma_join_split(s: Seq<char>, sep: char)
    ensures
        join_seq(split_seq(s, sep), sep) == s,
    decreases s.len(),
{
    lemma_first_index(s, sep);
    let i = first_index(s, sep);
    if i < s.len() {
        let rest = s.subrange(i + 1, s.len() as int);
        lemma_join_split(rest, sep);
        lemma_split_len(rest, sep);
        let pieces = split_seq(s, sep);
        assert(pieces.drop_first() == split_seq(rest, sep));
        assert(s == s.subrange(0, i) + seq![sep] + rest);
    }
}

/// Cutting is the only way to take a text apart into pieces free of the
/// separator: whatever such pieces are joined, cutting finds them again.
pub proof fn lemma_split_join(pieces: Seq<Seq<char>>, sep: char)
    requires
        pieces.len() > 0,
        forall|k: int| 0 <= k < pieces.len() ==> !(#[trigger] pieces[k]).contains(sep),
    ensures
        split_seq(join_seq(pieces, sep), sep) == pieces,
    decreases pieces.len(),
{
    let s = join_seq(pieces, sep);
    if pieces.len() == 1 {
        lemma_first_index(s, sep);
        assert(split_seq(s, sep) == seq![pieces[0]]);
    } else {
        let tail = pieces.drop_first();
        assert forall|k: int| 0 <= k < tail.len() implies !(#[trigger] tail[k]).contains(sep) by {
            assert(tail[k] == pieces[k + 1]);
        }
        lemma_split_join(tail, sep);
        let head = pieces[0];
        let i = head.len() as int;
        assert forall|j: int| 0 <= j < i implies s[j] != sep by {
            assert(s[j] == head[j]);
            if head[j] == sep {
                assert(head.contains(sep));
            }
        }
        assert(s[i] == sep);
        lemma_first_index_unique(s, sep, i);
        assert(s.subrange(0, i) == head);
        assert(s.subrange(i + 1, s.len() as int) == join_seq(tail, sep));
        assert(split_seq(s, sep) == seq![head] + tail);
    }
}

/// Cuts `s` at every `sep`.
pub fn split(s: &str, sep: char) -> (out: Vec<String>)
    ensures
        out.deep_view() == split_seq(s@, sep),
{
    let total: usize = s.unicode_len();
    let mut out: Vec<String> = Vec::new();
    let mut start: usize = 0;
    let mut at: usize = 0;
    proof {
        assert(s@.subrange(0, total as int) == s@);
        assert(out.deep_view() + split_seq(s@, sep) == split_seq(s@, sep));
    }
    for ch in it: s.chars()
        invariant
            at == it.index(),
            it.seq() == s@,
            total == s@.len(),
            start <= at,
            forall|j: int| start <= j < at ==> s@[j] != sep,
            split_seq(s@, sep) == out.deep_view() + split_seq(s@.subrange(start as int, total as int), sep),
    {
        if ch == sep {
            let piece = s.substring_char(start, at).to_owned();
            proof {
                let rest = s@.subrange(start as int, total as int);
                lemma_first_index_unique(rest, sep, at - start);
                assert(rest.subrange(0, at - start) == s@.subrange(start as int, at as int));
                assert(rest.subrange(at - start + 1, rest.len() as int) == s@.subrange(at + 1, total as int));
                assert(out.deep_view().push(piece@) + split_seq(s@.subrange(at + 1, total as int), sep)
                    == out.deep_view() + split_seq(rest, sep));
            }
            let ghost before = out.deep_view();
            out.push(piece);
            assert(out.deep_view() == before.push(piece@));
            start = at + 1;
        }
        at = at + 1;
    }
    let piece = s.substring_char(start, total).to_owned();
    proof {
        let rest = s@.subrange(start as int, total as int);
        lemma_first_index_unique(rest, sep, rest.len() as int);
    }
    let ghost before = out.deep_view();
    out.push(piece);
    assert(out.deep_view() == before.push(piece@));
    out
}

} // verus!
