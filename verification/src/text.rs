//! Character-level helpers: splitting a text on a separator and into lines.

use vstd::prelude::*;

verus! {

/// The pieces of `s` between occurrences of `sep`, in order. A text with `n`
/// separators has `n + 1` pieces; pieces may be empty.
pub open spec fn split_on(s: Seq<char>, sep: char) -> Seq<Seq<char>>
    decreases s.len(),
{
    if s.len() == 0 {
        seq![Seq::<char>::empty()]
    } else {
        let before = split_on(s.drop_last(), sep);
        if s.last() == sep {
            before.push(Seq::<char>::empty())
        } else {
            before.update(before.len() - 1, before.last().push(s.last()))
        }
    }
}

/// `piece` without one trailing carriage return, if it has one.
pub open spec fn strip_cr(piece: Seq<char>) -> Seq<char> {
    if piece.len() > 0 && piece.last() == '\r' {
        piece.drop_last()
    } else {
        piece
    }
}

/// The lines of a text. A line ends at a line feed, or at a carriage return
/// directly followed by a line feed; the terminator is not part of the line.
/// What follows the last line feed is a line of its own unless it is empty.
pub open spec fn lines_of(s: Seq<char>) -> Seq<Seq<char>> {
    let raw = split_on(s, '\n');
    let terminated = Seq::new((raw.len() - 1) as nat, |i: int| strip_cr(raw[i]));
    if raw.last().len() == 0 {
        terminated
    } else {
        terminated.push(raw.last())
    }
}

/// Splitting always yields at least one piece.
pub proof fn lemma_split_nonempty(s: Seq<char>, sep: char)
    ensures
        split_on(s, sep).len() >= 1,
    decreases s.len(),
{
    if s.len() > 0 {
        lemma_split_nonempty(s.drop_last(), sep);
    }
}

/// Whether no piece holds the separator.
pub open spec fn pieces_lack(pieces: Seq<Seq<char>>, sep: char) -> bool {
    forall|i: int, j: int|
        0 <= i < pieces.len() && 0 <= j < pieces[i].len() ==> #[trigger] pieces[i][j] != sep
}

/// No piece of a split contains the separator.
pub proof fn lemma_split_pieces_lack_separator(s: Seq<char>, sep: char)
    ensures
        pieces_lack(split_on(s, sep), sep),
    decreases s.len(),
{
    if s.len() > 0 {
        lemma_split_nonempty(s.drop_last(), sep);
        lemma_split_pieces_lack_separator(s.drop_last(), sep);
    }
}

/// The pieces of `pieces` written one after another with `sep` between them.
pub open spec fn join_with(pieces: Seq<Seq<char>>, sep: char) -> Seq<char>
    decreases pieces.len(),
{
    if pieces.len() == 0 {
        Seq::<char>::empty()
    } else if pieces.len() == 1 {
        pieces[0]
    } else {
        join_with(pieces.drop_last(), sep).push(sep) + pieces.last()
    }
}

/// Joining the pieces of a split with the separator gives the text back.
pub proof fn lemma_join_split(s: Seq<char>, sep: char)
    ensures
        join_with(split_on(s, sep), sep) == s,
    decreases s.len(),
{
    if s.len() == 0 {
        assert(split_on(s, sep).len() == 1);
        assert(join_with(split_on(s, sep), sep) =~= s);
    } else {
        let before = split_on(s.drop_last(), sep);
        lemma_split_nonempty(s.drop_last(), sep);
        lemma_join_split(s.drop_last(), sep);
        let now = split_on(s, sep);
        if s.last() == sep {
            assert(now.drop_last() =~= before);
            assert(join_with(now, sep) =~= s);
        } else if before.len() == 1 {
            assert(join_with(now, sep) =~= s);
        } else {
            assert(now.drop_last() =~= before.drop_last());
            assert(now.last() == before.last().push(s.last()));
            assert(join_with(before, sep) == join_with(before.drop_last(), sep).push(sep)
                + before.last());
            assert(join_with(now, sep) == join_with(now.drop_last(), sep).push(sep) + now.last());
            assert(s =~= s.drop_last().push(s.last()));
            assert(join_with(now, sep) =~= s.drop_last().push(s.last()));
        }
    }
}

/// The split is the only way to cut a text into pieces without the
/// separator that give the text back when they are joined with it.
pub proof fn lemma_split_unique(pieces: Seq<Seq<char>>, s: Seq<char>, sep: char)
    requires
        pieces.len() >= 1,
        pieces_lack(pieces, sep),
        join_with(pieces, sep) == s,
    ensures
        pieces == split_on(s, sep),
    decreases s.len(),
{
    let n = pieces.len() as int;
    let tail = pieces.last();
    if n >= 2 {
        assert(join_with(pieces, sep) == join_with(pieces.drop_last(), sep).push(sep) + tail);
    }
    if s.len() == 0 {
        assert(n == 1);
        assert(pieces[0] =~= Seq::<char>::empty());
        assert(pieces =~= seq![Seq::<char>::empty()]);
    } else if tail.len() == 0 {
        assert(n >= 2);
        let head = pieces.drop_last();
        assert(s =~= join_with(head, sep).push(sep));
        assert(s.drop_last() =~= join_with(head, sep));
        assert(pieces_lack(head, sep)) by {
            assert forall|i: int, j: int|
                0 <= i < head.len() && 0 <= j < head[i].len() implies #[trigger] head[i][j]
                != sep by {
                assert(pieces[i][j] != sep);
            }
        }
        lemma_split_unique(head, s.drop_last(), sep);
        assert(tail =~= Seq::<char>::empty());
        assert(pieces =~= head.push(Seq::<char>::empty()));
    } else {
        let c = tail.last();
        assert(pieces[n - 1][tail.len() - 1] != sep);
        let shorter = pieces.update(n - 1, tail.drop_last());
        assert(pieces_lack(shorter, sep)) by {
            assert forall|i: int, j: int|
                0 <= i < shorter.len() && 0 <= j < shorter[i].len() implies #[trigger] shorter[i][j]
                != sep by {
                assert(pieces[i][j] != sep);
            }
        }
        if n >= 2 {
            assert(shorter.drop_last() =~= pieces.drop_last());
            assert(join_with(shorter, sep) == join_with(shorter.drop_last(), sep).push(sep)
                + tail.drop_last());
            assert(s.last() == c);
            assert(join_with(shorter, sep) =~= s.drop_last());
        } else {
            assert(s == tail);
            assert(join_with(shorter, sep) =~= s.drop_last());
        }
        lemma_split_unique(shorter, s.drop_last(), sep);
        assert(tail.drop_last().push(c) =~= tail);
        assert(pieces =~= shorter.update(n - 1, shorter.last().push(c)));
    }
}

/// How often `sep` occurs in `s`.
pub open spec fn count_of(s: Seq<char>, sep: char) -> nat
    decreases s.len(),
{
    if s.len() == 0 {
        0
    } else {
        count_of(s.drop_last(), sep) + if s.last() == sep { 1nat } else { 0nat }
    }
}

/// The number of pieces is one more than the number of separators.
pub proof fn lemma_split_len(s: Seq<char>, sep: char)
    ensures
        split_on(s, sep).len() == count_of(s, sep) + 1,
    decreases s.len(),
{
    if s.len() > 0 {
        lemma_split_len(s.drop_last(), sep);
    }
}

/// The characters of `s`, in a vector.
pub fn chars_of(s: &str) -> (v: Vec<char>)
    ensures
        v@ == s@,
{
    let mut v: Vec<char> = Vec::new();
    for c in it: s.chars()
        invariant
            it.seq() == s@,
            v@ == it.seq().take(it.index()),
    {
        v.push(c);
        assert(it.seq().take(it.index() + 1) =~= it.seq().take(it.index()).push(c));
    }
    assert(v@ =~= s@);
    v
}

/// Whether `ranges` cover a text of `len` characters piece by piece: the
/// first starts at 0, the last ends at `len`, and between the end of one and
/// the start of the next lies exactly one character, the separator.
pub open spec fn ranges_cover(ranges: Seq<(usize, usize)>, len: nat) -> bool {
    &&& ranges.len() >= 1
    &&& ranges[0].0 == 0
    &&& ranges.last().1 == len
    &&& forall|k: int| 0 <= k < ranges.len() ==> (#[trigger] ranges[k]).0 <= ranges[k].1
    &&& forall|k: int|
        0 <= k < ranges.len() - 1 ==> (#[trigger] ranges[k + 1]).0 == ranges[k].1 + 1
}

/// Where each piece of a split lies in the text: one pair of a start and an
/// end (exclusive) for each piece, in order.
pub fn split_ranges(chars: &Vec<char>, sep: char) -> (ranges: Vec<(usize, usize)>)
    ensures
        ranges@.len() == split_on(chars@, sep).len(),
        ranges_cover(ranges@, chars@.len()),
        forall|k: int|
            0 <= k < ranges@.len() ==> {
                &&& (#[trigger] ranges@[k]).0 <= ranges@[k].1 <= chars@.len()
                &&& chars@.subrange(ranges@[k].0 as int, ranges@[k].1 as int) == split_on(
                    chars@,
                    sep,
                )[k]
            },
{
    let mut ranges: Vec<(usize, usize)> = Vec::new();
    let mut start: usize = 0;
    let mut i: usize = 0;
    assert(chars@.take(0) =~= Seq::<char>::empty());
    assert(chars@.subrange(0, 0) =~= Seq::<char>::empty());
    while i < chars.len()
        invariant
            start <= i <= chars@.len(),
            split_on(chars@.take(i as int), sep).len() == ranges@.len() + 1,
            split_on(chars@.take(i as int), sep).last() == chars@.subrange(start as int, i as int),
            ranges@.len() == 0 ==> start == 0,
            ranges@.len() > 0 ==> ranges@[0].0 == 0 && start == ranges@.last().1 + 1,
            forall|k: int|
                0 <= k < ranges@.len() - 1 ==> (#[trigger] ranges@[k + 1]).0 == ranges@[k].1 + 1,
            forall|k: int|
                0 <= k < ranges@.len() ==> {
                    &&& (#[trigger] ranges@[k]).0 <= ranges@[k].1 <= chars@.len()
                    &&& chars@.subrange(ranges@[k].0 as int, ranges@[k].1 as int) == split_on(
                        chars@.take(i as int),
                        sep,
                    )[k]
                },
        decreases chars@.len() - i,
    {
        assert(chars@.take(i + 1).drop_last() =~= chars@.take(i as int));
        assert(chars@.take(i + 1).last() == chars@[i as int]);
        if chars[i] == sep {
            ranges.push((start, i));
            start = i + 1;
            assert(chars@.subrange(start as int, start as int) =~= Seq::<char>::empty());
        } else {
            assert(chars@.subrange(start as int, i + 1) =~= chars@.subrange(
                start as int,
                i as int,
            ).push(chars@[i as int]));
        }
        i = i + 1;
    }
    assert(chars@.take(i as int) =~= chars@);
    ranges.push((start, i));
    ranges
}

/// The texts of a sequence of string slices.
pub open spec fn views_of(slices: Seq<&str>) -> Seq<Seq<char>> {
    Seq::new(slices.len(), |i: int| slices[i]@)
}

/// The lines of `text`, as `str::lines` yields them.
pub fn split_lines<'a>(text: &'a str) -> (lines: Vec<&'a str>)
    ensures
        views_of(lines@) == lines_of(text@),
{
    let chars = chars_of(text);
    let ranges = split_ranges(&chars, '\n');
    let ghost raw = split_on(text@, '\n');
    let n: usize = ranges.len();
    proof {
        lemma_split_nonempty(text@, '\n');
    }
    let mut lines: Vec<&'a str> = Vec::new();
    let mut k: usize = 0;
    while k + 1 < n
        invariant
            n == ranges@.len(),
            n == raw.len(),
            n >= 1,
            k + 1 <= n,
            chars@ == text@,
            raw == split_on(chars@, '\n'),
            forall|j: int|
                0 <= j < ranges@.len() ==> {
                    &&& (#[trigger] ranges@[j]).0 <= ranges@[j].1 <= chars@.len()
                    &&& chars@.subrange(ranges@[j].0 as int, ranges@[j].1 as int) == raw[j]
                },
            lines@.len() == k,
            forall|j: int| 0 <= j < k ==> (#[trigger] lines@[j])@ == strip_cr(raw[j]),
        decreases n - k,
    {
        let (from, to) = ranges[k];
        let ghost piece = chars@.subrange(from as int, to as int);
        assert(piece == raw[k as int]);
        let end: usize = if to > from && chars[to - 1] == '\r' {
            to - 1
        } else {
            to
        };
        assert(chars@.subrange(from as int, end as int) =~= strip_cr(piece)) by {
            if to > from {
                assert(piece.last() == chars@[to - 1]);
            }
        }
        let line = text.substring_char(from, end);
        lines.push(line);
        k = k + 1;
    }
    let (from, to) = ranges[n - 1];
    assert(chars@.subrange(from as int, to as int) == raw.last());
    if to > from {
        lines.push(text.substring_char(from, to));
    }
    assert(views_of(lines@) =~= lines_of(text@));
    lines
}

/// No line of a text holds a line feed.
pub proof fn lemma_lines_lack_line_feed(s: Seq<char>)
    ensures
        forall|i: int, j: int|
            0 <= i < lines_of(s).len() && 0 <= j < lines_of(s)[i].len() ==> #[trigger] lines_of(
                s,
            )[i][j] != '\n',
{
    lemma_split_nonempty(s, '\n');
    lemma_split_pieces_lack_separator(s, '\n');
    let raw = split_on(s, '\n');
    assert forall|i: int, j: int|
        0 <= i < lines_of(s).len() && 0 <= j < lines_of(s)[i].len() implies #[trigger] lines_of(
        s,
    )[i][j] != '\n' by {
        if i < raw.len() - 1 {
            assert(lines_of(s)[i] == strip_cr(raw[i]));
            assert(strip_cr(raw[i])[j] == raw[i][j]);
        } else {
            assert(lines_of(s)[i] == raw.last());
            assert(raw[raw.len() - 1][j] != '\n');
        }
    }
}

/// A text without a line feed is a single line, or no line if it is empty.
pub proof fn lemma_single_line(s: Seq<char>)
    requires
        count_of(s, '\n') == 0,
    ensures
        lines_of(s) == if s.len() == 0 {
            Seq::<Seq<char>>::empty()
        } else {
            seq![s]
        },
{
    lemma_split_len(s, '\n');
    lemma_join_split(s, '\n');
    let raw = split_on(s, '\n');
    assert(raw.len() == 1);
    assert(join_with(raw, '\n') == raw[0]);
    assert(lines_of(s) =~= if s.len() == 0 {
        Seq::<Seq<char>>::empty()
    } else {
        seq![s]
    });
}

} // verus!
