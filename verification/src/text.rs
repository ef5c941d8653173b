//! Splitting text on a delimiter character.

use vstd::prelude::*;
use vstd::string::StrSliceExecFns;
use vstd::string::StringSliceAdditionalSpecFns;
use vstd::utf8::encode_utf8_decode_utf8;

verus! {

/// The pieces of `s` between occurrences of `d`, in order.
///
/// A text without `d` is its own single piece; each occurrence of `d` closes one piece and
/// opens the next, so the empty text has one (empty) piece and a text that ends in `d` has an
/// empty last piece.
pub open spec fn split_on(s: Seq<char>, d: char) -> Seq<Seq<char>>
    decreases s.len(),
{
    if s.len() == 0 {
        seq![Seq::<char>::empty()]
    } else {
        let before = split_on(s.drop_last(), d);
        if s.last() == d {
            before.push(Seq::<char>::empty())
        } else {
            before.drop_last().push(before.last().push(s.last()))
        }
    }
}

/// The character sequences that a sequence of string slices stands for.
pub open spec fn texts(pieces: Seq<&str>) -> Seq<Seq<char>> {
    Seq::new(pieces.len(), |i: int| pieces[i]@)
}

/// A split always yields at least one piece.
pub proof fn lemma_split_nonempty(s: Seq<char>, d: char)
    ensures
        split_on(s, d).len() >= 1,
    decreases s.len(),
{
    if s.len() > 0 {
        lemma_split_nonempty(s.drop_last(), d);
    }
}

/// The number of occurrences of `d` in `s`.
pub open spec fn count_of(s: Seq<char>, d: char) -> nat
    decreases s.len(),
{
    if s.len() == 0 {
        0
    } else if s.last() == d {
        count_of(s.drop_last(), d) + 1
    } else {
        count_of(s.drop_last(), d)
    }
}

/// The pieces written one after the other with `d` between neighbours.
pub open spec fn join(pieces: Seq<Seq<char>>, d: char) -> Seq<char>
    decreases pieces.len(),
{
    if pieces.len() == 0 {
        Seq::<char>::empty()
    } else if pieces.len() == 1 {
        pieces[0]
    } else {
        join(pieces.drop_last(), d).push(d) + pieces.last()
    }
}

/// Whether `d` occurs in none of the pieces.
pub open spec fn free_of(pieces: Seq<Seq<char>>, d: char) -> bool {
    forall|i: int, k: int|
        0 <= i < pieces.len() && 0 <= k < pieces[i].len() ==> #[trigger] pieces[i][k] != d
}

/// A split has one piece more than the text has delimiters.
pub proof fn lemma_split_len(s: Seq<char>, d: char)
    ensures
        split_on(s, d).len() == count_of(s, d) + 1,
    decreases s.len(),
{
    if s.len() > 0 {
        lemma_split_len(s.drop_last(), d);
    }
}

/// No piece of a split holds the delimiter.
pub proof fn lemma_split_free_of_delimiter(s: Seq<char>, d: char)
    ensures
        free_of(split_on(s, d), d),
    decreases s.len(),
{
    if s.len() > 0 {
        lemma_split_free_of_delimiter(s.drop_last(), d);
        lemma_split_nonempty(s.drop_last(), d);
        let before = split_on(s.drop_last(), d);
        let pieces = split_on(s, d);
        assert forall|i: int, k: int|
            0 <= i < pieces.len() && 0 <= k < pieces[i].len() implies #[trigger] pieces[i][k]
            != d by {
            if i < before.len() - 1 {
                assert(pieces[i] == before[i]);
                assert(before[i][k] != d);
            } else if s.last() != d {
                if k < before.last().len() {
                    assert(before[i][k] != d);
                }
            } else if i < before.len() {
                assert(pieces[i] == before[i]);
                assert(before[i][k] != d);
            }
        }
    }
}

/// Joining the pieces of a split gives the text back.
pub proof fn lemma_join_of_split(s: Seq<char>, d: char)
    ensures
        join(split_on(s, d), d) == s,
    decreases s.len(),
{
    if s.len() == 0 {
        assert(split_on(s, d)[0] =~= s);
    } else {
        let shorter = s.drop_last();
        lemma_join_of_split(shorter, d);
        lemma_split_nonempty(shorter, d);
        let before = split_on(shorter, d);
        let pieces = split_on(s, d);
        if s.last() == d {
            assert(pieces.drop_last() =~= before);
            assert(join(pieces, d) =~= shorter.push(d) + Seq::<char>::empty());
            assert(shorter.push(d) =~= s);
        } else {
            lemma_join_push(before, s.last(), d);
            assert(shorter.push(s.last()) =~= s);
        }
    }
}

/// A character added to the last piece is added to the joined text.
proof fn lemma_join_push(pieces: Seq<Seq<char>>, c: char, d: char)
    requires
        pieces.len() >= 1,
    ensures
        join(pieces.drop_last().push(pieces.last().push(c)), d) == join(pieces, d).push(c),
{
    let longer = pieces.drop_last().push(pieces.last().push(c));
    if pieces.len() == 1 {
        assert(longer[0] == pieces[0].push(c));
    } else {
        assert(longer.drop_last() =~= pieces.drop_last());
        assert(longer.last() == pieces.last().push(c));
        assert(join(pieces.drop_last(), d).push(d) + pieces.last().push(c) =~= (join(
            pieces.drop_last(),
            d,
        ).push(d) + pieces.last()).push(c));
    }
}

/// Text without the delimiter, added to a text, is added to the last piece of its split.
proof fn lemma_split_append(s: Seq<char>, t: Seq<char>, d: char)
    requires
        forall|k: int| 0 <= k < t.len() ==> t[k] != d,
    ensures
        split_on(s, d).len() >= 1,
        split_on(s + t, d) == split_on(s, d).drop_last().push(split_on(s, d).last() + t),
    decreases t.len(),
{
    lemma_split_nonempty(s, d);
    let pieces = split_on(s, d);
    if t.len() == 0 {
        assert(s + t =~= s);
        assert(pieces.last() + t =~= pieces.last());
        assert(pieces.drop_last().push(pieces.last()) =~= pieces);
    } else {
        lemma_split_append(s, t.drop_last(), d);
        assert((s + t).drop_last() =~= s + t.drop_last());
        assert((s + t).last() == t.last());
        let before = pieces.drop_last().push(pieces.last() + t.drop_last());
        assert(before.drop_last() =~= pieces.drop_last());
        assert((pieces.last() + t.drop_last()).push(t.last()) =~= pieces.last() + t);
    }
}

/// A split is the only way to cut a text into pieces free of the delimiter: pieces that hold
/// no delimiter are the split of their join.
pub proof fn lemma_split_of_join(pieces: Seq<Seq<char>>, d: char)
    requires
        pieces.len() >= 1,
        free_of(pieces, d),
    ensures
        split_on(join(pieces, d), d) == pieces,
    decreases pieces.len(),
{
    let last = pieces.last();
    assert forall|k: int| 0 <= k < last.len() implies last[k] != d by {
        assert(pieces[pieces.len() - 1][k] != d);
    }
    if pieces.len() == 1 {
        let nothing = Seq::<char>::empty();
        lemma_split_append(nothing, last, d);
        assert(nothing + last =~= last);
        assert(split_on(nothing, d).drop_last().push(split_on(nothing, d).last() + last)
            =~= pieces);
    } else {
        let init = pieces.drop_last();
        assert(free_of(init, d)) by {
            assert forall|i: int, k: int|
                0 <= i < init.len() && 0 <= k < init[i].len() implies #[trigger] init[i][k]
                != d by {
                assert(pieces[i][k] != d);
            }
        }
        lemma_split_of_join(init, d);
        let opened = join(init, d).push(d);
        assert(opened.drop_last() =~= join(init, d));
        assert(split_on(opened, d) == init.push(Seq::<char>::empty()));
        lemma_split_append(opened, last, d);
        assert(init.push(Seq::<char>::empty()).drop_last() =~= init);
        assert(Seq::<char>::empty() + last =~= last);
        assert(init.push(last) =~= pieces);
    }
}

/// Reading one more character either extends the last piece or opens a new one.
proof fn lemma_split_step(s: Seq<char>, d: char, n: int)
    requires
        0 <= n < s.len(),
    ensures
        split_on(s.take(n), d).len() >= 1,
        s[n] == d ==> split_on(s.take(n + 1), d) == split_on(s.take(n), d).push(
            Seq::<char>::empty(),
        ),
        s[n] != d ==> split_on(s.take(n + 1), d) == split_on(s.take(n), d).drop_last().push(
            split_on(s.take(n), d).last().push(s[n]),
        ),
{
    lemma_split_nonempty(s.take(n), d);
    assert(s.take(n + 1).drop_last() == s.take(n));
    assert(s.take(n + 1).last() == s[n]);
}

/// The characters `from..to` of `s`; constant time when `s` is known to be ASCII.
fn slice_chars<'a>(s: &'a str, ascii: bool, from: usize, to: usize) -> (piece: &'a str)
    requires
        ascii ==> s.is_ascii(),
        from <= to <= s@.len(),
    ensures
        piece@ == s@.subrange(from as int, to as int),
{
    if ascii {
        s.substring_ascii(from, to)
    } else {
        s.substring_char(from, to)
    }
}

/// Splits `s` at every occurrence of `d`.
///
/// Takes time linear in the length of `s` when `s` is ASCII; otherwise cutting out each piece
/// walks `s` from its start.
pub fn split<'a>(s: &'a str, d: char) -> (pieces: Vec<&'a str>)
    ensures
        texts(pieces@) == split_on(s@, d),
{
    let ascii = s.is_ascii();
    let len = s.unicode_len();
    let mut pieces: Vec<&'a str> = Vec::new();
    let mut start: usize = 0;
    let mut pos: usize = 0;
    assert(texts(pieces@).push(s@.subrange(0, 0)) == split_on(s@.take(0), d)) by {
        assert(s@.take(0).len() == 0);
        assert(s@.subrange(0, 0) =~= Seq::<char>::empty());
        assert(texts(pieces@).push(s@.subrange(0, 0)) == seq![Seq::<char>::empty()]);
    }
    for c in it: s.chars()
        invariant
            it.seq() == s@,
            len == s@.len(),
            ascii ==> s.is_ascii(),
            pos == it.index(),
            start <= pos <= len,
            texts(pieces@).push(s@.subrange(start as int, pos as int)) == split_on(
                s@.take(pos as int),
                d,
            ),
    {
        proof {
            lemma_split_step(s@, d, pos as int);
        }
        let ghost before = texts(pieces@);
        if c == d {
            let piece = slice_chars(s, ascii, start, pos);
            pieces.push(piece);
            start = pos + 1;
            assert(texts(pieces@) == before.push(piece@));
            assert(s@.subrange(start as int, pos + 1) == Seq::<char>::empty());
        } else {
            assert(s@.subrange(start as int, pos + 1) == s@.subrange(
                start as int,
                pos as int,
            ).push(s@[pos as int]));
            assert(before.push(s@.subrange(start as int, pos as int)).drop_last() == before);
        }
        pos = pos + 1;
    }
    let ghost before = texts(pieces@);
    let piece = slice_chars(s, ascii, start, pos);
    pieces.push(piece);
    assert(texts(pieces@) == before.push(piece@));
    assert(s@.take(pos as int) == s@);
    pieces
}

/// Whether two string slices hold the same characters.
pub fn same_text(a: &str, b: &str) -> (same: bool)
    ensures
        same == (a@ == b@),
{
    let x = a.as_bytes();
    let y = b.as_bytes();
    if x.len() != y.len() {
        return false;
    }
    let mut i: usize = 0;
    while i < x.len()
        invariant
            x@ == a.spec_bytes(),
            y@ == b.spec_bytes(),
            x@.len() == y@.len(),
            i <= x@.len(),
            forall|j: int| 0 <= j < i ==> x@[j] == y@[j],
        decreases x@.len() - i,
    {
        if x[i] != y[i] {
            return false;
        }
        i = i + 1;
    }
    proof {
        assert(x@ =~= y@);
        encode_utf8_decode_utf8(a@);
        encode_utf8_decode_utf8(b@);
    }
    true
}

} // verus!
