//! Recognising compressed input by the extension of its file name.

use vstd::prelude::*;

verus! {

/// `c` with an ASCII capital letter turned into its small letter.
pub open spec fn ascii_lowercase(c: char) -> char {
    if 'A' <= c && c <= 'Z' {
        ((c as u32) + 32) as char
    } else {
        c
    }
}

/// `s` with every ASCII capital letter turned into its small letter.
pub open spec fn lowercased(s: Seq<char>) -> Seq<char> {
    Seq::new(s.len(), |i: int| ascii_lowercase(s[i]))
}

/// Whether `ext`, in any mix of cases, is `gz` or `bgz`.
pub open spec fn names_gzip(ext: Seq<char>) -> bool {
    lowercased(ext) == seq!['g', 'z'] || lowercased(ext) == seq!['b', 'g', 'z']
}

/// Whether a file with the extension `ext` (the text after the last dot of its name) is to be
/// read as a gzip or BGZF stream.
pub fn is_gzip_extension(ext: &str) -> (gzip: bool)
    ensures
        gzip == names_gzip(ext@),
{
    let mut letters: Vec<char> = Vec::new();
    for c in it: ext.chars()
        invariant
            it.seq() == ext@,
            letters@ == ext@.take(it.index() as int),
    {
        letters.push(c);
        assert(ext@.take(it.index() + 1) =~= ext@.take(it.index() as int).push(c));
    }
    assert(letters@ =~= ext@);
    let n = letters.len();
    let gzip = if n == 2 {
        (letters[0] == 'g' || letters[0] == 'G') && (letters[1] == 'z' || letters[1] == 'Z')
    } else if n == 3 {
        (letters[0] == 'b' || letters[0] == 'B') && (letters[1] == 'g' || letters[1] == 'G') && (
        letters[2] == 'z' || letters[2] == 'Z')
    } else {
        false
    };
    proof {
        let low = lowercased(ext@);
        assert(low.len() == n);
        assert(seq!['g', 'z'].len() == 2 && seq!['b', 'g', 'z'].len() == 3);
        assert(forall|c: char| ascii_lowercase(c) == 'g' <==> c == 'g' || c == 'G');
        assert(forall|c: char| ascii_lowercase(c) == 'z' <==> c == 'z' || c == 'Z');
        assert(forall|c: char| ascii_lowercase(c) == 'b' <==> c == 'b' || c == 'B');
        if n == 2 {
            assert(low[0] == ascii_lowercase(ext@[0]) && low[1] == ascii_lowercase(ext@[1]));
            if gzip {
                assert(low =~= seq!['g', 'z']);
            } else {
                assert(seq!['g', 'z'][0] == 'g' && seq!['g', 'z'][1] == 'z');
            }
        } else if n == 3 {
            assert(low[0] == ascii_lowercase(ext@[0]) && low[1] == ascii_lowercase(ext@[1])
                && low[2] == ascii_lowercase(ext@[2]));
            if gzip {
                assert(low =~= seq!['b', 'g', 'z']);
            } else {
                assert(seq!['b', 'g', 'z'][0] == 'b' && seq!['b', 'g', 'z'][1] == 'g' && seq![
                    'b',
                    'g',
                    'z',
                ][2] == 'z');
            }
        }
    }
    gzip
}

} // verus!
