//! The parts of file names: `dir`, `notdir`, `basename` and `suffix`.

use crate::text::{copy_text, lemma_texts_push, slice_of, texts};
use crate::words::{join_leading, join_leading_of, split_words, words};
use vstd::prelude::*;

verus! {

/// The last position before `j` that holds `c`; `-1` if none does.
pub open spec fn last_index(s: Seq<char>, c: char, j: int) -> int
    decreases j,
{
    if j <= 0 || j > s.len() {
        -1
    } else if s[j - 1] == c {
        j - 1
    } else {
        last_index(s, c, j - 1)
    }
}

/// The position after the last `c` of `s`; zero if `s` holds none.
fn after_last(s: &Vec<char>, c: char) -> (r: usize)
    ensures
        r == last_index(s@, c, s.len() as int) + 1,
        r <= s.len(),
{
    let mut j: usize = s.len();
    while j > 0 && s[j - 1] != c
        invariant
            j <= s.len(),
            last_index(s@, c, j as int) == last_index(s@, c, s.len() as int),
        decreases j,
    {
        j -= 1;
    }
    j
}

/// Which part of a file name is asked for.
#[derive(Clone, Copy, Debug, PartialEq, Eq, Structural)]
pub enum Part {
    Dir,
    NotDir,
    BaseName,
    Suffix,
}

/// Whether the name has a suffix: a `.` after its last `/`.
pub open spec fn has_suffix(w: Seq<char>) -> bool {
    let d = last_index(w, '.', w.len() as int);
    d >= 0 && d > last_index(w, '/', w.len() as int)
}

/// The part of one file name:
/// - `Dir`: up to and with the last `/`; `./` if it holds none;
/// - `NotDir`: what follows the last `/`;
/// - `BaseName`: the name without its suffix;
/// - `Suffix`: the suffix, from its `.` on; nothing if it has none.
pub open spec fn part_of(part: Part, w: Seq<char>) -> Seq<char> {
    let s = last_index(w, '/', w.len() as int);
    let d = last_index(w, '.', w.len() as int);
    match part {
        Part::Dir => if s < 0 {
            seq!['.', '/']
        } else {
            w.take(s + 1)
        },
        Part::NotDir => w.skip(s + 1),
        Part::BaseName => if has_suffix(w) {
            w.take(d)
        } else {
            w
        },
        Part::Suffix => if has_suffix(w) {
            w.skip(d)
        } else {
            Seq::empty()
        },
    }
}

/// The parts of the words of `text`, each with a space before it.
pub open spec fn parts(part: Part, text: Seq<char>) -> Seq<char> {
    let ws = words(text);
    join_leading(Seq::new(ws.len(), |i: int| part_of(part, ws[i])))
}

/// The part of one file name.
pub fn part_of_name(part: Part, w: &Vec<char>) -> (r: Vec<char>)
    ensures
        r@ == part_of(part, w@),
{
    let s = after_last(w, '/');
    let d = after_last(w, '.');
    let suffixed = d > 0 && d > s;
    match part {
        Part::Dir => {
            if s == 0 {
                let mut r: Vec<char> = Vec::new();
                r.push('.');
                r.push('/');
                assert(r@ =~= seq!['.', '/']);
                r
            } else {
                slice_of(w, 0, s)
            }
        },
        Part::NotDir => slice_of(w, s, w.len()),
        Part::BaseName => {
            if suffixed {
                slice_of(w, 0, d - 1)
            } else {
                copy_text(w)
            }
        },
        Part::Suffix => {
            if suffixed {
                slice_of(w, d - 1, w.len())
            } else {
                Vec::new()
            }
        },
    }
}

/// `dir`, `notdir`, `basename` or `suffix`: the part of each word of `text`.
pub fn parts_text(part: Part, text: &Vec<char>) -> (r: Vec<char>)
    ensures
        r@ == parts(part, text@),
{
    let ws = split_words(text);
    let mut out: Vec<Vec<char>> = Vec::new();
    let mut i: usize = 0;
    while i < ws.len()
        invariant
            i <= ws.len(),
            texts(ws@) == words(text@),
            texts(out@) == Seq::new(i as nat, |j: int| part_of(part, words(text@)[j])),
        decreases ws.len() - i,
    {
        let w = part_of_name(part, &ws[i]);
        let ghost before = out@;
        out.push(w);
        proof {
            lemma_texts_push(before, w);
            assert(texts(ws@)[i as int] == ws@[i as int]@);
            assert(texts(out@) =~= Seq::new(
                (i + 1) as nat,
                |j: int| part_of(part, words(text@)[j]),
            ));
        }
        i += 1;
    }
    join_leading_of(&out)
}

} // verus!
