//! The text functions that need nothing but their arguments.

use crate::number::{decimal, decimal_of, number, parse_number};
use crate::text::{
    append, contains, contains_text, copy_text, is_at, lemma_texts_push, matches_at, texts, trim,
    trim_of,
};
use crate::words::{
    join_leading, join_leading_of, join_single, join_single_of, join_trailing, join_trailing_of,
    split_words, words,
};
use vstd::prelude::*;

verus! {

// ---------------------------------------------------------------------
// subst
// ---------------------------------------------------------------------

/// `to` before each character of `text` from `i` on, and once more at the end.
pub open spec fn interleave_at(to: Seq<char>, text: Seq<char>, i: int) -> Seq<char>
    decreases text.len() - i,
{
    if 0 <= i < text.len() {
        to + seq![text[i]] + interleave_at(to, text, i + 1)
    } else {
        to
    }
}

/// `text` from `i` on with each occurrence of `from` replaced by `to`,
/// the occurrences taken from the left and not overlapping.
pub open spec fn subst_at(from: Seq<char>, to: Seq<char>, text: Seq<char>, i: int) -> Seq<char>
    decreases text.len() - i,
{
    if 0 <= i < text.len() && from.len() > 0 {
        if is_at(text, i, from) {
            to + subst_at(from, to, text, i + from.len())
        } else {
            seq![text[i]] + subst_at(from, to, text, i + 1)
        }
    } else {
        Seq::empty()
    }
}

/// `text` with every occurrence of `from` replaced by `to`. An empty `from`
/// occurs before each character and at the end.
pub open spec fn subst(from: Seq<char>, to: Seq<char>, text: Seq<char>) -> Seq<char> {
    if from.len() == 0 {
        interleave_at(to, text, 0)
    } else {
        subst_at(from, to, text, 0)
    }
}

/// `subst`: `text` with every occurrence of `from` replaced by `to`.
pub fn subst_text(from: &Vec<char>, to: &Vec<char>, text: &Vec<char>) -> (r: Vec<char>)
    ensures
        r@ == subst(from@, to@, text@),
{
    let mut out: Vec<char> = Vec::new();
    let mut i: usize = 0;
    if from.len() == 0 {
        while i < text.len()
            invariant
                i <= text.len(),
                out@ + interleave_at(to@, text@, i as int) == interleave_at(to@, text@, 0),
            decreases text.len() - i,
        {
            let ghost before = out@;
            append(&mut out, to);
            out.push(text[i]);
            proof {
                let rest = interleave_at(to@, text@, i + 1);
                assert(out@ + rest =~= before + (to@ + seq![text@[i as int]] + rest));
            }
            i += 1;
        }
        let ghost before = out@;
        append(&mut out, to);
        return out;
    }
    while i < text.len()
        invariant
            i <= text.len(),
            from.len() > 0,
            out@ + subst_at(from@, to@, text@, i as int) == subst_at(from@, to@, text@, 0),
        decreases text.len() - i,
    {
        let ghost before = out@;
        if matches_at(text, i, from) {
            append(&mut out, to);
            proof {
                let rest = subst_at(from@, to@, text@, i + from.len());
                assert(out@ + rest =~= before + (to@ + rest));
            }
            i += from.len();
        } else {
            out.push(text[i]);
            proof {
                let rest = subst_at(from@, to@, text@, i + 1);
                assert(out@ + rest =~= before + (seq![text@[i as int]] + rest));
            }
            i += 1;
        }
    }
    assert(out@ + Seq::<char>::empty() =~= out@);
    out
}

/// Replacing a text by itself changes nothing, from any position on.
pub proof fn lemma_subst_at_same(a: Seq<char>, s: Seq<char>, i: int)
    requires
        0 <= i <= s.len(),
        a.len() > 0,
    ensures
        subst_at(a, a, s, i) == s.skip(i),
    decreases s.len() - i,
{
    if i < s.len() {
        if is_at(s, i, a) {
            lemma_subst_at_same(a, s, i + a.len());
            assert(a + s.skip(i + a.len()) =~= s.skip(i));
        } else {
            lemma_subst_at_same(a, s, i + 1);
            assert(seq![s[i]] + s.skip(i + 1) =~= s.skip(i));
        }
    } else {
        assert(s.skip(i) =~= Seq::<char>::empty());
    }
}

pub proof fn lemma_interleave_empty(s: Seq<char>, i: int)
    requires
        0 <= i <= s.len(),
    ensures
        interleave_at(Seq::empty(), s, i) == s.skip(i),
    decreases s.len() - i,
{
    if i < s.len() {
        lemma_interleave_empty(s, i + 1);
        assert(Seq::<char>::empty() + seq![s[i]] + s.skip(i + 1) =~= s.skip(i));
    } else {
        assert(s.skip(i) =~= Seq::<char>::empty());
    }
}

/// Replacing a text by itself changes nothing: `subst(a, a, s) == s`.
pub proof fn lemma_subst_same(a: Seq<char>, s: Seq<char>)
    ensures
        subst(a, a, s) == s,
{
    if a.len() == 0 {
        assert(a =~= Seq::<char>::empty());
        lemma_interleave_empty(s, 0);
    } else {
        lemma_subst_at_same(a, s, 0);
    }
    assert(s.skip(0) =~= s);
}

// ---------------------------------------------------------------------
// strip, findstring, and picking words
// ---------------------------------------------------------------------

/// The words of `text` with single spaces between them.
pub open spec fn strip(text: Seq<char>) -> Seq<char> {
    join_single(words(text))
}

/// `strip`: the words of `text` with single spaces between them.
pub fn strip_text(text: &Vec<char>) -> (r: Vec<char>)
    ensures
        r@ == strip(text@),
{
    let ws = split_words(text);
    join_single_of(&ws)
}

/// `s` if it stands somewhere in `text`, else nothing.
pub open spec fn findstring(s: Seq<char>, text: Seq<char>) -> Seq<char> {
    if contains(text, s) {
        s
    } else {
        Seq::empty()
    }
}

/// `findstring`: `s` if it stands somewhere in `text`, else nothing.
pub fn findstring_text(s: &Vec<char>, text: &Vec<char>) -> (r: Vec<char>)
    ensures
        r@ == findstring(s@, text@),
{
    if contains_text(text, s) {
        copy_text(s)
    } else {
        Vec::new()
    }
}

pub open spec fn firstword(text: Seq<char>) -> Seq<char> {
    if words(text).len() > 0 {
        words(text).first()
    } else {
        Seq::empty()
    }
}

pub open spec fn lastword(text: Seq<char>) -> Seq<char> {
    if words(text).len() > 0 {
        words(text).last()
    } else {
        Seq::empty()
    }
}

/// The number of words of `text`, in decimal.
pub open spec fn word_count(text: Seq<char>) -> Seq<char> {
    decimal(words(text).len())
}

/// `firstword`: the first word of `text`, or nothing.
pub fn firstword_text(text: &Vec<char>) -> (r: Vec<char>)
    ensures
        r@ == firstword(text@),
{
    let ws = split_words(text);
    if ws.len() > 0 {
        copy_text(&ws[0])
    } else {
        Vec::new()
    }
}

/// `lastword`: the last word of `text`, or nothing.
pub fn lastword_text(text: &Vec<char>) -> (r: Vec<char>)
    ensures
        r@ == lastword(text@),
{
    let ws = split_words(text);
    if ws.len() > 0 {
        copy_text(&ws[ws.len() - 1])
    } else {
        Vec::new()
    }
}

/// `words`: the number of words of `text`, in decimal.
pub fn word_count_text(text: &Vec<char>) -> (r: Vec<char>)
    ensures
        r@ == word_count(text@),
{
    let ws = split_words(text);
    decimal_of(ws.len())
}

/// Why `word` or `wordlist` refuses an index.
#[derive(Clone, Copy, Debug, PartialEq, Eq, Structural)]
pub enum IndexFault {
    /// The first index is not a number.
    FirstNotNumber,
    /// The second index is not a number.
    SecondNotNumber,
    /// The first index is zero.
    FirstZero,
}

/// The word of `text` with the number that `n` writes, counted from one;
/// nothing if `text` has fewer words.
pub open spec fn word(n: Seq<char>, text: Seq<char>) -> Result<Seq<char>, IndexFault> {
    match number(trim(n)) {
        None => Err(IndexFault::FirstNotNumber),
        Some(k) => if k == 0 {
            Err(IndexFault::FirstZero)
        } else if k <= words(text).len() {
            Ok(words(text)[k - 1])
        } else {
            Ok(Seq::empty())
        },
    }
}

/// `word`: the word of `text` with the number that `n` writes.
pub fn word_text(n: &Vec<char>, text: &Vec<char>) -> (r: Result<Vec<char>, IndexFault>)
    ensures
        match r {
            Ok(w) => word(n@, text@) == Ok::<Seq<char>, IndexFault>(w@),
            Err(e) => word(n@, text@) == Err::<Seq<char>, IndexFault>(e),
        },
{
    let t = trim_of(n);
    match parse_number(&t) {
        None => Err(IndexFault::FirstNotNumber),
        Some(k) => {
            if k == 0 {
                Err(IndexFault::FirstZero)
            } else {
                let ws = split_words(text);
                if k <= ws.len() {
                    Ok(copy_text(&ws[k - 1]))
                } else {
                    Ok(Vec::new())
                }
            }
        },
    }
}

pub open spec fn min(a: int, b: int) -> int {
    if a <= b {
        a
    } else {
        b
    }
}

/// The words of `text` from number `s` to number `e`, counted from one, each
/// followed by a space; nothing if `e` is below `s`.
pub open spec fn wordlist(s: Seq<char>, e: Seq<char>, text: Seq<char>) -> Result<
    Seq<char>,
    IndexFault,
> {
    match number(trim(s)) {
        None => Err(IndexFault::FirstNotNumber),
        Some(a) => match number(trim(e)) {
            None => Err(IndexFault::SecondNotNumber),
            Some(b) => if a == 0 {
                Err(IndexFault::FirstZero)
            } else {
                let ws = words(text);
                let lo = min(a - 1, ws.len() as int);
                let hi = min(b as int, ws.len() as int);
                if lo < hi {
                    Ok(join_trailing(ws.subrange(lo, hi)))
                } else {
                    Ok(Seq::empty())
                }
            },
        },
    }
}

/// `wordlist`: the words of `text` from number `s` to number `e`.
pub fn wordlist_text(s: &Vec<char>, e: &Vec<char>, text: &Vec<char>) -> (r: Result<
    Vec<char>,
    IndexFault,
>)
    ensures
        match r {
            Ok(w) => wordlist(s@, e@, text@) == Ok::<Seq<char>, IndexFault>(w@),
            Err(f) => wordlist(s@, e@, text@) == Err::<Seq<char>, IndexFault>(f),
        },
{
    let ts = trim_of(s);
    let te = trim_of(e);
    match parse_number(&ts) {
        None => Err(IndexFault::FirstNotNumber),
        Some(a) => match parse_number(&te) {
            None => Err(IndexFault::SecondNotNumber),
            Some(b) => {
                if a == 0 {
                    return Err(IndexFault::FirstZero);
                }
                let ws = split_words(text);
                let lo: usize = if a - 1 <= ws.len() {
                    a - 1
                } else {
                    ws.len()
                };
                let hi: usize = if b <= ws.len() {
                    b
                } else {
                    ws.len()
                };
                if lo < hi {
                    let mut out: Vec<char> = Vec::new();
                    let mut i: usize = lo;
                    assert(texts(ws@).subrange(lo as int, lo as int) =~= Seq::<Seq<char>>::empty());
                    while i < hi
                        invariant
                            lo <= i <= hi <= ws.len(),
                            out@ == join_trailing(texts(ws@).subrange(lo as int, i as int)),
                        decreases hi - i,
                    {
                        append(&mut out, &ws[i]);
                        out.push(' ');
                        proof {
                            let t = texts(ws@).subrange(lo as int, i + 1);
                            assert(t.drop_last() =~= texts(ws@).subrange(lo as int, i as int));
                            assert(t.last() == ws@[i as int]@);
                        }
                        i += 1;
                    }
                    Ok(out)
                } else {
                    Ok(Vec::new())
                }
            },
        },
    }
}

// ---------------------------------------------------------------------
// addprefix, addsuffix, join
// ---------------------------------------------------------------------

/// Each word of `text` with `p` before it, and a space before that.
pub open spec fn addprefix(p: Seq<char>, text: Seq<char>) -> Seq<char> {
    let ws = words(text);
    join_leading(Seq::new(ws.len(), |i: int| p + ws[i]))
}

/// Each word of `text` with `s` after it, and a space before the word.
pub open spec fn addsuffix(s: Seq<char>, text: Seq<char>) -> Seq<char> {
    let ws = words(text);
    join_leading(Seq::new(ws.len(), |i: int| ws[i] + s))
}

/// The words of `a` and `b` joined in pairs, as far as both have words, each
/// pair followed by a space.
pub open spec fn join(a: Seq<char>, b: Seq<char>) -> Seq<char> {
    let wa = words(a);
    let wb = words(b);
    join_trailing(Seq::new(min(wa.len() as int, wb.len() as int) as nat, |i: int| wa[i] + wb[i]))
}

/// `addprefix`: each word of `text` with `p` before it.
pub fn addprefix_text(p: &Vec<char>, text: &Vec<char>) -> (r: Vec<char>)
    ensures
        r@ == addprefix(p@, text@),
{
    let ws = split_words(text);
    let mut out: Vec<Vec<char>> = Vec::new();
    let mut i: usize = 0;
    while i < ws.len()
        invariant
            i <= ws.len(),
            texts(ws@) == words(text@),
            texts(out@) == Seq::new(i as nat, |j: int| p@ + words(text@)[j]),
        decreases ws.len() - i,
    {
        let mut w = copy_text(p);
        append(&mut w, &ws[i]);
        let ghost before = out@;
        out.push(w);
        proof {
            lemma_texts_push(before, w);
            assert(texts(out@) =~= Seq::new((i + 1) as nat, |j: int| p@ + words(text@)[j]));
        }
        i += 1;
    }
    join_leading_of(&out)
}

/// `addsuffix`: each word of `text` with `s` after it.
pub fn addsuffix_text(s: &Vec<char>, text: &Vec<char>) -> (r: Vec<char>)
    ensures
        r@ == addsuffix(s@, text@),
{
    let ws = split_words(text);
    let mut out: Vec<Vec<char>> = Vec::new();
    let mut i: usize = 0;
    while i < ws.len()
        invariant
            i <= ws.len(),
            texts(ws@) == words(text@),
            texts(out@) == Seq::new(i as nat, |j: int| words(text@)[j] + s@),
        decreases ws.len() - i,
    {
        let mut w = copy_text(&ws[i]);
        append(&mut w, s);
        let ghost before = out@;
        out.push(w);
        proof {
            lemma_texts_push(before, w);
            assert(texts(out@) =~= Seq::new((i + 1) as nat, |j: int| words(text@)[j] + s@));
        }
        i += 1;
    }
    join_leading_of(&out)
}

/// `join`: the words of `a` and `b` joined in pairs.
pub fn join_text(a: &Vec<char>, b: &Vec<char>) -> (r: Vec<char>)
    ensures
        r@ == join(a@, b@),
{
    let wa = split_words(a);
    let wb = split_words(b);
    let n: usize = if wa.len() <= wb.len() {
        wa.len()
    } else {
        wb.len()
    };
    let mut out: Vec<Vec<char>> = Vec::new();
    let mut i: usize = 0;
    while i < n
        invariant
            i <= n,
            n <= wa.len(),
            n <= wb.len(),
            texts(wa@) == words(a@),
            texts(wb@) == words(b@),
            texts(out@) == Seq::new(i as nat, |j: int| words(a@)[j] + words(b@)[j]),
        decreases n - i,
    {
        let mut w = copy_text(&wa[i]);
        append(&mut w, &wb[i]);
        let ghost before = out@;
        out.push(w);
        proof {
            lemma_texts_push(before, w);
            assert(texts(wa@)[i as int] == wa@[i as int]@);
            assert(texts(wb@)[i as int] == wb@[i as int]@);
            assert(texts(out@) =~= Seq::new(
                (i + 1) as nat,
                |j: int| words(a@)[j] + words(b@)[j],
            ));
        }
        i += 1;
    }
    join_trailing_of(&out)
}

} // verus!
