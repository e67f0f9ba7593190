//! Patterns with `%`: `patsubst` and substitution references.

use crate::text::{
    append, copy_text, ends_with, ends_with_text, first_index, index_of, lemma_texts_push,
    slice_of, starts_with, starts_with_text, text_eq, texts,
};
use crate::words::{join_single, join_single_of, split_words, words};
use vstd::prelude::*;

verus! {

/// Whether the text holds a `%`.
pub open spec fn has_percent(p: Seq<char>) -> bool {
    first_index(p, '%', 0) < p.len()
}

/// What stands before the first `%` of a text that holds one.
pub open spec fn before_percent(p: Seq<char>) -> Seq<char> {
    p.take(first_index(p, '%', 0))
}

/// What stands after the first `%` of a text that holds one.
pub open spec fn after_percent(p: Seq<char>) -> Seq<char> {
    p.skip(first_index(p, '%', 0) + 1)
}

/// The stem of a word that a pattern with `%` matches: what the word holds
/// between the pattern's two parts.
pub open spec fn stem(pat: Seq<char>, word: Seq<char>) -> Option<Seq<char>> {
    let pre = before_percent(pat);
    let post = after_percent(pat);
    if word.len() >= pre.len() + post.len() && starts_with(word, pre) && ends_with(word, post) {
        Some(word.subrange(pre.len() as int, word.len() - post.len()))
    } else {
        None
    }
}

/// The replacement with the stem in the place of its first `%`; the
/// replacement itself if it holds none.
pub open spec fn splice(repl: Seq<char>, stem: Seq<char>) -> Seq<char> {
    if has_percent(repl) {
        before_percent(repl) + stem + after_percent(repl)
    } else {
        repl
    }
}

/// What `patsubst` makes of one word: a word that the pattern matches is
/// replaced, and any other word stays as it is. A pattern with `%` matches
/// the words that begin and end as it does; one without `%` matches the
/// word equal to it.
pub open spec fn patsubst_word(pat: Seq<char>, repl: Seq<char>, word: Seq<char>) -> Seq<char> {
    if has_percent(pat) {
        match stem(pat, word) {
            Some(s) => splice(repl, s),
            None => word,
        }
    } else if word == pat {
        repl
    } else {
        word
    }
}

/// What a substitution reference makes of one word: with `%` what
/// `patsubst` makes of it; without `%` the pattern is an ending, which is
/// replaced, and a word without that ending stays as it is.
pub open spec fn substref_word(pat: Seq<char>, repl: Seq<char>, word: Seq<char>) -> Seq<char> {
    if has_percent(pat) {
        patsubst_word(pat, repl, word)
    } else if ends_with(word, pat) {
        word.take(word.len() - pat.len()) + repl
    } else {
        word
    }
}

/// What `patsubst` (or, with `ending`, a substitution reference) makes of
/// one word.
pub open spec fn replace_one(ending: bool, pat: Seq<char>, repl: Seq<char>, word: Seq<char>) -> Seq<
    char,
> {
    if ending {
        substref_word(pat, repl, word)
    } else {
        patsubst_word(pat, repl, word)
    }
}

/// The words that `patsubst` (or, with `ending`, a substitution reference)
/// makes of a list of words: one for each, in their order.
pub open spec fn replace_words(
    ending: bool,
    pat: Seq<char>,
    repl: Seq<char>,
    ws: Seq<Seq<char>>,
) -> Seq<Seq<char>> {
    Seq::new(ws.len(), |i: int| replace_one(ending, pat, repl, ws[i]))
}

/// `patsubst`: the words of `text`, each as `patsubst_word` says, with
/// single spaces between them.
pub open spec fn patsubst(pat: Seq<char>, repl: Seq<char>, text: Seq<char>) -> Seq<char> {
    join_single(replace_words(false, pat, repl, words(text)))
}

/// A substitution reference applied to the value `text`: its words, each
/// as `substref_word` says, with single spaces between them.
pub open spec fn substref(pat: Seq<char>, repl: Seq<char>, text: Seq<char>) -> Seq<char> {
    join_single(replace_words(true, pat, repl, words(text)))
}

fn stem_of(pat: &Vec<char>, word: &Vec<char>) -> (r: Option<Vec<char>>)
    requires
        has_percent(pat@),
    ensures
        match r {
            Some(s) => stem(pat@, word@) == Some(s@),
            None => stem(pat@, word@) is None,
        },
{
    let k = index_of(pat, '%');
    let pre = slice_of(pat, 0, k);
    let post = slice_of(pat, k + 1, pat.len());
    assert(pre@ =~= before_percent(pat@));
    assert(post@ =~= after_percent(pat@));
    if word.len() >= pat.len() - 1 && starts_with_text(word, &pre) && ends_with_text(word, &post) {
        Some(slice_of(word, pre.len(), word.len() - post.len()))
    } else {
        None
    }
}

fn splice_of(repl: &Vec<char>, stem: &Vec<char>) -> (r: Vec<char>)
    ensures
        r@ == splice(repl@, stem@),
{
    let k = index_of(repl, '%');
    if k < repl.len() {
        let mut out = slice_of(repl, 0, k);
        append(&mut out, stem);
        let post = slice_of(repl, k + 1, repl.len());
        append(&mut out, &post);
        assert(out@ =~= before_percent(repl@) + stem@ + after_percent(repl@));
        out
    } else {
        copy_text(repl)
    }
}

fn replace_word(ending: bool, pat: &Vec<char>, repl: &Vec<char>, word: &Vec<char>) -> (r: Vec<char>)
    ensures
        r@ == replace_one(ending, pat@, repl@, word@),
{
    let k = index_of(pat, '%');
    if k < pat.len() {
        match stem_of(pat, word) {
            Some(s) => splice_of(repl, &s),
            None => copy_text(word),
        }
    } else if ending {
        if ends_with_text(word, pat) {
            let mut out = slice_of(word, 0, word.len() - pat.len());
            append(&mut out, repl);
            assert(out@ =~= word@.take(word.len() - pat.len()) + repl@);
            out
        } else {
            copy_text(word)
        }
    } else if text_eq(word, pat) {
        copy_text(repl)
    } else {
        copy_text(word)
    }
}

fn replace_text(ending: bool, pat: &Vec<char>, repl: &Vec<char>, text: &Vec<char>) -> (r: Vec<char>)
    ensures
        r@ == join_single(replace_words(ending, pat@, repl@, words(text@))),
{
    let ws = split_words(text);
    let mut out: Vec<Vec<char>> = Vec::new();
    let mut i: usize = 0;
    while i < ws.len()
        invariant
            i <= ws.len(),
            texts(ws@) == words(text@),
            texts(out@) == Seq::new(
                i as nat,
                |j: int| replace_one(ending, pat@, repl@, words(text@)[j]),
            ),
        decreases ws.len() - i,
    {
        let w = replace_word(ending, pat, repl, &ws[i]);
        let ghost before = out@;
        out.push(w);
        proof {
            lemma_texts_push(before, w);
            assert(texts(ws@)[i as int] == ws@[i as int]@);
            assert(texts(out@) =~= Seq::new(
                (i + 1) as nat,
                |j: int| replace_one(ending, pat@, repl@, words(text@)[j]),
            ));
        }
        i += 1;
    }
    join_single_of(&out)
}

/// `patsubst`: the words of `text`, those that the pattern matches replaced.
pub fn patsubst_text(pat: &Vec<char>, repl: &Vec<char>, text: &Vec<char>) -> (r: Vec<char>)
    ensures
        r@ == patsubst(pat@, repl@, text@),
{
    replace_text(false, pat, repl, text)
}

/// A substitution reference applied to the value `text`.
pub fn substref_text(pat: &Vec<char>, repl: &Vec<char>, text: &Vec<char>) -> (r: Vec<char>)
    ensures
        r@ == substref(pat@, repl@, text@),
{
    replace_text(true, pat, repl, text)
}

/// The pattern `%` with the replacement `%` gives every word back.
pub proof fn lemma_replace_words_percent(ws: Seq<Seq<char>>)
    ensures
        replace_words(false, seq!['%'], seq!['%'], ws) == ws,
{
    let p = seq!['%'];
    assert(first_index(p, '%', 0) == 0);
    assert(before_percent(p) =~= Seq::<char>::empty());
    assert(after_percent(p) =~= Seq::<char>::empty());
    assert forall|i: int| 0 <= i < ws.len() implies replace_one(false, p, p, ws[i]) == ws[i] by {
        let w = ws[i];
        assert(w.subrange(0, 0) =~= Seq::<char>::empty());
        assert(w.subrange(w.len() as int, w.len() as int) =~= Seq::<char>::empty());
        assert(stem(p, w) == Some(w.subrange(0, w.len() as int)));
        assert(w.subrange(0, w.len() as int) =~= w);
        assert(splice(p, w) =~= w);
    }
    assert(replace_words(false, p, p, ws) =~= ws);
}

/// `patsubst` of `%` by `%` is `strip`: the words with single spaces
/// between them.
pub proof fn lemma_patsubst_percent(text: Seq<char>)
    ensures
        patsubst(seq!['%'], seq!['%'], text) == crate::funcs::strip(text),
{
    lemma_replace_words_percent(words(text));
}

} // verus!
