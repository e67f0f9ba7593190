//! The order of words and `sort`: the words in order, each once.

use crate::text::texts;
use crate::words::{
    is_word, join_trailing, join_trailing_of, lemma_words_are_words, lemma_words_join_trailing,
    split_words, words,
};
use vstd::prelude::*;

verus! {

/// `a` comes before `b` in the order of the dictionary, where both agree
/// below position `i`: at the first position where they differ `a` holds the
/// smaller character, or `a` ends there and `b` goes on.
pub open spec fn before_at(a: Seq<char>, b: Seq<char>, i: int) -> bool
    decreases a.len() - i,
{
    if i < 0 || i >= b.len() {
        false
    } else if i >= a.len() {
        true
    } else if a[i] != b[i] {
        a[i] < b[i]
    } else {
        before_at(a, b, i + 1)
    }
}

/// `a` comes before `b` in the order of the dictionary.
pub open spec fn before(a: Seq<char>, b: Seq<char>) -> bool {
    before_at(a, b, 0)
}

pub proof fn lemma_before_transitive_at(a: Seq<char>, b: Seq<char>, c: Seq<char>, i: int)
    requires
        0 <= i,
        before_at(a, b, i),
        before_at(b, c, i),
    ensures
        before_at(a, c, i),
    decreases a.len() - i,
{
    if i < a.len() && a[i] == b[i] && b[i] == c[i] {
        lemma_before_transitive_at(a, b, c, i + 1);
    }
}

pub proof fn lemma_before_transitive(a: Seq<char>, b: Seq<char>, c: Seq<char>)
    requires
        before(a, b),
        before(b, c),
    ensures
        before(a, c),
{
    lemma_before_transitive_at(a, b, c, 0);
}

/// Of two texts that agree below `i`, one comes before the other or they
/// are equal.
pub proof fn lemma_before_total_at(a: Seq<char>, b: Seq<char>, i: int)
    requires
        0 <= i <= a.len(),
        i <= b.len(),
        a.take(i) == b.take(i),
    ensures
        before_at(a, b, i) || before_at(b, a, i) || a == b,
    decreases a.len() - i,
{
    if i >= a.len() || i >= b.len() {
        if i >= a.len() && i >= b.len() {
            assert(a.take(i) =~= a);
            assert(b.take(i) =~= b);
        }
    } else if a[i] == b[i] {
        assert(a.take(i + 1) =~= a.take(i).push(a[i]));
        assert(b.take(i + 1) =~= b.take(i).push(b[i]));
        lemma_before_total_at(a, b, i + 1);
    }
}

pub proof fn lemma_before_total(a: Seq<char>, b: Seq<char>)
    ensures
        before(a, b) || before(b, a) || a == b,
{
    assert(a.take(0) =~= b.take(0));
    lemma_before_total_at(a, b, 0);
}

pub proof fn lemma_before_asymmetric_at(a: Seq<char>, b: Seq<char>, i: int)
    requires
        0 <= i,
        before_at(a, b, i),
    ensures
        !before_at(b, a, i),
    decreases a.len() - i,
{
    if i < a.len() && i < b.len() && a[i] == b[i] {
        lemma_before_asymmetric_at(a, b, i + 1);
    }
}

/// No text comes before itself, and of two texts at most one comes before
/// the other.
pub proof fn lemma_before_asymmetric(a: Seq<char>, b: Seq<char>)
    requires
        before(a, b),
    ensures
        !before(b, a),
        a != b,
{
    lemma_before_asymmetric_at(a, b, 0);
}

/// Whether `a` comes before `b` in the order of the dictionary.
pub fn comes_before(a: &Vec<char>, b: &Vec<char>) -> (r: bool)
    ensures
        r == before(a@, b@),
{
    let mut i: usize = 0;
    while i < a.len() && i < b.len()
        invariant
            i <= a.len(),
            i <= b.len(),
            before_at(a@, b@, i as int) == before(a@, b@),
        decreases a.len() - i,
    {
        if a[i] != b[i] {
            return a[i] < b[i];
        }
        i += 1;
    }
    i < b.len()
}

/// Each text comes before those that follow it.
pub open spec fn ascending(s: Seq<Seq<char>>) -> bool {
    forall|i: int, j: int| 0 <= i < j < s.len() ==> before(#[trigger] s[i], #[trigger] s[j])
}

/// Where `w` belongs in an ascending list, looked for from position `j`
/// downwards: after the last text that `w` does not come before.
pub open spec fn insert_pos(s: Seq<Seq<char>>, w: Seq<char>, j: int) -> int
    decreases j,
{
    if 0 < j <= s.len() && before(w, s[j - 1]) {
        insert_pos(s, w, j - 1)
    } else {
        j
    }
}

/// The ascending list with `w` in its place, unless it holds `w` already.
pub open spec fn insert(s: Seq<Seq<char>>, w: Seq<char>) -> Seq<Seq<char>> {
    let p = insert_pos(s, w, s.len() as int);
    if 0 < p <= s.len() && s[p - 1] == w {
        s
    } else {
        s.insert(p, w)
    }
}

/// The texts of a list in ascending order, each once.
pub open spec fn sort_unique(ws: Seq<Seq<char>>) -> Seq<Seq<char>>
    decreases ws.len(),
{
    if ws.len() == 0 {
        Seq::empty()
    } else {
        insert(sort_unique(ws.drop_last()), ws.last())
    }
}

/// `sort`: the words of `text` in ascending order, each once and followed by
/// a space.
pub open spec fn sort(text: Seq<char>) -> Seq<char> {
    join_trailing(sort_unique(words(text)))
}

pub proof fn lemma_insert_pos(s: Seq<Seq<char>>, w: Seq<char>, j: int)
    requires
        0 <= j <= s.len(),
    ensures
        0 <= insert_pos(s, w, j) <= j,
        forall|k: int| insert_pos(s, w, j) <= k < j ==> before(w, #[trigger] s[k]),
        insert_pos(s, w, j) > 0 ==> !before(w, s[insert_pos(s, w, j) - 1]),
    decreases j,
{
    if 0 < j && before(w, s[j - 1]) {
        lemma_insert_pos(s, w, j - 1);
    }
}

/// Inserting keeps the order, adds at most one text, and holds what the
/// list held and `w`.
pub proof fn lemma_insert(s: Seq<Seq<char>>, w: Seq<char>)
    requires
        ascending(s),
    ensures
        ascending(insert(s, w)),
        s.len() <= insert(s, w).len() <= s.len() + 1,
        insert(s, w).contains(w),
        forall|i: int| 0 <= i < s.len() ==> insert(s, w).contains(#[trigger] s[i]),
        forall|i: int|
            0 <= i < insert(s, w).len() ==> (#[trigger] insert(s, w)[i]) == w || s.contains(
                insert(s, w)[i],
            ),
{
    let p = insert_pos(s, w, s.len() as int);
    lemma_insert_pos(s, w, s.len() as int);
    let t = insert(s, w);
    if 0 < p && s[p - 1] == w {
        assert(t[p - 1] == w);
        assert forall|i: int| 0 <= i < s.len() implies t.contains(#[trigger] s[i]) by {
            assert(t[i] == s[i]);
        }
        assert forall|i: int| 0 <= i < t.len() implies (#[trigger] t[i]) == w || s.contains(
            t[i],
        ) by {
            assert(s[i] == t[i]);
        }
    } else {
        s.insert_ensures(p, w);
        assert(t.len() == s.len() + 1);
        assert(t[p] == w);
        assert forall|i: int| 0 <= i < p implies t[i] == s[i] by {}
        assert forall|i: int| p < i < t.len() implies t[i] == s[i - 1] by {}
        assert forall|i: int| 0 <= i < p implies before(#[trigger] s[i], w) by {
            lemma_before_total(w, s[p - 1]);
            assert(before(s[p - 1], w));
            if i < p - 1 {
                assert(before(s[i], s[p - 1]));
                lemma_before_transitive(s[i], s[p - 1], w);
            }
        }
        assert forall|i: int, j: int| 0 <= i < j < t.len() implies before(
            #[trigger] t[i],
            #[trigger] t[j],
        ) by {
            if j < p {
                assert(before(s[i], s[j]));
            } else if j == p {
                assert(before(s[i], w));
            } else if i < p {
                assert(before(s[i], s[j - 1]));
            } else if i == p {
                assert(before(w, s[j - 1]));
            } else {
                assert(before(s[i - 1], s[j - 1]));
            }
        }
        assert forall|i: int| 0 <= i < s.len() implies t.contains(#[trigger] s[i]) by {
            if i < p {
                assert(t[i] == s[i]);
            } else {
                assert(t[i + 1] == s[i]);
            }
        }
        assert forall|i: int| 0 <= i < t.len() implies (#[trigger] t[i]) == w || s.contains(
            t[i],
        ) by {
            if i < p {
                assert(s[i] == t[i]);
            } else if i > p {
                assert(s[i - 1] == t[i]);
            }
        }
    }
}

/// What `sort_unique` gives is in ascending order, so holds no text twice;
/// it is no longer than the list; and it holds the same texts.
pub proof fn lemma_sort_unique(ws: Seq<Seq<char>>)
    ensures
        ascending(sort_unique(ws)),
        sort_unique(ws).len() <= ws.len(),
        forall|i: int| 0 <= i < ws.len() ==> sort_unique(ws).contains(#[trigger] ws[i]),
        forall|i: int|
            0 <= i < sort_unique(ws).len() ==> ws.contains(#[trigger] sort_unique(ws)[i]),
    decreases ws.len(),
{
    if ws.len() > 0 {
        let init = ws.drop_last();
        let s = sort_unique(init);
        let t = sort_unique(ws);
        lemma_sort_unique(init);
        lemma_insert(s, ws.last());
        assert forall|i: int| 0 <= i < ws.len() implies t.contains(#[trigger] ws[i]) by {
            if i < ws.len() - 1 {
                assert(init[i] == ws[i]);
                assert(s.contains(init[i]));
                let k = choose|k: int| 0 <= k < s.len() && s[k] == ws[i];
                assert(t.contains(s[k]));
            }
        }
        assert forall|i: int| 0 <= i < t.len() implies ws.contains(#[trigger] t[i]) by {
            if t[i] == ws.last() {
                assert(ws[ws.len() - 1] == t[i]);
            } else {
                assert(s.contains(t[i]));
                let k = choose|k: int| 0 <= k < s.len() && s[k] == t[i];
                assert(init.contains(s[k]));
                let m = choose|m: int| 0 <= m < init.len() && init[m] == s[k];
                assert(ws[m] == t[i]);
            }
        }
    }
}

fn insert_word(s: &mut Vec<Vec<char>>, w: Vec<char>)
    ensures
        texts(final(s)@) == insert(texts(old(s)@), w@),
{
    let mut j: usize = s.len();
    while j > 0 && comes_before(&w, &s[j - 1])
        invariant
            j <= s.len(),
            *s == *old(s),
            insert_pos(texts(s@), w@, j as int) == insert_pos(texts(s@), w@, s.len() as int),
        decreases j,
    {
        j -= 1;
    }
    if j > 0 && crate::text::text_eq(&s[j - 1], &w) {
    } else {
        s.insert(j, w);
        assert(texts(s@) =~= texts(old(s)@).insert(j as int, w@));
    }
}

/// The texts in ascending order, each once.
pub fn sort_words(ws: &Vec<Vec<char>>) -> (r: Vec<Vec<char>>)
    ensures
        texts(r@) == sort_unique(texts(ws@)),
{
    let mut r: Vec<Vec<char>> = Vec::new();
    let mut i: usize = 0;
    assert(texts(ws@).take(0) =~= Seq::<Seq<char>>::empty());
    assert(texts(r@) =~= Seq::<Seq<char>>::empty());
    while i < ws.len()
        invariant
            i <= ws.len(),
            texts(r@) == sort_unique(texts(ws@).take(i as int)),
        decreases ws.len() - i,
    {
        proof {
            let t = texts(ws@).take(i + 1);
            assert(t.drop_last() =~= texts(ws@).take(i as int));
            assert(t.last() == ws@[i as int]@);
        }
        insert_word(&mut r, crate::text::copy_text(&ws[i]));
        i += 1;
    }
    assert(texts(ws@).take(ws.len() as int) =~= texts(ws@));
    r
}

/// `sort`: the words of `text` in ascending order, each once.
pub fn sort_text(text: &Vec<char>) -> (r: Vec<char>)
    ensures
        r@ == sort(text@),
{
    let ws = split_words(text);
    let s = sort_words(&ws);
    join_trailing_of(&s)
}

/// The words of what `sort` gives are the words of the text in ascending
/// order, each once.
pub proof fn lemma_words_of_sort(text: Seq<char>)
    ensures
        words(sort(text)) == sort_unique(words(text)),
{
    let ws = words(text);
    let s = sort_unique(ws);
    lemma_words_are_words(text);
    lemma_sort_unique(ws);
    assert forall|i: int| 0 <= i < s.len() implies is_word(#[trigger] s[i]) by {
        assert(ws.contains(s[i]));
        let k = choose|k: int| 0 <= k < ws.len() && ws[k] == s[i];
        assert(is_word(ws[k]));
    }
    lemma_words_join_trailing(s);
}

/// Inserting adds a text exactly where the list does not hold it.
pub proof fn lemma_insert_len(s: Seq<Seq<char>>, w: Seq<char>)
    requires
        ascending(s),
    ensures
        insert(s, w).len() == s.len() + (if s.contains(w) {
            0int
        } else {
            1int
        }),
{
    let p = insert_pos(s, w, s.len() as int);
    lemma_insert_pos(s, w, s.len() as int);
    if 0 < p && s[p - 1] == w {
        assert(s.contains(w));
    } else {
        s.insert_ensures(p, w);
        if s.contains(w) {
            let k = choose|k: int| 0 <= k < s.len() && s[k] == w;
            if k >= p {
                assert(before(w, s[k]));
                lemma_before_asymmetric(w, s[k]);
            } else {
                assert(k < p - 1);
                assert(before(s[k], s[p - 1]));
            }
        }
    }
}

/// The words in order, each once, are as many as the words exactly where
/// no word occurs twice.
pub proof fn lemma_sort_keeps_count(ws: Seq<Seq<char>>)
    ensures
        sort_unique(ws).len() == ws.len() <==> ws.no_duplicates(),
    decreases ws.len(),
{
    if ws.len() > 0 {
        let init = ws.drop_last();
        let w = ws.last();
        let s = sort_unique(init);
        lemma_sort_keeps_count(init);
        lemma_sort_unique(init);
        lemma_insert_len(s, w);
        assert(s.contains(w) <==> init.contains(w)) by {
            if s.contains(w) {
                let k = choose|k: int| 0 <= k < s.len() && s[k] == w;
                assert(init.contains(s[k]));
            }
            if init.contains(w) {
                let k = choose|k: int| 0 <= k < init.len() && init[k] == w;
                assert(s.contains(init[k]));
            }
        }
        assert(ws.no_duplicates() <==> (init.no_duplicates() && !init.contains(w))) by {
            if ws.no_duplicates() {
                assert forall|i: int, j: int|
                    0 <= i < init.len() && 0 <= j < init.len() && i != j implies init[i]
                    != init[j] by {
                    assert(init[i] == ws[i] && init[j] == ws[j]);
                }
                if init.contains(w) {
                    let k = choose|k: int| 0 <= k < init.len() && init[k] == w;
                    assert(ws[k] == ws[ws.len() - 1]);
                }
            }
            if init.no_duplicates() && !init.contains(w) {
                assert forall|i: int, j: int|
                    0 <= i < ws.len() && 0 <= j < ws.len() && i != j implies ws[i] != ws[j] by {
                    if i < init.len() && j < init.len() {
                        assert(init[i] == ws[i] && init[j] == ws[j]);
                    } else if i < init.len() {
                        assert(init[i] == ws[i]);
                        if ws[i] == ws[j] {
                            assert(init.contains(w));
                        }
                    } else if j < init.len() {
                        assert(init[j] == ws[j]);
                        if ws[i] == ws[j] {
                            assert(init.contains(w));
                        }
                    }
                }
            }
        }
    }
}

/// `$(words $(sort L))` against `$(words L)`: sorting never gives more
/// words than the text has, and it gives as many exactly where no word of
/// the text occurs twice.
pub proof fn lemma_sort_word_count(text: Seq<char>)
    ensures
        words(sort(text)).len() <= words(text).len(),
        words(sort(text)).len() == words(text).len() <==> words(text).no_duplicates(),
{
    lemma_words_of_sort(text);
    lemma_sort_unique(words(text));
    lemma_sort_keeps_count(words(text));
}

/// The first word of what `sort` gives is the least word of the text: it is
/// one of the text's words, and each of them is equal to it or comes after
/// it. A text without words gives nothing.
pub proof fn lemma_firstword_of_sort(text: Seq<char>)
    ensures
        words(text).len() == 0 ==> crate::funcs::firstword(sort(text)) == Seq::<char>::empty(),
        words(text).len() > 0 ==> words(text).contains(crate::funcs::firstword(sort(text))),
        forall|i: int|
            0 <= i < words(text).len() ==> (#[trigger] words(text)[i]) == crate::funcs::firstword(
                sort(text),
            ) || before(crate::funcs::firstword(sort(text)), words(text)[i]),
{
    let ws = words(text);
    let s = sort_unique(ws);
    lemma_words_of_sort(text);
    lemma_sort_unique(ws);
    if ws.len() > 0 {
        assert(s.contains(ws[0]));
        assert(s.len() > 0);
        let m = s[0];
        assert(crate::funcs::firstword(sort(text)) == m);
        assert(ws.contains(s[0]));
        assert forall|i: int| 0 <= i < ws.len() implies (#[trigger] ws[i]) == m || before(
            m,
            ws[i],
        ) by {
            assert(s.contains(ws[i]));
            let k = choose|k: int| 0 <= k < s.len() && s[k] == ws[i];
            if k > 0 {
                assert(before(s[0], s[k]));
            }
        }
    }
}

} // verus!
