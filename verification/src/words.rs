//! Words: the maximal runs of characters that are not white space, and the
//! ways of writing a list of words back as one text.

use crate::text::{append, is_space, is_space_char, texts};
use vstd::prelude::*;

verus! {

/// A word that has come to its end: nothing, if no character was read.
pub open spec fn flush(cur: Seq<char>) -> Seq<Seq<char>> {
    if cur.len() > 0 {
        seq![cur]
    } else {
        Seq::empty()
    }
}

/// The words of `cur` followed by `rest`, where `cur` holds the characters of
/// a word that has begun.
pub open spec fn split(rest: Seq<char>, cur: Seq<char>) -> Seq<Seq<char>>
    decreases rest.len(),
{
    if rest.len() == 0 {
        flush(cur)
    } else if is_space(rest[0]) {
        flush(cur) + split(rest.drop_first(), Seq::empty())
    } else {
        split(rest.drop_first(), cur.push(rest[0]))
    }
}

/// The words of `s`: its maximal runs of characters that are not white space.
pub open spec fn words(s: Seq<char>) -> Seq<Seq<char>> {
    split(s, Seq::empty())
}

/// No character of `w` is white space.
pub open spec fn spaceless(w: Seq<char>) -> bool {
    forall|i: int| 0 <= i < w.len() ==> !is_space(#[trigger] w[i])
}

/// `w` can be a word: it is not empty and holds no white space.
pub open spec fn is_word(w: Seq<char>) -> bool {
    w.len() > 0 && spaceless(w)
}

pub open spec fn all_words(ws: Seq<Seq<char>>) -> bool {
    forall|i: int| 0 <= i < ws.len() ==> is_word(#[trigger] ws[i])
}

/// The words of `s`.
pub fn split_words(s: &Vec<char>) -> (ws: Vec<Vec<char>>)
    ensures
        texts(ws@) == words(s@),
{
    let mut ws: Vec<Vec<char>> = Vec::new();
    let mut cur: Vec<char> = Vec::new();
    let mut i: usize = 0;
    proof {
        assert(s@.skip(0) =~= s@);
        assert(texts(ws@) + split(s@, cur@) =~= split(s@, cur@));
    }
    while i < s.len()
        invariant
            i <= s.len(),
            texts(ws@) + split(s@.skip(i as int), cur@) == words(s@),
        decreases s.len() - i,
    {
        let c = s[i];
        let ghost before = texts(ws@);
        let ghost rest = s@.skip(i as int);
        proof {
            assert(rest.drop_first() =~= s@.skip(i + 1));
            assert(rest[0] == c);
        }
        if is_space_char(c) {
            if cur.len() > 0 {
                let ghost word = cur@;
                ws.push(cur);
                cur = Vec::new();
                proof {
                    assert(texts(ws@) =~= before + flush(word));
                    assert(texts(ws@) + split(rest.drop_first(), cur@) =~= before + (flush(word)
                        + split(rest.drop_first(), Seq::empty())));
                }
            } else {
                assert(cur@ =~= Seq::<char>::empty());
                assert(flush(cur@) + split(rest.drop_first(), Seq::empty()) =~= split(
                    rest.drop_first(),
                    Seq::empty(),
                ));
            }
        } else {
            cur.push(c);
        }
        i += 1;
    }
    let ghost before = texts(ws@);
    if cur.len() > 0 {
        ws.push(cur);
        assert(texts(ws@) =~= before + flush(cur@));
    } else {
        assert(before + flush(cur@) =~= before);
    }
    ws
}

/// What reading `a` does to a word that has begun: the words that end inside
/// `a`, and the word that is open at its end.
pub open spec fn feed(a: Seq<char>, cur: Seq<char>) -> (Seq<Seq<char>>, Seq<char>)
    decreases a.len(),
{
    if a.len() == 0 {
        (Seq::empty(), cur)
    } else if is_space(a[0]) {
        let (ws, last) = feed(a.drop_first(), Seq::empty());
        (flush(cur) + ws, last)
    } else {
        feed(a.drop_first(), cur.push(a[0]))
    }
}

/// Splitting `a + b` is reading `a` and then splitting `b`.
pub proof fn lemma_split_concat(a: Seq<char>, b: Seq<char>, cur: Seq<char>)
    ensures
        split(a + b, cur) == feed(a, cur).0 + split(b, feed(a, cur).1),
    decreases a.len(),
{
    if a.len() == 0 {
        assert(a + b == b);
    } else {
        assert((a + b).drop_first() == a.drop_first() + b);
        assert((a + b)[0] == a[0]);
        if is_space(a[0]) {
            lemma_split_concat(a.drop_first(), b, Seq::empty());
            let (ws, last) = feed(a.drop_first(), Seq::empty());
            assert(flush(cur) + (ws + split(b, last)) == (flush(cur) + ws) + split(b, last));
        } else {
            lemma_split_concat(a.drop_first(), b, cur.push(a[0]));
        }
    }
}

/// Reading text without white space only lengthens the open word.
pub proof fn lemma_feed_spaceless(w: Seq<char>, cur: Seq<char>)
    requires
        spaceless(w),
    ensures
        feed(w, cur) == (Seq::<Seq<char>>::empty(), cur + w),
    decreases w.len(),
{
    if w.len() == 0 {
        assert(cur + w == cur);
    } else {
        assert(!is_space(w[0]));
        assert forall|i: int| 0 <= i < w.drop_first().len() implies !is_space(
            #[trigger] w.drop_first()[i],
        ) by {
            assert(w.drop_first()[i] == w[i + 1]);
        }
        lemma_feed_spaceless(w.drop_first(), cur.push(w[0]));
        assert(cur.push(w[0]) + w.drop_first() == cur + w);
    }
}

/// Every word of a text is a word: not empty, and without white space.
pub proof fn lemma_split_all_words(s: Seq<char>, cur: Seq<char>)
    requires
        spaceless(cur),
    ensures
        all_words(split(s, cur)),
    decreases s.len(),
{
    if s.len() == 0 {
    } else if is_space(s[0]) {
        lemma_split_all_words(s.drop_first(), Seq::empty());
    } else {
        lemma_split_all_words(s.drop_first(), cur.push(s[0]));
    }
}

pub proof fn lemma_words_are_words(s: Seq<char>)
    ensures
        all_words(words(s)),
{
    lemma_split_all_words(s, Seq::empty());
}

/// Reading `a + b` is reading `a` and then `b`.
pub proof fn lemma_feed_concat(a: Seq<char>, b: Seq<char>, cur: Seq<char>)
    ensures
        feed(a + b, cur) == (
            feed(a, cur).0 + feed(b, feed(a, cur).1).0,
            feed(b, feed(a, cur).1).1,
        ),
    decreases a.len(),
{
    if a.len() == 0 {
        assert(a + b =~= b);
        assert(Seq::<Seq<char>>::empty() + feed(b, cur).0 =~= feed(b, cur).0);
    } else {
        assert((a + b).drop_first() =~= a.drop_first() + b);
        assert((a + b)[0] == a[0]);
        if is_space(a[0]) {
            lemma_feed_concat(a.drop_first(), b, Seq::empty());
            let (ws, last) = feed(a.drop_first(), Seq::empty());
            assert(flush(cur) + (ws + feed(b, last).0) =~= (flush(cur) + ws) + feed(b, last).0);
        } else {
            lemma_feed_concat(a.drop_first(), b, cur.push(a[0]));
        }
    }
}

/// Splitting is reading to the end and closing the open word.
pub proof fn lemma_split_feed(s: Seq<char>, cur: Seq<char>)
    ensures
        split(s, cur) == feed(s, cur).0 + flush(feed(s, cur).1),
{
    lemma_split_concat(s, Seq::empty(), cur);
    assert(s + Seq::<char>::empty() =~= s);
}

/// One white-space character closes the open word.
pub proof fn lemma_feed_space(c: char, cur: Seq<char>)
    requires
        is_space(c),
    ensures
        feed(seq![c], cur) == (flush(cur), Seq::<char>::empty()),
{
    let a = seq![c];
    assert(a.drop_first() =~= Seq::<char>::empty());
    assert(feed(a.drop_first(), Seq::empty()) == (Seq::<Seq<char>>::empty(), Seq::<char>::empty()));
    assert(flush(cur) + Seq::<Seq<char>>::empty() =~= flush(cur));
}

// ---------------------------------------------------------------------
// Writing a list of words as one text
// ---------------------------------------------------------------------

/// Each word followed by one space.
pub open spec fn join_trailing(ws: Seq<Seq<char>>) -> Seq<char>
    decreases ws.len(),
{
    if ws.len() == 0 {
        Seq::empty()
    } else {
        join_trailing(ws.drop_last()) + ws.last() + seq![' ']
    }
}

/// Each word with one space before it.
pub open spec fn join_leading(ws: Seq<Seq<char>>) -> Seq<char>
    decreases ws.len(),
{
    if ws.len() == 0 {
        Seq::empty()
    } else {
        join_leading(ws.drop_last()) + seq![' '] + ws.last()
    }
}

/// The words with one space between each two.
pub open spec fn join_single(ws: Seq<Seq<char>>) -> Seq<char> {
    if ws.len() == 0 {
        Seq::empty()
    } else {
        join_trailing(ws.drop_last()) + ws.last()
    }
}

/// The texts, each followed by one space.
pub fn join_trailing_of(ws: &Vec<Vec<char>>) -> (r: Vec<char>)
    ensures
        r@ == join_trailing(texts(ws@)),
{
    let mut r: Vec<char> = Vec::new();
    let mut i: usize = 0;
    assert(texts(ws@).take(0) =~= Seq::<Seq<char>>::empty());
    while i < ws.len()
        invariant
            i <= ws.len(),
            r@ == join_trailing(texts(ws@).take(i as int)),
        decreases ws.len() - i,
    {
        append(&mut r, &ws[i]);
        r.push(' ');
        proof {
            let t = texts(ws@).take(i + 1);
            assert(t.drop_last() =~= texts(ws@).take(i as int));
            assert(t.last() == ws@[i as int]@);
        }
        i += 1;
    }
    assert(texts(ws@).take(ws.len() as int) =~= texts(ws@));
    r
}

/// The texts, each with one space before it.
pub fn join_leading_of(ws: &Vec<Vec<char>>) -> (r: Vec<char>)
    ensures
        r@ == join_leading(texts(ws@)),
{
    let mut r: Vec<char> = Vec::new();
    let mut i: usize = 0;
    assert(texts(ws@).take(0) =~= Seq::<Seq<char>>::empty());
    while i < ws.len()
        invariant
            i <= ws.len(),
            r@ == join_leading(texts(ws@).take(i as int)),
        decreases ws.len() - i,
    {
        r.push(' ');
        append(&mut r, &ws[i]);
        proof {
            let t = texts(ws@).take(i + 1);
            assert(t.drop_last() =~= texts(ws@).take(i as int));
            assert(t.last() == ws@[i as int]@);
        }
        i += 1;
    }
    assert(texts(ws@).take(ws.len() as int) =~= texts(ws@));
    r
}

/// The texts with one space between each two.
pub fn join_single_of(ws: &Vec<Vec<char>>) -> (r: Vec<char>)
    ensures
        r@ == join_single(texts(ws@)),
{
    let mut r = join_trailing_of(ws);
    if ws.len() > 0 {
        proof {
            let t = texts(ws@);
            assert(join_trailing(t) == join_trailing(t.drop_last()) + t.last() + seq![' ']);
            assert((join_trailing(t.drop_last()) + t.last() + seq![' ']).drop_last() =~= join_trailing(
                t.drop_last(),
            ) + t.last());
        }
        r.pop();
    }
    r
}

/// Reading words that are each followed by a space gives those words back and
/// leaves no word open.
pub proof fn lemma_feed_join_trailing(ws: Seq<Seq<char>>)
    requires
        all_words(ws),
    ensures
        feed(join_trailing(ws), Seq::empty()) == (ws, Seq::<char>::empty()),
    decreases ws.len(),
{
    if ws.len() == 0 {
        assert(ws =~= Seq::<Seq<char>>::empty());
    } else {
        let init = ws.drop_last();
        let w = ws.last();
        assert(is_word(w));
        assert(all_words(init)) by {
            assert forall|i: int| 0 <= i < init.len() implies is_word(#[trigger] init[i]) by {
                assert(init[i] == ws[i]);
            }
        }
        lemma_feed_join_trailing(init);
        let a = join_trailing(init);
        lemma_feed_concat(a + w, seq![' '], Seq::empty());
        lemma_feed_concat(a, w, Seq::empty());
        lemma_feed_spaceless(w, Seq::empty());
        assert(Seq::<char>::empty() + w =~= w);
        lemma_feed_space(' ', w);
        assert(init + Seq::<Seq<char>>::empty() + flush(w) =~= ws);
    }
}

/// The words of a list written with a space after each are that list.
pub proof fn lemma_words_join_trailing(ws: Seq<Seq<char>>)
    requires
        all_words(ws),
    ensures
        words(join_trailing(ws)) == ws,
{
    lemma_feed_join_trailing(ws);
    lemma_split_feed(join_trailing(ws), Seq::empty());
    assert(ws + flush(Seq::<char>::empty()) =~= ws);
}

/// The words of a list written with single spaces between are that list.
pub proof fn lemma_words_join_single(ws: Seq<Seq<char>>)
    requires
        all_words(ws),
    ensures
        words(join_single(ws)) == ws,
{
    if ws.len() == 0 {
        assert(ws =~= Seq::<Seq<char>>::empty());
    } else {
        let init = ws.drop_last();
        let w = ws.last();
        assert(is_word(w));
        assert(all_words(init)) by {
            assert forall|i: int| 0 <= i < init.len() implies is_word(#[trigger] init[i]) by {
                assert(init[i] == ws[i]);
            }
        }
        lemma_feed_join_trailing(init);
        lemma_feed_concat(join_trailing(init), w, Seq::empty());
        lemma_feed_spaceless(w, Seq::empty());
        assert(Seq::<char>::empty() + w =~= w);
        lemma_split_feed(join_single(ws), Seq::empty());
        assert(init + Seq::<Seq<char>>::empty() + flush(w) =~= ws);
    }
}

/// Reading words that each have a space before them leaves the last one open.
pub proof fn lemma_feed_join_leading(ws: Seq<Seq<char>>)
    requires
        all_words(ws),
        ws.len() > 0,
    ensures
        feed(join_leading(ws), Seq::empty()) == (ws.drop_last(), ws.last()),
    decreases ws.len(),
{
    let init = ws.drop_last();
    let w = ws.last();
    assert(is_word(w));
    let a = join_leading(init);
    lemma_feed_concat(a + seq![' '], w, Seq::empty());
    lemma_feed_concat(a, seq![' '], Seq::empty());
    if init.len() == 0 {
        assert(a =~= Seq::<char>::empty());
        lemma_feed_space(' ', Seq::empty());
        lemma_feed_spaceless(w, Seq::empty());
        assert(Seq::<char>::empty() + w =~= w);
        assert(feed(join_leading(ws), Seq::empty()).0 =~= init);
    } else {
        assert(all_words(init)) by {
            assert forall|i: int| 0 <= i < init.len() implies is_word(#[trigger] init[i]) by {
                assert(init[i] == ws[i]);
            }
        }
        lemma_feed_join_leading(init);
        lemma_feed_space(' ', init.last());
        lemma_feed_spaceless(w, Seq::empty());
        assert(Seq::<char>::empty() + w =~= w);
        assert(is_word(init.last()));
        assert(init.drop_last() + flush(init.last()) + Seq::<Seq<char>>::empty() =~= init);
    }
}

/// The words of a list written with a space before each are that list.
pub proof fn lemma_words_join_leading(ws: Seq<Seq<char>>)
    requires
        all_words(ws),
    ensures
        words(join_leading(ws)) == ws,
{
    if ws.len() == 0 {
        assert(ws =~= Seq::<Seq<char>>::empty());
    } else {
        lemma_feed_join_leading(ws);
        lemma_split_feed(join_leading(ws), Seq::empty());
        assert(is_word(ws.last()));
        assert(ws.drop_last() + flush(ws.last()) =~= ws);
    }
}

} // verus!
