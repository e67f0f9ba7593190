//! Brackets: where a reference ends, where the arguments of a function part,
//! and what stands outside every bracket.

use crate::fault::{fatal_at, Fatal, FatalKind, FatalView};
use crate::text::{chars_of, lemma_texts_push, texts};
use crate::vars::{Location, LocationView};
use vstd::prelude::*;

verus! {

pub open spec fn is_opener(c: char) -> bool {
    c == '(' || c == '{'
}

pub open spec fn is_closer(c: char) -> bool {
    c == ')' || c == '}'
}

/// The bracket that a closing bracket closes.
pub open spec fn opener_of(c: char) -> char {
    if c == ')' {
        '('
    } else {
        '{'
    }
}

/// The arguments of `src` from position `i` on: `src` is cut at each comma
/// that stands outside every bracket. `stack` holds the brackets that are
/// open, `done` the arguments that are complete and `cur` the one that has
/// begun. `None` where a bracket is closed that is not the last one opened.
pub open spec fn split_args(
    src: Seq<char>,
    i: int,
    stack: Seq<char>,
    done: Seq<Seq<char>>,
    cur: Seq<char>,
) -> Option<Seq<Seq<char>>>
    decreases src.len() - i,
{
    if i < 0 || i >= src.len() {
        Some(done.push(cur))
    } else {
        let c = src[i];
        if is_closer(c) {
            if stack.len() > 0 && stack.last() == opener_of(c) {
                split_args(src, i + 1, stack.drop_last(), done, cur.push(c))
            } else {
                None
            }
        } else if is_opener(c) {
            split_args(src, i + 1, stack.push(c), done, cur.push(c))
        } else if c == ',' && stack.len() == 0 {
            split_args(src, i + 1, stack, done.push(cur), Seq::empty())
        } else {
            split_args(src, i + 1, stack, done, cur.push(c))
        }
    }
}

/// All the arguments of `src`: at least one.
pub open spec fn all_args(src: Seq<char>) -> Option<Seq<Seq<char>>> {
    split_args(src, 0, Seq::empty(), Seq::empty(), Seq::empty())
}

/// The first `count` arguments of `src` for the function `func`, or the
/// error: a bracket that does not match, or too few arguments.
pub open spec fn args(loc: LocationView, func: Seq<char>, count: usize, src: Seq<char>) -> Result<
    Seq<Seq<char>>,
    FatalView,
> {
    match all_args(src) {
        None => Err(fatal_at(FatalKind::Unterminated, loc)),
        Some(a) => if a.len() < count {
            Err(
                FatalView {
                    kind: FatalKind::ArgCount,
                    loc,
                    text: func,
                    other: Seq::empty(),
                    number: a.len() as usize,
                },
            )
        } else {
            Ok(a.take(count as int))
        },
    }
}

/// Cuts `src` into arguments at the commas outside every bracket.
pub fn get_all_args(loc: &Location, src: &Vec<char>) -> (r: Result<Vec<Vec<char>>, Fatal>)
    ensures
        match r {
            Ok(v) => all_args(src@) == Some(texts(v@)),
            Err(f) => all_args(src@) is None && f@ == fatal_at(FatalKind::Unterminated, loc@),
        },
{
    let mut done: Vec<Vec<char>> = Vec::new();
    let mut cur: Vec<char> = Vec::new();
    let mut stack: Vec<char> = Vec::new();
    let mut i: usize = 0;
    assert(texts(done@) =~= Seq::<Seq<char>>::empty());
    while i < src.len()
        invariant
            i <= src.len(),
            split_args(src@, i as int, stack@, texts(done@), cur@) == all_args(src@),
        decreases src.len() - i,
    {
        let c = src[i];
        if c == ')' || c == '}' {
            let open = if c == ')' {
                '('
            } else {
                '{'
            };
            if stack.len() > 0 && stack[stack.len() - 1] == open {
                stack.pop();
                cur.push(c);
            } else {
                return Err(Fatal::at(FatalKind::Unterminated, loc));
            }
        } else if c == '(' || c == '{' {
            stack.push(c);
            cur.push(c);
        } else if c == ',' && stack.len() == 0 {
            let ghost before = done@;
            done.push(cur);
            proof {
                lemma_texts_push(before, cur);
            }
            cur = Vec::new();
        } else {
            cur.push(c);
        }
        i += 1;
    }
    let ghost before = done@;
    done.push(cur);
    proof {
        lemma_texts_push(before, cur);
    }
    Ok(done)
}

/// The first `count` arguments of `src`, which the function `func` needs.
pub fn get_args(loc: &Location, func: &str, count: usize, src: &Vec<char>) -> (r: Result<
    Vec<Vec<char>>,
    Fatal,
>)
    ensures
        match r {
            Ok(v) => args(loc@, func@, count, src@) == Ok::<Seq<Seq<char>>, FatalView>(texts(v@)),
            Err(f) => args(loc@, func@, count, src@) == Err::<Seq<Seq<char>>, FatalView>(f@),
        },
{
    match get_all_args(loc, src) {
        Err(f) => Err(f),
        Ok(mut all) => {
            if all.len() < count {
                Err(
                    Fatal {
                        kind: FatalKind::ArgCount,
                        loc: loc.copy(),
                        text: chars_of(func),
                        other: Vec::new(),
                        number: all.len(),
                    },
                )
            } else {
                let ghost before = texts(all@);
                all.truncate(count);
                assert(texts(all@) =~= before.take(count as int));
                Ok(all)
            }
        },
    }
}

/// Where the reference ends whose inside begins at `i`: the position of the
/// bracket that closes the first bracket of `stack`. `None` where the text
/// ends before that, or a bracket is closed that is not the last one opened.
pub open spec fn close_of(text: Seq<char>, i: int, stack: Seq<char>) -> Option<int>
    decreases text.len() - i,
{
    if i < 0 || i >= text.len() || stack.len() == 0 {
        None
    } else {
        let c = text[i];
        if is_closer(c) {
            if stack.last() != opener_of(c) {
                None
            } else if stack.len() == 1 {
                Some(i)
            } else {
                close_of(text, i + 1, stack.drop_last())
            }
        } else if is_opener(c) {
            close_of(text, i + 1, stack.push(c))
        } else {
            close_of(text, i + 1, stack)
        }
    }
}

pub proof fn lemma_close_of_bounds(text: Seq<char>, i: int, stack: Seq<char>)
    requires
        0 <= i,
    ensures
        match close_of(text, i, stack) {
            Some(e) => i <= e < text.len(),
            None => true,
        },
    decreases text.len() - i,
{
    if i < text.len() && stack.len() > 0 {
        let c = text[i];
        if is_closer(c) {
            if stack.last() == opener_of(c) && stack.len() > 1 {
                lemma_close_of_bounds(text, i + 1, stack.drop_last());
            }
        } else if is_opener(c) {
            lemma_close_of_bounds(text, i + 1, stack.push(c));
        } else {
            lemma_close_of_bounds(text, i + 1, stack);
        }
    }
}

/// The end of the reference that `open` has opened just before `from`.
pub fn find_close(text: &Vec<char>, from: usize, open: char) -> (r: Option<usize>)
    ensures
        match r {
            Some(e) => close_of(text@, from as int, seq![open]) == Some(e as int) && from <= e
                < text.len(),
            None => close_of(text@, from as int, seq![open]) is None,
        },
{
    let mut stack: Vec<char> = Vec::new();
    stack.push(open);
    assert(stack@ =~= seq![open]);
    let mut i: usize = from;
    while i < text.len()
        invariant
            from <= i,
            stack.len() > 0,
            close_of(text@, i as int, stack@) == close_of(text@, from as int, seq![open]),
        decreases text.len() - i,
    {
        let c = text[i];
        if c == ')' || c == '}' {
            let o = if c == ')' {
                '('
            } else {
                '{'
            };
            if stack[stack.len() - 1] != o {
                return None;
            }
            if stack.len() == 1 {
                return Some(i);
            }
            stack.pop();
        } else if c == '(' || c == '{' {
            stack.push(c);
        }
        i += 1;
    }
    None
}

/// The first position from `i` on that holds `c` outside every bracket,
/// where `depth` brackets are open at `i`; the length of `s` if there is none.
pub open spec fn find_top(s: Seq<char>, c: char, i: int, depth: nat) -> int
    decreases s.len() - i,
{
    if i < 0 || i >= s.len() {
        s.len() as int
    } else if depth == 0 && s[i] == c {
        i
    } else if is_opener(s[i]) {
        find_top(s, c, i + 1, depth + 1)
    } else if is_closer(s[i]) && depth > 0 {
        find_top(s, c, i + 1, (depth - 1) as nat)
    } else {
        find_top(s, c, i + 1, depth)
    }
}

pub proof fn lemma_find_top_bounds(s: Seq<char>, c: char, i: int, depth: nat)
    requires
        0 <= i <= s.len(),
    ensures
        i <= find_top(s, c, i, depth) <= s.len(),
        find_top(s, c, i, depth) < s.len() ==> s[find_top(s, c, i, depth)] == c,
    decreases s.len() - i,
{
    if i < s.len() {
        if depth == 0 && s[i] == c {
        } else if is_opener(s[i]) {
            lemma_find_top_bounds(s, c, i + 1, depth + 1);
        } else if is_closer(s[i]) && depth > 0 {
            lemma_find_top_bounds(s, c, i + 1, (depth - 1) as nat);
        } else {
            lemma_find_top_bounds(s, c, i + 1, depth);
        }
    }
}

/// The first position from `from` on that holds `c` outside every bracket.
pub fn find_top_of(s: &Vec<char>, c: char, from: usize) -> (r: usize)
    requires
        from <= s.len(),
    ensures
        r == find_top(s@, c, from as int, 0),
        from <= r <= s.len(),
        r < s.len() ==> s@[r as int] == c,
{
    let mut depth: usize = 0;
    let mut i: usize = from;
    proof {
        lemma_find_top_bounds(s@, c, from as int, 0);
    }
    while i < s.len()
        invariant
            from <= i <= s.len(),
            depth <= i - from,
            find_top(s@, c, i as int, depth as nat) == find_top(s@, c, from as int, 0),
        decreases s.len() - i,
    {
        let x = s[i];
        if depth == 0 && x == c {
            return i;
        }
        if x == '(' || x == '{' {
            depth += 1;
        } else if (x == ')' || x == '}') && depth > 0 {
            depth -= 1;
        }
        i += 1;
    }
    i
}

/// A text has at least one argument.
pub proof fn lemma_split_args_some(
    src: Seq<char>,
    i: int,
    stack: Seq<char>,
    done: Seq<Seq<char>>,
    cur: Seq<char>,
)
    requires
        0 <= i,
    ensures
        match split_args(src, i, stack, done, cur) {
            Some(a) => a.len() > done.len(),
            None => true,
        },
    decreases src.len() - i,
{
    if i < src.len() {
        let c = src[i];
        if is_closer(c) {
            if stack.len() > 0 && stack.last() == opener_of(c) {
                lemma_split_args_some(src, i + 1, stack.drop_last(), done, cur.push(c));
            }
        } else if is_opener(c) {
            lemma_split_args_some(src, i + 1, stack.push(c), done, cur.push(c));
        } else if c == ',' && stack.len() == 0 {
            lemma_split_args_some(src, i + 1, stack, done.push(cur), Seq::empty());
        } else {
            lemma_split_args_some(src, i + 1, stack, done, cur.push(c));
        }
    }
}

pub proof fn lemma_all_args_some(src: Seq<char>)
    ensures
        match all_args(src) {
            Some(a) => a.len() > 0,
            None => true,
        },
{
    lemma_split_args_some(src, 0, Seq::empty(), Seq::empty(), Seq::empty());
}

} // verus!
