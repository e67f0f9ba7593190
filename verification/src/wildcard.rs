//! `wildcard`: the paths that match a pattern, found on disk by the `glob`
//! crate, without those that a leading `.` hides.

use crate::host::{Answer, AnswerView, Request};
use crate::rules::holds;
use crate::text::{chars_of, lemma_texts_push, string_of, texts};
use vstd::prelude::*;

verus! {

#[verifier::external_type_specification]
#[verifier::external_body]
pub struct ExPatternError(glob::PatternError);

/// `glob::glob_with` with the three match options, and the paths it yields
/// in its order: `None` stands for an entry that could not be read or whose
/// path is not UTF-8. A pattern that `glob` does not accept gives its error.
/// The wrapper is for one way of asking only: case counts, `*` and `?`
/// match no `/`, and a `.` at the start of a name gets no rule of its own.
/// With such a rule `glob` stops the program at a name that is not UTF-8.
/// Nothing is claimed of the paths: they are what is on disk.
#[verifier::external_body]
fn glob_paths(
    pattern: &str,
    case_sensitive: bool,
    literal_separator: bool,
    literal_leading_dot: bool,
) -> (r: Result<Vec<Option<String>>, glob::PatternError>)
    requires
        case_sensitive,
        literal_separator,
        !literal_leading_dot,
{
    let options = glob::MatchOptions {
        case_sensitive,
        require_literal_separator: literal_separator,
        require_literal_leading_dot: literal_leading_dot,
    };
    glob::glob_with(pattern, options).map(
        |paths| paths.map(|e| e.ok().and_then(|p| p.to_str().map(|s| s.to_string()))).collect(),
    )
}

pub open spec fn found_view(found: Seq<Option<String>>) -> Seq<Option<Seq<char>>> {
    Seq::new(
        found.len(),
        |i: int|
            match found[i] {
                Some(s) => Some(s@),
                None => None,
            },
    )
}

/// The names of `cur` followed by `rest`, where `cur` holds the characters
/// of a name that has begun: a `/` ends a name.
pub open spec fn cut(rest: Seq<char>, cur: Seq<char>) -> Seq<Seq<char>>
    decreases rest.len(),
{
    if rest.len() == 0 {
        seq![cur]
    } else if rest[0] == '/' {
        seq![cur] + cut(rest.drop_first(), Seq::empty())
    } else {
        cut(rest.drop_first(), cur.push(rest[0]))
    }
}

/// The names of a path or a pattern: what stands between its `/`.
pub open spec fn names(s: Seq<char>) -> Seq<Seq<char>> {
    cut(s, Seq::empty())
}

/// Whether a name begins with a `.`.
pub open spec fn dotted(name: Seq<char>) -> bool {
    name.len() > 0 && name[0] == '.'
}

/// Whether a path is shown for a pattern: each of its names that begins
/// with a `.` is a name of the pattern itself. So `*` and `?` find no name
/// that begins with a `.`.
pub open spec fn shown(pattern: Seq<char>, path: Seq<char>) -> bool {
    forall|i: int|
        0 <= i < names(path).len() && dotted(#[trigger] names(path)[i]) ==> names(
            pattern,
        ).contains(names(path)[i])
}

/// The paths among what was found that are shown for the pattern, in order.
pub open spec fn visible(pattern: Seq<char>, found: Seq<Option<Seq<char>>>) -> Seq<Seq<char>>
    decreases found.len(),
{
    if found.len() == 0 {
        Seq::empty()
    } else {
        match found.last() {
            Some(p) => if shown(pattern, p) {
                visible(pattern, found.drop_last()).push(p)
            } else {
                visible(pattern, found.drop_last())
            },
            None => visible(pattern, found.drop_last()),
        }
    }
}

/// The names of a path or a pattern.
pub fn names_of(s: &Vec<char>) -> (r: Vec<Vec<char>>)
    ensures
        texts(r@) == names(s@),
{
    let mut out: Vec<Vec<char>> = Vec::new();
    let mut cur: Vec<char> = Vec::new();
    let mut i: usize = 0;
    proof {
        assert(s@.skip(0) =~= s@);
        assert(texts(out@) + cut(s@, cur@) =~= cut(s@, cur@));
    }
    while i < s.len()
        invariant
            i <= s.len(),
            texts(out@) + cut(s@.skip(i as int), cur@) == names(s@),
        decreases s.len() - i,
    {
        let c = s[i];
        let ghost before = texts(out@);
        let ghost rest = s@.skip(i as int);
        proof {
            assert(rest.drop_first() =~= s@.skip(i + 1));
            assert(rest[0] == c);
        }
        if c == '/' {
            let ghost name = cur@;
            let ghost old_out = out@;
            out.push(cur);
            cur = Vec::new();
            proof {
                assert(texts(out@) =~= before + seq![name]);
                assert(texts(out@) + cut(rest.drop_first(), cur@) =~= before + (seq![name] + cut(
                    rest.drop_first(),
                    Seq::empty(),
                )));
            }
        } else {
            cur.push(c);
        }
        i += 1;
    }
    let ghost before = texts(out@);
    out.push(cur);
    assert(texts(out@) =~= before + seq![cur@]);
    out
}

/// Whether a path is shown for the pattern with these names.
fn is_shown(pattern_names: &Vec<Vec<char>>, pattern: Ghost<Seq<char>>, path: &Vec<char>) -> (r: bool)
    requires
        texts(pattern_names@) == names(pattern@),
    ensures
        r == shown(pattern@, path@),
{
    let ns = names_of(path);
    let mut i: usize = 0;
    while i < ns.len()
        invariant
            i <= ns.len(),
            texts(ns@) == names(path@),
            texts(pattern_names@) == names(pattern@),
            forall|j: int|
                0 <= j < i && dotted(#[trigger] names(path@)[j]) ==> names(pattern@).contains(
                    names(path@)[j],
                ),
        decreases ns.len() - i,
    {
        assert(texts(ns@)[i as int] == ns@[i as int]@);
        if ns[i].len() > 0 && ns[i][0] == '.' && !holds(pattern_names, &ns[i]) {
            return false;
        }
        i += 1;
    }
    true
}

/// The answer to a `wildcard` from what was found for `pattern`: the paths
/// that could be read and are shown, in order.
pub fn paths_answer(pattern: &Vec<char>, found: &Vec<Option<String>>) -> (r: Answer)
    ensures
        r@ == (AnswerView::Paths { paths: visible(pattern@, found_view(found@)) }),
{
    let pattern_names = names_of(pattern);
    let mut paths: Vec<Vec<char>> = Vec::new();
    let mut i: usize = 0;
    assert(found_view(found@).take(0) =~= Seq::<Option<Seq<char>>>::empty());
    assert(texts(paths@) =~= Seq::<Seq<char>>::empty());
    while i < found.len()
        invariant
            i <= found.len(),
            texts(pattern_names@) == names(pattern@),
            texts(paths@) == visible(pattern@, found_view(found@).take(i as int)),
        decreases found.len() - i,
    {
        proof {
            let t = found_view(found@).take(i + 1);
            assert(t.drop_last() =~= found_view(found@).take(i as int));
        }
        match &found[i] {
            Some(s) => {
                let p = chars_of(s.as_str());
                if is_shown(&pattern_names, Ghost(pattern@), &p) {
                    let ghost before = paths@;
                    paths.push(p);
                    proof {
                        lemma_texts_push(before, p);
                    }
                }
            },
            None => {},
        }
        i += 1;
    }
    assert(found_view(found@).take(found.len() as int) =~= found_view(found@));
    Answer::Paths { paths }
}

/// Every path that is visible is shown.
pub proof fn lemma_visible_are_shown(pattern: Seq<char>, found: Seq<Option<Seq<char>>>)
    ensures
        forall|i: int|
            0 <= i < visible(pattern, found).len() ==> shown(
                pattern,
                #[trigger] visible(pattern, found)[i],
            ),
    decreases found.len(),
{
    if found.len() > 0 {
        lemma_visible_are_shown(pattern, found.drop_last());
        let v = visible(pattern, found);
        let w = visible(pattern, found.drop_last());
        assert forall|i: int| 0 <= i < v.len() implies shown(pattern, #[trigger] v[i]) by {
            if i < w.len() {
                assert(v[i] == w[i]);
            }
        }
    }
}

/// What an answer to a `wildcard` for `pattern` holds: no path in which a
/// name begins with a `.` that is no name of the pattern.
pub open spec fn answers_wildcard(pattern: Seq<char>, a: AnswerView) -> bool {
    match a {
        AnswerView::Paths { paths } => forall|i: int|
            0 <= i < paths.len() ==> shown(pattern, #[trigger] paths[i]),
        AnswerView::Refused => true,
        _ => false,
    }
}

/// The answer to a `wildcard`: the paths on disk that match `pattern`, where
/// case counts and `*` and `?` match no `/`, without those that are not
/// shown; `Refused` for a pattern that `glob` does not accept.
pub fn wildcard(pattern: &Vec<char>) -> (r: Answer)
    ensures
        answers_wildcard(pattern@, r@),
{
    let p = string_of(pattern);
    match glob_paths(p.as_str(), true, true, false) {
        Ok(found) => {
            proof {
                lemma_visible_are_shown(pattern@, found_view(found@));
            }
            paths_answer(pattern, &found)
        },
        Err(_) => Answer::Refused,
    }
}

/// The answer to a request that the library can serve itself; `None` for
/// one that only the host can serve.
pub fn answer(request: &Request) -> (r: Option<Answer>)
    ensures
        r is Some <==> request@ is Wildcard,
        r is Some ==> answers_wildcard(request@->Wildcard_pattern, r->0@),
{
    match request {
        Request::Wildcard { pattern } => Some(wildcard(pattern)),
        _ => None,
    }
}

} // verus!
