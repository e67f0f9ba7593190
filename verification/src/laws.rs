//! What holds of every expansion.

use crate::args::args;
use crate::funcs::{strip, subst};
use crate::host::EvalView;
use crate::meaning::{
    apply_one, bound_cell, expand, flavor_tag, foreach, foreach_from, read, Builtin, Step,
};
use crate::text::{is_at, is_space, trim};
use crate::vars::{Flavor, LocationView, Origin, VarView};
use crate::words::{
    join_single, lemma_feed_spaceless, lemma_split_concat, lemma_words_are_words,
    lemma_words_join_single, spaceless, split, words,
};
use vstd::prelude::*;

verus! {

/// Reading a variable that is not recursive gives the text that its cell
/// holds and changes nothing: so reading it again gives the same.
pub proof fn lemma_simple_is_idempotent(
    ev: EvalView,
    loc: LocationView,
    name: Seq<char>,
    v: VarView,
    fuel: nat,
)
    requires
        ev.vars.get(name) == Some(v),
        v.flavor == Flavor::Simple,
    ensures
        read(ev, loc, name, fuel) == (Step { result: Ok(v.value), ev }),
        read(read(ev, loc, name, fuel).ev, loc, name, fuel) == read(ev, loc, name, fuel),
{
}

/// Reading a recursive variable is expanding the text that its cell holds,
/// in the store and frames as they are at the reading, at the place of the
/// variable's definition if it has one.
pub proof fn lemma_recursive_is_late(
    ev: EvalView,
    loc: LocationView,
    name: Seq<char>,
    v: VarView,
    fuel: nat,
)
    requires
        ev.vars.get(name) == Some(v),
        v.flavor == Flavor::Recursive,
        fuel > 0,
    ensures
        read(ev, loc, name, fuel) == expand(
            ev,
            match v.loc {
                Some(l) => l,
                None => loc,
            },
            v.value,
            (fuel - 1) as nat,
        ),
{
}

/// `flavor` says `undefined` exactly of a name that stands for no cell or
/// for a cell of the flavor `Undefined`; of every other name it says the
/// flavor of the cell.
pub proof fn lemma_flavor_reports(ev: EvalView, loc: LocationView, name: Seq<char>, fuel: nat)
    ensures
        apply_one(ev, loc, Builtin::Flavor, name, fuel) == (Step {
            result: Ok(flavor_tag(ev.vars.get(name))),
            ev,
        }),
        flavor_tag(ev.vars.get(name)) == "undefined"@ <==> (ev.vars.get(name) is None
            || ev.vars.get(name)->0.flavor == Flavor::Undefined),
        ev.vars.get(name) is Some && ev.vars.get(name)->0.flavor == Flavor::Simple ==> flavor_tag(
            ev.vars.get(name),
        ) == "simple"@,
        ev.vars.get(name) is Some && ev.vars.get(name)->0.flavor == Flavor::Recursive
            ==> flavor_tag(ev.vars.get(name)) == "recursive"@,
{
    reveal_strlit("undefined");
    reveal_strlit("simple");
    reveal_strlit("recursive");
    assert("undefined"@[0] == 'u');
    assert("recursive"@[0] == 'r');
    assert("simple"@[0] == 's');
}

/// `foreach` over a list without words gives nothing.
pub proof fn lemma_foreach_of_nothing(
    ev: EvalView,
    loc: LocationView,
    body: Seq<char>,
    fuel: nat,
)
    requires
        fuel > 0,
        args(loc, "foreach"@, 3, body) is Ok,
        expand(ev, loc, args(loc, "foreach"@, 3, body)->Ok_0[0], (fuel - 1) as nat).result is Ok,
        ({
            let raw = args(loc, "foreach"@, 3, body)->Ok_0;
            let n = expand(ev, loc, raw[0], (fuel - 1) as nat);
            let l = expand(n.ev, loc, raw[1], (fuel - 1) as nat);
            l.result is Ok && words(l.result->Ok_0).len() == 0
        }),
    ensures
        foreach(ev, loc, body, fuel).result == Ok::<Seq<char>, crate::fault::StopView>(
            Seq::empty(),
        ),
{
    let raw = args(loc, "foreach"@, 3, body)->Ok_0;
    let n = expand(ev, loc, raw[0], (fuel - 1) as nat);
    let l = expand(n.ev, loc, raw[1], (fuel - 1) as nat);
    let framed = EvalView { vars: l.ev.vars.push_frame(None), ..l.ev };
    let r = foreach_from(
        framed,
        loc,
        trim(n.result->Ok_0),
        words(l.result->Ok_0),
        0,
        raw[2],
        Seq::empty(),
        (fuel - 1) as nat,
    );
    assert(r.result == Ok::<Seq<Seq<char>>, crate::fault::StopView>(Seq::empty()));
    assert(join_single(Seq::<Seq<char>>::empty()) =~= Seq::<char>::empty());
}

/// `foreach` over a list of one word gives what the body gives once, with
/// the name bound to that word.
pub proof fn lemma_foreach_of_one(ev: EvalView, loc: LocationView, body: Seq<char>, fuel: nat)
    requires
        fuel > 1,
        args(loc, "foreach"@, 3, body) is Ok,
        expand(ev, loc, args(loc, "foreach"@, 3, body)->Ok_0[0], (fuel - 1) as nat).result is Ok,
        ({
            let raw = args(loc, "foreach"@, 3, body)->Ok_0;
            let n = expand(ev, loc, raw[0], (fuel - 1) as nat);
            let l = expand(n.ev, loc, raw[1], (fuel - 1) as nat);
            l.result is Ok && words(l.result->Ok_0).len() == 1
        }),
    ensures
        ({
            let raw = args(loc, "foreach"@, 3, body)->Ok_0;
            let n = expand(ev, loc, raw[0], (fuel - 1) as nat);
            let l = expand(n.ev, loc, raw[1], (fuel - 1) as nat);
            let bound = EvalView {
                vars: l.ev.vars.push_frame(None).bind(
                    bound_cell(trim(n.result->Ok_0), words(l.result->Ok_0)[0], Origin::File, loc),
                ),
                ..l.ev
            };
            foreach(ev, loc, body, fuel).result == expand(
                bound,
                loc,
                raw[2],
                (fuel - 2) as nat,
            ).result
        }),
{
    let raw = args(loc, "foreach"@, 3, body)->Ok_0;
    let n = expand(ev, loc, raw[0], (fuel - 1) as nat);
    let l = expand(n.ev, loc, raw[1], (fuel - 1) as nat);
    let framed = EvalView { vars: l.ev.vars.push_frame(None), ..l.ev };
    let name = trim(n.result->Ok_0);
    let ws = words(l.result->Ok_0);
    let bound = EvalView { vars: framed.vars.bind(bound_cell(name, ws[0], Origin::File, loc)), ..framed };
    let once = expand(bound, loc, raw[2], (fuel - 2) as nat);
    let r = foreach_from(framed, loc, name, ws, 0, raw[2], Seq::empty(), (fuel - 1) as nat);
    match once.result {
        Err(e) => {
            assert(r.result == Err::<Seq<Seq<char>>, crate::fault::StopView>(e));
        },
        Ok(t) => {
            let next = foreach_from(
                once.ev,
                loc,
                name,
                ws,
                1,
                raw[2],
                Seq::<Seq<char>>::empty().push(t),
                (fuel - 1) as nat,
            );
            assert(r == next);
            assert(next.result == Ok::<Seq<Seq<char>>, crate::fault::StopView>(seq![t]));
            assert(seq![t].drop_last() =~= Seq::<Seq<char>>::empty());
            assert(join_single(seq![t]) =~= t);
        },
    }
}

/// `strip` keeps the words of a text.
pub proof fn lemma_strip_keeps_words(s: Seq<char>)
    ensures
        words(strip(s)) == words(s),
{
    lemma_words_are_words(s);
    lemma_words_join_single(words(s));
}

/// Where a reader stands in a stretch of text that holds no white space
/// but blanks.
#[derive(Clone, Copy, Debug, PartialEq, Eq, Structural)]
pub enum Stretch {
    /// Before the stretch has begun.
    Outside,
    /// The stretch has held blanks only.
    Blanks,
    /// The last character belongs to a word.
    Word,
    /// The stretch has held a word, and blanks follow it.
    After,
}

/// By how many the words of a text from `i` on are more than the words that
/// are left when each blank is replaced by a text without white space: one
/// more for each word that blanks alone part from the word before it, one
/// fewer for each stretch of blanks that stands between other white space
/// or the ends of the text.
pub open spec fn surplus(s: Seq<char>, i: int, at: Stretch) -> int
    decreases s.len() - i,
{
    if i < 0 || i >= s.len() {
        if at == Stretch::Blanks {
            -1
        } else {
            0
        }
    } else if s[i] == ' ' {
        surplus(
            s,
            i + 1,
            if at == Stretch::Outside || at == Stretch::Blanks {
                Stretch::Blanks
            } else {
                Stretch::After
            },
        )
    } else if is_space(s[i]) {
        (if at == Stretch::Blanks {
            -1int
        } else {
            0int
        }) + surplus(s, i + 1, Stretch::Outside)
    } else {
        (if at == Stretch::After {
            1int
        } else {
            0int
        }) + surplus(s, i + 1, Stretch::Word)
    }
}

/// The words of a text from `i` on, counted before and after each blank
/// was replaced by `to`, differ by `surplus`.
pub proof fn lemma_blank_counts(
    s: Seq<char>,
    to: Seq<char>,
    i: int,
    at: Stretch,
    cur: Seq<char>,
    cur2: Seq<char>,
)
    requires
        0 <= i <= s.len(),
        to.len() > 0,
        spaceless(to),
        (cur.len() > 0) == (at == Stretch::Word),
        (cur2.len() > 0) == (at != Stretch::Outside),
    ensures
        split(s.skip(i), cur).len() + (if at == Stretch::After {
            1int
        } else {
            0int
        }) == split(crate::funcs::subst_at(seq![' '], to, s, i), cur2).len() + surplus(s, i, at),
    decreases s.len() - i,
{
    let b = seq![' '];
    let r = s.skip(i);
    let p = crate::funcs::subst_at(b, to, s, i);
    if i < s.len() {
        let c = s[i];
        let q = crate::funcs::subst_at(b, to, s, i + 1);
        assert(r[0] == c);
        assert(r.drop_first() =~= s.skip(i + 1));
        assert(is_at(s, i, b) == (c == ' ')) by {
            assert(s.subrange(i, i + 1) =~= seq![c]);
            assert(seq![c][0] == c);
            assert(b[0] == ' ');
        }
        if c == ' ' {
            assert(p == to + q);
            lemma_split_concat(to, q, cur2);
            lemma_feed_spaceless(to, cur2);
            assert(Seq::<Seq<char>>::empty() + split(q, cur2 + to) =~= split(q, cur2 + to));
            let next = if at == Stretch::Outside || at == Stretch::Blanks {
                Stretch::Blanks
            } else {
                Stretch::After
            };
            lemma_blank_counts(s, to, i + 1, next, Seq::empty(), cur2 + to);
        } else {
            assert(p == seq![c] + q);
            assert(p[0] == c);
            assert(p.drop_first() =~= q);
            if is_space(c) {
                lemma_blank_counts(s, to, i + 1, Stretch::Outside, Seq::empty(), Seq::empty());
            } else {
                lemma_blank_counts(s, to, i + 1, Stretch::Word, cur.push(c), cur2.push(c));
            }
        }
    } else {
        assert(r =~= Seq::<char>::empty());
    }
}

/// `$(strip $(subst  ,X,S))`: where each blank of a text is replaced by a
/// text `to` that is not empty and holds no white space, the words of the
/// text are as many as the words of the result and `surplus` together. So
/// the result has as many words as the text exactly where `surplus` is
/// zero: where blanks alone part no two words, and no blanks stand alone
/// between other white space or the ends, or as many of the one as of the
/// other.
pub proof fn lemma_strip_subst_word_count(to: Seq<char>, s: Seq<char>)
    requires
        to.len() > 0,
        spaceless(to),
    ensures
        words(s).len() == words(strip(subst(seq![' '], to, s))).len() + surplus(
            s,
            0,
            Stretch::Outside,
        ),
        words(strip(subst(seq![' '], to, s))).len() == words(s).len() <==> surplus(
            s,
            0,
            Stretch::Outside,
        ) == 0,
{
    lemma_blank_counts(s, to, 0, Stretch::Outside, Seq::empty(), Seq::empty());
    assert(s.skip(0) =~= s);
    lemma_strip_keeps_words(subst(seq![' '], to, s));
}

/// An assignment of a lower rank than the definition that a variable has
/// changes nothing: so a variable of the command line keeps its value
/// through the assignments of a makefile that is read after.
pub proof fn lemma_higher_rank_stays(
    vars: crate::store::StoreView,
    name: Seq<char>,
    flavor: Flavor,
    origin: Origin,
    loc: Option<LocationView>,
    value: Seq<char>,
)
    requires
        vars.global(name) is Some,
        origin.rank() < vars.global(name)->0.origin.rank(),
    ensures
        vars.assign(name, flavor, origin, loc, value) == vars,
        vars.append(name, origin, loc, value) == vars,
{
}

/// A definition of the command line outranks one of a makefile, and only
/// `override` outranks it.
pub proof fn lemma_command_line_outranks_file()
    ensures
        Origin::File.rank() < Origin::CmdLine.rank(),
        Origin::CmdLine.rank() < Origin::Override.rank(),
        Origin::Default.rank() < Origin::Env.rank(),
        Origin::Env.rank() < Origin::EnvOverride.rank(),
        Origin::EnvOverride.rank() < Origin::File.rank(),
{
}

/// A text without a `$` is its own value, and evaluating it changes
/// nothing, from any position on.
pub proof fn lemma_plain_from(
    ev: EvalView,
    loc: LocationView,
    text: Seq<char>,
    pos: int,
    out: Seq<char>,
    fuel: nat,
)
    requires
        0 <= pos <= text.len(),
        forall|i: int| pos <= i < text.len() ==> text[i] != '$',
    ensures
        crate::meaning::expand_from(ev, loc, text, pos, out, fuel) == (Step {
            result: Ok(out + text.skip(pos)),
            ev,
        }),
    decreases text.len() - pos,
{
    if pos < text.len() {
        lemma_plain_from(ev, loc, text, pos + 1, out.push(text[pos]), fuel);
        assert(out.push(text[pos]) + text.skip(pos + 1) =~= out + text.skip(pos));
    } else {
        assert(out + text.skip(pos) =~= out);
    }
}

/// A text without a `$` is its own value, and evaluating it changes nothing.
pub proof fn lemma_plain_text_is_its_value(
    ev: EvalView,
    loc: LocationView,
    text: Seq<char>,
    fuel: nat,
)
    requires
        forall|i: int| 0 <= i < text.len() ==> text[i] != '$',
    ensures
        expand(ev, loc, text, fuel) == (Step { result: Ok(text), ev }),
{
    lemma_plain_from(ev, loc, text, 0, Seq::empty(), fuel);
    assert(Seq::<char>::empty() + text.skip(0) =~= text);
}

} // verus!
