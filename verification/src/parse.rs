//! Lines that assign, export or begin a rule.

use crate::directive::{classify, classify_line, Directive, DirectiveView};
use crate::expand::{expand_text, run_shell, DEPTH};
use crate::fault::{stop_at, Fatal, FatalKind, Stop, StopView};
use crate::host::{EvalView, Evaluator};
use crate::meaning::{expand, shell};
use crate::rules::{Rule, RuleData, RuleDataView, RuleView, State, StateView, VarOp};
use crate::store::StoreView;
use crate::text::{copy_text, copy_texts, texts, trim, trim_of};
use crate::vars::{Flavor, Location, LocationView, Origin};
use crate::words::{split_words, words};
use vstd::prelude::*;

verus! {

/// Whether a line could be taken in, and the state in which it leaves the
/// fragments, the store and the host.
pub struct ParseStep {
    pub result: Result<(), StopView>,
    pub state: StateView,
    pub ev: EvalView,
}

pub open spec fn parse_step(r: Result<(), Stop>, state: State, ev: Evaluator) -> ParseStep {
    ParseStep {
        result: match r {
            Ok(_) => Ok(()),
            Err(s) => Err(s@),
        },
        state: state@,
        ev: ev@,
    }
}

/// The store after each of the names was exported.
pub open spec fn export_names(vars: StoreView, names: Seq<Seq<char>>) -> StoreView
    decreases names.len(),
{
    if names.len() == 0 {
        vars
    } else {
        export_names(vars, names.drop_last()).export(names.last())
    }
}

/// The store after each of the names was unexported.
pub open spec fn unexport_names(vars: StoreView, names: Seq<Seq<char>>) -> StoreView
    decreases names.len(),
{
    if names.len() == 0 {
        vars
    } else {
        unexport_names(vars, names.drop_last()).unexport(names.last())
    }
}

pub open spec fn failed(e: StopView, state: StateView, ev: EvalView) -> ParseStep {
    ParseStep { result: Err(e), state, ev }
}

pub open spec fn passed(state: StateView, ev: EvalView) -> ParseStep {
    ParseStep { result: Ok(()), state, ev }
}

/// `unexport`: without names, of every cell; else of the names that the
/// text gives once expanded.
pub open spec fn do_unexport(state: StateView, ev: EvalView, loc: LocationView, names: Seq<
    char,
>) -> ParseStep {
    if trim(names).len() == 0 {
        passed(state, EvalView { vars: ev.vars.unexport_all(), ..ev })
    } else {
        let e = expand(ev, loc, names, DEPTH as nat);
        match e.result {
            Err(s) => failed(s, state, e.ev),
            Ok(t) => passed(state, EvalView { vars: unexport_names(e.ev.vars, words(t)), ..e.ev }),
        }
    }
}

/// `export`: of the names that the text gives once expanded; of every
/// cell if it gives none.
pub open spec fn do_export(
    state: StateView,
    ev: EvalView,
    loc: LocationView,
    names: Seq<char>,
) -> ParseStep {
    let e = expand(ev, loc, names, DEPTH as nat);
    match e.result {
        Err(s) => failed(s, state, e.ev),
        Ok(t) => if words(t).len() == 0 {
            passed(state, EvalView { vars: e.ev.vars.export_all(), ..e.ev })
        } else {
            passed(state, EvalView { vars: export_names(e.ev.vars, words(t)), ..e.ev })
        },
    }
}

/// The store after `export` was applied to `name`, if the line says so.
pub open spec fn exported_if(vars: StoreView, export: bool, name: Seq<char>) -> StoreView {
    if export {
        vars.export(name)
    } else {
        vars
    }
}

/// An assignment to the global variable `name`:
/// - `=` stores the text, `:=` and `::=` its value;
/// - `?=` stores the text if the variable has no global cell;
/// - `+=` appends the text, or its value if the variable is simple;
/// - `!=` stores what the value of the text prints when the host runs it.
/// The white space at the ends of what is stored goes. A definition of a
/// higher rank stays as it is.
pub open spec fn assign_global(
    state: StateView,
    ev: EvalView,
    loc: LocationView,
    name: Seq<char>,
    op: VarOp,
    value: Seq<char>,
    export: bool,
    origin: Origin,
) -> ParseStep {
    match op {
        VarOp::Store(false) => passed(
            state,
            EvalView {
                vars: exported_if(
                    ev.vars.assign(name, Flavor::Recursive, origin, Some(loc), trim(value)),
                    export,
                    name,
                ),
                ..ev
            },
        ),
        VarOp::Store(true) => {
            let e = expand(ev, loc, value, DEPTH as nat);
            match e.result {
                Err(s) => failed(s, state, e.ev),
                Ok(v) => passed(
                    state,
                    EvalView {
                        vars: exported_if(
                            e.ev.vars.assign(name, Flavor::Simple, origin, Some(loc), trim(v)),
                            export,
                            name,
                        ),
                        ..e.ev
                    },
                ),
            }
        },
        VarOp::StoreIfUndef => passed(
            state,
            EvalView {
                vars: exported_if(
                    if ev.vars.global(name) is None {
                        ev.vars.assign(name, Flavor::Recursive, origin, Some(loc), trim(value))
                    } else {
                        ev.vars
                    },
                    export,
                    name,
                ),
                ..ev
            },
        ),
        VarOp::Append => {
            if ev.vars.global(name) is Some && ev.vars.global(name)->0.flavor == Flavor::Simple {
                let e = expand(ev, loc, value, DEPTH as nat);
                match e.result {
                    Err(s) => failed(s, state, e.ev),
                    Ok(v) => passed(
                        state,
                        EvalView {
                            vars: exported_if(
                                e.ev.vars.append(name, origin, Some(loc), v),
                                export,
                                name,
                            ),
                            ..e.ev
                        },
                    ),
                }
            } else {
                passed(
                    state,
                    EvalView {
                        vars: exported_if(
                            ev.vars.append(name, origin, Some(loc), value),
                            export,
                            name,
                        ),
                        ..ev
                    },
                )
            }
        },
        VarOp::Shell => {
            let e = expand(ev, loc, value, DEPTH as nat);
            match e.result {
                Err(s) => failed(s, state, e.ev),
                Ok(cmd) => {
                    let r = shell(e.ev, loc, cmd, DEPTH as nat);
                    match r.result {
                        Err(s) => failed(s, state, r.ev),
                        Ok(out) => passed(
                            state,
                            EvalView {
                                vars: exported_if(
                                    r.ev.vars.assign(name, Flavor::Simple, origin, Some(loc), out),
                                    export,
                                    name,
                                ),
                                ..r.ev
                            },
                        ),
                    }
                },
            }
        },
    }
}

/// An assignment for some targets only: a rule fragment with the name, the
/// operator and the text, which `:=` and `::=` expand.
pub open spec fn assign_scoped(
    state: StateView,
    ev: EvalView,
    loc: LocationView,
    targets: Seq<char>,
    name: Seq<char>,
    op: VarOp,
    value: Seq<char>,
) -> ParseStep {
    let v = if op == VarOp::Store(true) {
        expand(ev, loc, value, DEPTH as nat)
    } else {
        crate::meaning::Step { result: Ok(value), ev }
    };
    match v.result {
        Err(s) => failed(s, state, v.ev),
        Ok(text) => {
            let t = expand(v.ev, loc, targets, DEPTH as nat);
            match t.result {
                Err(s) => failed(s, state, t.ev),
                Ok(ts) => passed(
                    StateView {
                        rules: state.rules.push(
                            RuleView {
                                location: loc,
                                targets: words(ts),
                                data: RuleDataView::Var(name, op, text),
                            },
                        ),
                        ..state
                    },
                    t.ev,
                ),
            }
        },
    }
}

/// An assignment: its name is the value of what stands before the
/// operator, without the white space at its ends, and must not be empty.
pub open spec fn do_assign(
    state: StateView,
    ev: EvalView,
    loc: LocationView,
    targets: Option<Seq<char>>,
    name: Seq<char>,
    op: VarOp,
    value: Seq<char>,
    export: bool,
    origin: Origin,
) -> ParseStep {
    let n = expand(ev, loc, name, DEPTH as nat);
    match n.result {
        Err(s) => failed(s, state, n.ev),
        Ok(nt) => if trim(nt).len() == 0 {
            failed(stop_at(FatalKind::BadAssignment, loc), state, n.ev)
        } else {
            match targets {
                Some(t) => assign_scoped(state, n.ev, loc, t, trim(nt), op, value),
                None => assign_global(state, n.ev, loc, trim(nt), op, value, export, origin),
            }
        },
    }
}

/// A rule: a fragment with the prerequisites as they are written, for the
/// targets that the text before the colon gives once expanded, and one
/// with the recipe that follows a `;`. A recipe line may follow.
pub open spec fn do_rule(
    state: StateView,
    ev: EvalView,
    loc: LocationView,
    targets: Seq<char>,
    double: bool,
    prereqs: Seq<char>,
    recipe: Option<Seq<char>>,
) -> ParseStep {
    let t = expand(ev, loc, targets, DEPTH as nat);
    match t.result {
        Err(s) => failed(s, state, t.ev),
        Ok(ts) => {
            let first = state.rules.push(
                RuleView {
                    location: loc,
                    targets: words(ts),
                    data: RuleDataView::Prereq(double, prereqs),
                },
            );
            passed(
                StateView {
                    rules: match recipe {
                        Some(r) => first.push(
                            RuleView {
                                location: loc,
                                targets: words(ts),
                                data: RuleDataView::Recipie(r),
                            },
                        ),
                        None => first,
                    },
                    in_rule: true,
                    ..state
                },
                t.ev,
            )
        },
    }
}

/// What a line does that is no conditional, `define`, `include` or recipe
/// line. After it a recipe line may follow only if it is a rule.
pub open spec fn parse(
    state: StateView,
    ev: EvalView,
    loc: LocationView,
    src: Seq<char>,
) -> ParseStep {
    let s = StateView { in_rule: false, ..state };
    match classify(src) {
        DirectiveView::Unexport { names } => do_unexport(s, ev, loc, names),
        DirectiveView::Export { names } => do_export(s, ev, loc, names),
        DirectiveView::Assign { targets, name, op, value, export, origin } => do_assign(
            s,
            ev,
            loc,
            targets,
            name,
            op,
            value,
            export,
            origin,
        ),
        DirectiveView::Rule { targets, double, prereqs, recipe } => do_rule(
            s,
            ev,
            loc,
            targets,
            double,
            prereqs,
            recipe,
        ),
        DirectiveView::Bare { text } => {
            let e = expand(ev, loc, text, DEPTH as nat);
            match e.result {
                Err(x) => failed(x, s, e.ev),
                Ok(_) => passed(s, e.ev),
            }
        },
    }
}

fn export_all_names(ev: &mut Evaluator, names: &Vec<Vec<char>>)
    ensures
        final(ev)@.host == old(ev)@.host,
        final(ev)@.vars == export_names(old(ev)@.vars, texts(names@)),
{
    let mut i: usize = 0;
    assert(texts(names@).take(0) =~= Seq::<Seq<char>>::empty());
    while i < names.len()
        invariant
            i <= names.len(),
            ev@.host == old(ev)@.host,
            ev@.vars == export_names(old(ev)@.vars, texts(names@).take(i as int)),
        decreases names.len() - i,
    {
        proof {
            let t = texts(names@).take(i + 1);
            assert(t.drop_last() =~= texts(names@).take(i as int));
            assert(t.last() == names@[i as int]@);
        }
        ev.vars.export(&names[i]);
        i += 1;
    }
    assert(texts(names@).take(names.len() as int) =~= texts(names@));
}

fn unexport_all_names(ev: &mut Evaluator, names: &Vec<Vec<char>>)
    ensures
        final(ev)@.host == old(ev)@.host,
        final(ev)@.vars == unexport_names(old(ev)@.vars, texts(names@)),
{
    let mut i: usize = 0;
    assert(texts(names@).take(0) =~= Seq::<Seq<char>>::empty());
    while i < names.len()
        invariant
            i <= names.len(),
            ev@.host == old(ev)@.host,
            ev@.vars == unexport_names(old(ev)@.vars, texts(names@).take(i as int)),
        decreases names.len() - i,
    {
        proof {
            let t = texts(names@).take(i + 1);
            assert(t.drop_last() =~= texts(names@).take(i as int));
            assert(t.last() == names@[i as int]@);
        }
        ev.vars.unexport(&names[i]);
        i += 1;
    }
    assert(texts(names@).take(names.len() as int) =~= texts(names@));
}

/// Assigns to the global variable `name`.
pub fn assign_text(
    state: &State,
    ev: &mut Evaluator,
    loc: &Location,
    name: Vec<char>,
    op: VarOp,
    value: &Vec<char>,
    export: bool,
    origin: Origin,
) -> (r: Result<(), Stop>)
    ensures
        parse_step(r, *state, *final(ev)) == assign_global(
            state@,
            old(ev)@,
            loc@,
            name@,
            op,
            value@,
            export,
            origin,
        ),
{
    match op {
        VarOp::Store(false) => {
            ev.vars.assign(
                copy_text(&name),
                Flavor::Recursive,
                origin,
                Some(loc.copy()),
                trim_of(value),
            );
        },
        VarOp::Store(true) => {
            let v = expand_text(ev, loc, value, DEPTH)?;
            ev.vars.assign(copy_text(&name), Flavor::Simple, origin, Some(loc.copy()), trim_of(&v));
        },
        VarOp::StoreIfUndef => {
            if ev.vars.lookup_global(&name).is_none() {
                ev.vars.assign(
                    copy_text(&name),
                    Flavor::Recursive,
                    origin,
                    Some(loc.copy()),
                    trim_of(value),
                );
            }
        },
        VarOp::Append => {
            let simple = match ev.vars.lookup_global(&name) {
                Some(c) => match c.flavor() {
                    Flavor::Simple => true,
                    _ => false,
                },
                None => false,
            };
            if simple {
                let v = expand_text(ev, loc, value, DEPTH)?;
                ev.vars.append(copy_text(&name), origin, Some(loc.copy()), &v);
            } else {
                ev.vars.append(copy_text(&name), origin, Some(loc.copy()), value);
            }
        },
        VarOp::Shell => {
            let cmd = expand_text(ev, loc, value, DEPTH)?;
            let out = run_shell(ev, loc, cmd, DEPTH)?;
            ev.vars.assign(copy_text(&name), Flavor::Simple, origin, Some(loc.copy()), out);
        },
    }
    if export {
        ev.vars.export(&name);
    }
    Ok(())
}

fn assign_to_targets(
    state: &mut State,
    ev: &mut Evaluator,
    loc: &Location,
    targets: &Vec<char>,
    name: Vec<char>,
    op: VarOp,
    value: &Vec<char>,
) -> (r: Result<(), Stop>)
    ensures
        parse_step(r, *final(state), *final(ev)) == assign_scoped(
            old(state)@,
            old(ev)@,
            loc@,
            targets@,
            name@,
            op,
            value@,
        ),
{
    let expand_it = match op {
        VarOp::Store(true) => true,
        _ => false,
    };
    let text = if expand_it {
        expand_text(ev, loc, value, DEPTH)?
    } else {
        copy_text(value)
    };
    let ts = expand_text(ev, loc, targets, DEPTH)?;
    state.push_rule(
        Rule { location: loc.copy(), targets: split_words(&ts), data: RuleData::Var(name, op, text) },
    );
    Ok(())
}

/// Takes in a line that is no conditional, `define`, `include` or recipe
/// line.
pub fn parse_line(state: &mut State, ev: &mut Evaluator, location: &Location, src: &Vec<char>) -> (r:
    Result<(), Stop>)
    ensures
        parse_step(r, *final(state), *final(ev)) == parse(old(state)@, old(ev)@, location@, src@),
{
    state.in_rule = false;
    match classify_line(src) {
        Directive::Unexport { names } => {
            if trim_of(&names).len() == 0 {
                ev.vars.unexport_all();
            } else {
                let t = expand_text(ev, location, &names, DEPTH)?;
                unexport_all_names(ev, &split_words(&t));
            }
            Ok(())
        },
        Directive::Export { names } => {
            let t = expand_text(ev, location, &names, DEPTH)?;
            let ws = split_words(&t);
            if ws.len() == 0 {
                ev.vars.export_all();
            } else {
                export_all_names(ev, &ws);
            }
            Ok(())
        },
        Directive::Assign { targets, name, op, value, export, origin } => {
            let nt = expand_text(ev, location, &name, DEPTH)?;
            let n = trim_of(&nt);
            if n.len() == 0 {
                return Err(Stop::Fatal(Fatal::at(FatalKind::BadAssignment, location)));
            }
            match targets {
                Some(t) => assign_to_targets(state, ev, location, &t, n, op, &value),
                None => assign_text(state, ev, location, n, op, &value, export, origin),
            }
        },
        Directive::Rule { targets, double, prereqs, recipe } => {
            let t = expand_text(ev, location, &targets, DEPTH)?;
            let ts = split_words(&t);
            match recipe {
                Some(r) => {
                    state.push_rule(
                        Rule {
                            location: location.copy(),
                            targets: copy_texts(&ts),
                            data: RuleData::Prereq(double, prereqs),
                        },
                    );
                    state.push_rule(
                        Rule { location: location.copy(), targets: ts, data: RuleData::Recipie(r) },
                    );
                },
                None => {
                    state.push_rule(
                        Rule {
                            location: location.copy(),
                            targets: ts,
                            data: RuleData::Prereq(double, prereqs),
                        },
                    );
                },
            }
            state.in_rule = true;
            Ok(())
        },
        Directive::Bare { text } => {
            let _ = expand_text(ev, location, &text, DEPTH)?;
            Ok(())
        },
    }
}

} // verus!
