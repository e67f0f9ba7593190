//! The scheduler: it visits targets as `plan` says.

use crate::expand::{expand_text, read_variable, DEPTH};
use crate::fault::{Fatal, FatalKind, Stop};
use crate::graph::{graph_view, recipes_view, Node, Recipe, RecipeView};
use crate::host::{Answer, EvalView, Evaluator, Request, Stream};
use crate::number::{decimal_of, signed_decimal_of};
use crate::plan::{
    update_state, HaltView, UpdateState,
    auto_cell, bind_scoped, circular_line, commands_from, decide, error_line, join_made, later,
    make, marks_end, newer_from, place_of, remake, rule_frame, run, run_from, visit, visit_nodes,
    visit_prereqs, visit_source, CommandsStep, Decision, DecisionStep, ListStep, Made, MadeStep,
    RunStep, VisitStep,
};
use crate::rules::{holds, State, VarOp};
use crate::text::{
    append, chars_of, copy_text, copy_texts, lemma_texts_push, slice_of, text_eq, texts, trim_of,
};
use crate::vars::{Flavor, Location, Origin, Var};
use crate::words::join_single_of;
use vstd::prelude::*;

verus! {

/// Why the scheduler halts before its end.
pub enum Halt {
    /// An evaluation stopped: it needs the host, or it met an error.
    Stop(Stop),
    /// Targets need one another more deeply than the scheduler was told
    /// to follow them.
    Depth,
}

impl View for Halt {
    type V = HaltView;

    open spec fn view(&self) -> HaltView {
        match *self {
            Halt::Stop(s) => HaltView::Stop(s@),
            Halt::Depth => HaltView::Depth,
        }
    }
}

pub open spec fn visit_step(
    r: Result<Option<Made>, Halt>,
    state: State,
    ev: Evaluator,
) -> VisitStep {
    VisitStep {
        result: match r {
            Ok(m) => Ok(m),
            Err(s) => Err(s@),
        },
        state: state@,
        ev: ev@,
    }
}

pub open spec fn made_step(r: Result<Made, Halt>, state: State, ev: Evaluator) -> MadeStep {
    MadeStep {
        result: match r {
            Ok(m) => Ok(m),
            Err(s) => Err(s@),
        },
        state: state@,
        ev: ev@,
    }
}

pub open spec fn run_step(r: Result<bool, Stop>, ev: Evaluator) -> RunStep {
    RunStep {
        result: match r {
            Ok(m) => Ok(m),
            Err(s) => Err(s@),
        },
        ev: ev@,
    }
}

fn place(node: &Node) -> (r: Location)
    ensures
        r@ == place_of(node@),
{
    Location::at(copy_text(&node.name), 0)
}

fn automatic(name: char, value: Vec<char>) -> (r: Var)
    ensures
        r@ == auto_cell(seq![name], value@),
{
    let mut n: Vec<char> = Vec::new();
    n.push(name);
    assert(n@ =~= seq![name]);
    Var::cell(Flavor::Simple, Origin::Automatic, None, n, value, false)
}

fn open_frame(ev: &mut Evaluator, node: &Node)
    ensures
        final(ev)@ == (EvalView { vars: rule_frame(old(ev)@.vars, node@), ..old(ev)@ }),
{
    ev.vars.push_frame(None);
    ev.vars.bind(automatic('@', copy_text(&node.name)));
    let first = if node.prerequisites.len() > 0 {
        assert(node@.prerequisites[0] == node.prerequisites@[0]@);
        copy_text(&node.prerequisites[0])
    } else {
        Vec::new()
    };
    ev.vars.bind(automatic('<', first));
    let ghost start = ev@.vars;
    let mut i: usize = 0;
    while i < node.vars.len()
        invariant
            i <= node.vars.len(),
            ev@.host == old(ev)@.host,
            bind_scoped(ev@.vars, node@.vars, i as int) == bind_scoped(start, node@.vars, 0),
        decreases node.vars.len() - i,
    {
        let v = &node.vars[i];
        assert(node@.vars[i as int] == v@);
        let simple = match v.op {
            VarOp::Store(true) => true,
            _ => false,
        };
        let cell = Var::cell(
            if simple {
                Flavor::Simple
            } else {
                Flavor::Recursive
            },
            Origin::File,
            None,
            copy_text(&v.name),
            trim_of(&v.text),
            false,
        );
        ev.vars.bind(cell);
        i += 1;
    }
}

fn is_later(s1: u64, n1: u32, s2: u64, n2: u32) -> (r: bool)
    ensures
        r == later(s1, n1, s2, n2),
{
    s1 > s2 || (s1 == s2 && n1 > n2)
}

fn newer_than(
    state: &State,
    ev: &mut Evaluator,
    loc: &Location,
    prereqs: &Vec<Vec<char>>,
    s: u64,
    n: u32,
) -> (r: Result<Vec<Vec<char>>, Stop>)
    ensures
        (ListStep {
            result: match r {
                Ok(l) => Ok(texts(l@)),
                Err(e) => Err(e@),
            },
            ev: final(ev)@,
        }) == newer_from(state@, old(ev)@, loc@, texts(prereqs@), 0, s, n, Seq::empty()),
{
    let mut acc: Vec<Vec<char>> = Vec::new();
    assert(texts(acc@) =~= Seq::<Seq<char>>::empty());
    let mut j: usize = 0;
    while j < prereqs.len()
        invariant
            j <= prereqs.len(),
            newer_from(state@, ev@, loc@, texts(prereqs@), j as int, s, n, texts(acc@))
                == newer_from(state@, old(ev)@, loc@, texts(prereqs@), 0, s, n, Seq::empty()),
        decreases prereqs.len() - j,
    {
        let p = &prereqs[j];
        assert(texts(prereqs@)[j as int] == p@);
        let ghost before = acc@;
        if holds(&state.phony, p) {
            let c = copy_text(p);
            acc.push(c);
            proof {
                lemma_texts_push(before, c);
            }
        } else {
            match ev.host.take() {
                None => {
                    return Err(Stop::Need(Request::Stat { path: copy_text(p) }));
                },
                Some(a) => match a {
                    Answer::Missing => {
                        let c = copy_text(p);
                        acc.push(c);
                        proof {
                            lemma_texts_push(before, c);
                        }
                    },
                    Answer::Stamp { seconds, nanos } => {
                        if is_later(seconds, nanos, s, n) {
                            let c = copy_text(p);
                            acc.push(c);
                            proof {
                                lemma_texts_push(before, c);
                            }
                        }
                    },
                    _ => {
                        return Err(Stop::Fatal(Fatal::at(FatalKind::BadAnswer, loc)));
                    },
                },
            }
        }
        j += 1;
    }
    Ok(acc)
}

/// What was decided of a target.
pub struct Verdict {
    pub needs: bool,
    pub newer: Vec<Vec<char>>,
}

pub open spec fn decision_step(r: Result<Verdict, Stop>, ev: Evaluator) -> DecisionStep {
    DecisionStep {
        result: match r {
            Ok(v) => Ok(Decision { needs: v.needs, newer: texts(v.newer@) }),
            Err(e) => Err(e@),
        },
        ev: ev@,
    }
}

/// Decides whether a rule's target must be made.
pub fn decide_node(state: &State, ev: &mut Evaluator, node: &Node) -> (r: Result<Verdict, Stop>)
    ensures
        decision_step(r, *final(ev)) == decide(state@, old(ev)@, node@),
{
    if state.always_make || node.phony {
        return Ok(Verdict { needs: true, newer: copy_texts(&node.prerequisites) });
    }
    match ev.host.take() {
        None => Err(Stop::Need(Request::Stat { path: copy_text(&node.name) })),
        Some(a) => match a {
            Answer::Missing => Ok(Verdict { needs: true, newer: copy_texts(&node.prerequisites) }),
            Answer::Stamp { seconds, nanos } => {
                let loc = place(node);
                match newer_than(state, ev, &loc, &node.prerequisites, seconds, nanos) {
                    Err(e) => Err(e),
                    Ok(l) => Ok(Verdict { needs: l.len() > 0, newer: l }),
                }
            },
            _ => Err(Stop::Fatal(Fatal::at(FatalKind::BadAnswer, &place(node)))),
        },
    }
}

fn commands_of(ev: &mut Evaluator, recipes: &Vec<Recipe>) -> (r: Result<Vec<Recipe>, Stop>)
    ensures
        (CommandsStep {
            result: match r {
                Ok(l) => Ok(recipes_view(l@)),
                Err(e) => Err(e@),
            },
            ev: final(ev)@,
        }) == commands_from(old(ev)@, recipes_view(recipes@), 0, Seq::empty()),
{
    let mut acc: Vec<Recipe> = Vec::new();
    assert(recipes_view(acc@) =~= Seq::<RecipeView>::empty());
    let mut i: usize = 0;
    while i < recipes.len()
        invariant
            i <= recipes.len(),
            commands_from(ev@, recipes_view(recipes@), i as int, recipes_view(acc@))
                == commands_from(old(ev)@, recipes_view(recipes@), 0, Seq::empty()),
        decreases recipes.len() - i,
    {
        assert(recipes_view(recipes@)[i as int] == recipes@[i as int]@);
        let t = match expand_text(ev, &recipes[i].loc, &recipes[i].text, DEPTH) {
            Err(e) => {
                return Err(e);
            },
            Ok(t) => t,
        };
        let cmd = trim_of(&t);
        if cmd.len() > 0 {
            let ghost before = recipes_view(acc@);
            let c = Recipe { loc: recipes[i].loc.copy(), text: cmd };
            acc.push(c);
            assert(recipes_view(acc@) =~= before.push(c@));
        }
        i += 1;
    }
    Ok(acc)
}

fn error_line_of(state: &State, loc: &Location, target: &Vec<char>, status: i32, ignored: bool) -> (r:
    Vec<char>)
    ensures
        r@ == error_line(state@, loc@, target@, status, ignored),
{
    let mut out = copy_text(&state.basename);
    append(&mut out, &chars_of(": "));
    if !ignored {
        append(&mut out, &chars_of("*** "));
    }
    append(&mut out, &chars_of("["));
    append(&mut out, loc.file_text());
    out.push(':');
    append(&mut out, &decimal_of(loc.line()));
    append(&mut out, &chars_of(": "));
    append(&mut out, target);
    append(&mut out, &chars_of("] Error "));
    append(&mut out, &signed_decimal_of(status));
    if ignored {
        append(&mut out, &chars_of(" (ignored)"));
    }
    assert(out@ =~= error_line(state@, loc@, target@, status, ignored));
    out
}

/// The marks at the start of a command: where they end, and whether `@`
/// and `-` are among them.
fn marks_of(cmd: &Vec<char>) -> (r: (usize, bool, bool))
    ensures
        r.0 == marks_end(cmd@, 0),
        r.0 <= cmd.len(),
        r.1 == cmd@.take(r.0 as int).contains('@'),
        r.2 == cmd@.take(r.0 as int).contains('-'),
{
    let mut i: usize = 0;
    let mut quiet = false;
    let mut tolerant = false;
    while i < cmd.len() && (cmd[i] == '@' || cmd[i] == '-')
        invariant
            i <= cmd.len(),
            marks_end(cmd@, i as int) == marks_end(cmd@, 0),
            quiet == cmd@.take(i as int).contains('@'),
            tolerant == cmd@.take(i as int).contains('-'),
        decreases cmd.len() - i,
    {
        proof {
            let t = cmd@.take(i as int);
            let u = cmd@.take(i + 1);
            assert(u =~= t.push(cmd@[i as int]));
            assert(u[i as int] == cmd@[i as int]);
            assert forall|c: char| u.contains(c) <==> (t.contains(c) || c == cmd@[i as int]) by {
                if t.contains(c) {
                    let k = choose|k: int| 0 <= k < t.len() && t[k] == c;
                    assert(u[k] == c);
                }
                if u.contains(c) {
                    let k = choose|k: int| 0 <= k < u.len() && u[k] == c;
                    if k < i {
                        assert(t[k] == c);
                    }
                }
            }
        }
        if cmd[i] == '@' {
            quiet = true;
        } else {
            tolerant = true;
        }
        i += 1;
    }
    (i, quiet, tolerant)
}

/// Runs one command of the recipe of `target`.
pub fn run_command(
    state: &State,
    ev: &mut Evaluator,
    target: &Vec<char>,
    silent: bool,
    c: &Recipe,
) -> (r: Result<bool, Stop>)
    ensures
        run_step(r, *final(ev)) == run(state@, old(ev)@, target@, silent, c@),
{
    let (e, quiet, tolerant) = marks_of(&c.text);
    let body = slice_of(&c.text, e, c.text.len());
    assert(body@ =~= c.text@.skip(e as int));
    let suppressed = quiet || silent || state.silent;
    if !suppressed || state.dryrun {
        ev.host.say(Stream::Output, copy_text(&body));
    }
    if state.dryrun {
        return Ok(false);
    }
    let shell = read_variable(ev, &c.loc, &chars_of("SHELL"), DEPTH)?;
    let flags = read_variable(ev, &c.loc, &chars_of(".SHELLFLAGS"), DEPTH)?;
    match ev.host.take() {
        None => Err(Stop::Need(Request::Run { shell, flags, command: body })),
        Some(a) => match a {
            Answer::Output { text, status } => {
                if status == 0 {
                    Ok(false)
                } else if tolerant || state.ignore_errors {
                    ev.host.say(Stream::Error, error_line_of(state, &c.loc, target, status, true));
                    Ok(false)
                } else if state.keep_going {
                    ev.host.say(Stream::Error, error_line_of(state, &c.loc, target, status, false));
                    Ok(true)
                } else {
                    Err(
                        Stop::Fatal(
                            Fatal {
                                kind: FatalKind::CommandFailed,
                                loc: c.loc.copy(),
                                text: copy_text(target),
                                other: signed_decimal_of(status),
                                number: 0,
                            },
                        ),
                    )
                }
            },
            _ => Err(Stop::Fatal(Fatal::at(FatalKind::BadAnswer, &c.loc))),
        },
    }
}

fn run_commands(
    state: &State,
    ev: &mut Evaluator,
    target: &Vec<char>,
    silent: bool,
    cmds: &Vec<Recipe>,
) -> (r: Result<bool, Stop>)
    ensures
        run_step(r, *final(ev)) == run_from(
            state@,
            old(ev)@,
            target@,
            silent,
            recipes_view(cmds@),
            0,
            false,
        ),
{
    let mut failed = false;
    let mut i: usize = 0;
    while i < cmds.len()
        invariant
            i <= cmds.len(),
            run_from(state@, ev@, target@, silent, recipes_view(cmds@), i as int, failed)
                == run_from(state@, old(ev)@, target@, silent, recipes_view(cmds@), 0, false),
        decreases cmds.len() - i,
    {
        assert(recipes_view(cmds@)[i as int] == cmds@[i as int]@);
        match run_command(state, ev, target, silent, &cmds[i]) {
            Err(e) => {
                return Err(e);
            },
            Ok(f) => {
                failed = failed || f;
            },
        }
        i += 1;
    }
    Ok(failed)
}

/// Makes a rule whose prerequisites were visited.
pub fn remake_node(state: &mut State, ev: &mut Evaluator, node: &Node, pre: Made) -> (r: Result<
    Made,
    Halt,
>)
    ensures
        made_step(r, *final(state), *final(ev)) == remake(old(state)@, old(ev)@, node@, pre),
{
    let v = match decide_node(state, ev, node) {
        Err(e) => {
            return Err(Halt::Stop(e));
        },
        Ok(v) => v,
    };
    ev.vars.bind(automatic('?', join_single_of(&v.newer)));
    if v.needs && node.recipes.len() > 0 {
        let cmds = match commands_of(ev, &node.recipes) {
            Err(e) => {
                return Err(Halt::Stop(e));
            },
            Ok(c) => c,
        };
        let failed = match run_commands(state, ev, &node.name, node.silent, &cmds) {
            Err(e) => {
                return Err(Halt::Stop(e));
            },
            Ok(f) => f,
        };
        if failed {
            let ghost before = state.failed@;
            let n = copy_text(&node.name);
            state.failed.push(n);
            proof {
                lemma_texts_push(before, n);
            }
        }
        Ok(Made { done: pre.done || cmds.len() > 0, recipes: true })
    } else {
        Ok(Made { done: pre.done, recipes: pre.recipes || node.recipes.len() > 0 })
    }
}

fn circular_line_of(state: &State, parent: &Vec<char>, name: &Vec<char>) -> (r: Vec<char>)
    ensures
        r@ == circular_line(state@, parent@, name@),
{
    let mut out = copy_text(&state.basename);
    append(&mut out, &chars_of(": Circular "));
    append(&mut out, parent);
    append(&mut out, &chars_of(" <- "));
    append(&mut out, name);
    append(&mut out, &chars_of(" dependency dropped."));
    assert(out@ =~= circular_line(state@, parent@, name@));
    out
}

fn process_source(state: &State, ev: &mut Evaluator, name: &Vec<char>) -> (r: Result<
    Option<Made>,
    Halt,
>)
    ensures
        visit_step(r, *state, *final(ev)) == visit_source(state@, old(ev)@, name@),
{
    if holds(&state.phony, name) {
        return Ok(Some(Made { done: false, recipes: false }));
    }
    match ev.host.take() {
        None => Err(Halt::Stop(Stop::Need(Request::Stat { path: copy_text(name) }))),
        Some(a) => match a {
            Answer::Missing => Ok(None),
            Answer::Stamp { seconds, nanos } => Ok(Some(Made { done: false, recipes: false })),
            _ => Err(
                Halt::Stop(
                    Stop::Fatal(Fatal::at(FatalKind::BadAnswer, &Location::at(copy_text(name), 0))),
                ),
            ),
        },
    }
}

fn join(a: Option<Made>, b: Made) -> (r: Option<Made>)
    ensures
        r == join_made(a, b),
{
    match a {
        Some(m) => Some(Made { done: m.done || b.done, recipes: m.recipes || b.recipes }),
        None => Some(b),
    }
}

/// How far the scheduler is with the target `name`.
pub fn state_of(state: &State, name: &Vec<char>) -> (r: UpdateState)
    ensures
        r == update_state(state@, name@),
{
    if !holds(&state.processed, name) {
        UpdateState::Unvisited
    } else if holds(&state.active, name) {
        UpdateState::InProgress
    } else if holds(&state.failed, name) {
        UpdateState::Failed
    } else {
        UpdateState::Updated
    }
}

fn enter_target(state: &mut State, name: &Vec<char>)
    ensures
        final(state)@ == crate::plan::enter(old(state)@, name@),
{
    let c1 = copy_text(name);
    let c2 = copy_text(name);
    proof {
        lemma_texts_push(state.processed@, c1);
        lemma_texts_push(state.active@, c2);
    }
    state.processed.push(c1);
    state.active.push(c2);
}

fn leave_target(state: &mut State)
    ensures
        final(state)@ == crate::plan::leave(old(state)@),
{
    if state.active.len() > 0 {
        let ghost before = state.active@;
        state.active.pop();
        assert(texts(state.active@) =~= texts(before).drop_last());
    }
}

/// Visits the target `name`, which `parent` needs.
pub fn process_target(
    g: &Vec<Node>,
    state: &mut State,
    ev: &mut Evaluator,
    name: &Vec<char>,
    parent: &Vec<char>,
    fuel: usize,
) -> (r: Result<Option<Made>, Halt>)
    ensures
        visit_step(r, *final(state), *final(ev)) == visit(
            graph_view(g@),
            old(state)@,
            old(ev)@,
            name@,
            parent@,
            fuel as nat,
        ),
    decreases fuel, 3int, 0int,
{
    if holds(&state.processed, name) {
        if holds(&state.active, name) {
            ev.host.say(Stream::Error, circular_line_of(state, parent, name));
        }
        return Ok(Some(Made { done: false, recipes: false }));
    }
    if fuel == 0 {
        return Err(Halt::Depth);
    }
    enter_target(state, name);
    let r = process_nodes(g, state, ev, name, fuel - 1)?;
    leave_target(state);
    match r {
        Some(m) => Ok(Some(m)),
        None => process_source(state, ev, name),
    }
}

fn process_nodes(
    g: &Vec<Node>,
    state: &mut State,
    ev: &mut Evaluator,
    name: &Vec<char>,
    fuel: usize,
) -> (r: Result<Option<Made>, Halt>)
    ensures
        visit_step(r, *final(state), *final(ev)) == visit_nodes(
            graph_view(g@),
            old(state)@,
            old(ev)@,
            name@,
            0,
            None,
            fuel as nat,
        ),
    decreases fuel, 2int, g.len(),
{
    let mut acc: Option<Made> = None;
    let mut k: usize = 0;
    while k < g.len()
        invariant
            k <= g.len(),
            visit_nodes(graph_view(g@), state@, ev@, name@, k as int, acc, fuel as nat)
                == visit_nodes(graph_view(g@), old(state)@, old(ev)@, name@, 0, None, fuel as nat),
        decreases g.len() - k,
    {
        assert(graph_view(g@)[k as int] == g@[k as int]@);
        if text_eq(&g[k].name, name) {
            match make_node(g, state, ev, &g[k], fuel) {
                Err(e) => {
                    return Err(e);
                },
                Ok(m) => {
                    acc = join(acc, m);
                },
            }
        }
        k += 1;
    }
    Ok(acc)
}

fn make_node(g: &Vec<Node>, state: &mut State, ev: &mut Evaluator, node: &Node, fuel: usize) -> (r:
    Result<Made, Halt>)
    ensures
        made_step(r, *final(state), *final(ev)) == make(
            graph_view(g@),
            old(state)@,
            old(ev)@,
            node@,
            fuel as nat,
        ),
    decreases fuel, 1int, 0int,
{
    open_frame(ev, node);
    let pre = process_prereqs(g, state, ev, node, fuel)?;
    let m = remake_node(state, ev, node, pre)?;
    ev.vars.pop_frame();
    Ok(m)
}

fn process_prereqs(
    g: &Vec<Node>,
    state: &mut State,
    ev: &mut Evaluator,
    node: &Node,
    fuel: usize,
) -> (r: Result<Made, Halt>)
    ensures
        made_step(r, *final(state), *final(ev)) == visit_prereqs(
            graph_view(g@),
            old(state)@,
            old(ev)@,
            node@,
            0,
            Made { done: false, recipes: false },
            fuel as nat,
        ),
    decreases fuel, 0int, node.prerequisites.len(),
{
    let mut acc = Made { done: false, recipes: false };
    let mut j: usize = 0;
    while j < node.prerequisites.len()
        invariant
            j <= node.prerequisites.len(),
            visit_prereqs(graph_view(g@), state@, ev@, node@, j as int, acc, fuel as nat)
                == visit_prereqs(
                graph_view(g@),
                old(state)@,
                old(ev)@,
                node@,
                0,
                Made { done: false, recipes: false },
                fuel as nat,
            ),
        decreases node.prerequisites.len() - j,
    {
        if fuel == 0 {
            return Err(Halt::Depth);
        }
        let p = &node.prerequisites[j];
        assert(node@.prerequisites[j as int] == p@);
        match process_target(g, state, ev, p, &node.name, fuel - 1) {
            Err(e) => {
                return Err(e);
            },
            Ok(None) => {
                return Err(
                    Halt::Stop(
                        Stop::Fatal(
                            Fatal {
                                kind: FatalKind::NoRuleNeeded,
                                loc: place(node),
                                text: copy_text(p),
                                other: copy_text(&node.name),
                                number: 0,
                            },
                        ),
                    ),
                );
            },
            Ok(Some(m)) => {
                acc = Made { done: acc.done || m.done, recipes: acc.recipes || m.recipes };
            },
        }
        j += 1;
    }
    Ok(acc)
}

} // verus!
