//! A whole run: the makefile is read, the graph is built, and the targets
//! are made.

use crate::fault::{fatal_about, stop_at, Fatal, FatalKind, Stop, StopView};
use crate::graph::{
    build, build_graph, graph_view, process_specials, select, select_targets, specials_from, Node,
    NodeView,
};
use crate::host::{
    answers_view, Answer, AnswerView, EvalView, Evaluator, HostView, Stream,
};
use crate::parse::{failed, parse_step, passed, ParseStep};
use crate::plan::{visit, HaltView, Made};
use crate::reader::{include_one, INCLUDES};
use crate::rules::{State, StateView};
use crate::store::SymbolTable;
use crate::sched::{process_target, Halt};
use crate::text::{append, chars_of, copy_text, copy_texts, texts};
use crate::vars::{Location, LocationView};
use vstd::prelude::*;

verus! {

/// How far the scheduler follows prerequisites in a graph: each visit of a
/// target that was not visited before takes two, and one more target than
/// the graph has nodes can be visited inside another.
pub open spec fn depth_of(g: Seq<NodeView>) -> nat {
    if g.len() <= (usize::MAX - 2) / 2 {
        2 * g.len() + 2
    } else {
        usize::MAX as nat
    }
}

/// The line that says that nothing was done for a target: it is up to
/// date if it or something that it needs has a recipe; else there is
/// nothing to be done for it.
pub open spec fn idle_line(state: StateView, target: Seq<char>, m: Made) -> Seq<char> {
    if !m.recipes {
        state.basename + ": Nothing to be done for '"@ + target + "'."@
    } else {
        state.basename + ": '"@ + target + "' is up to date."@
    }
}

/// What making the targets from number `i` on does: each is visited; of
/// one for which nothing was done a line says so, unless the run is
/// silent; one that nothing says how to make is an error.
pub open spec fn make_from(
    g: Seq<NodeView>,
    state: StateView,
    ev: EvalView,
    targets: Seq<Seq<char>>,
    i: int,
) -> ParseStep
    decreases targets.len() - i,
{
    if i < 0 || i >= targets.len() {
        passed(state, ev)
    } else {
        let v = visit(g, state, ev, targets[i], Seq::empty(), depth_of(g));
        match v.result {
            Err(HaltView::Stop(e)) => failed(e, v.state, v.ev),
            Err(HaltView::Depth) => failed(
                stop_at(FatalKind::TooDeep, LocationView { file_name: targets[i], line: 0 }),
                v.state,
                v.ev,
            ),
            Ok(None) => failed(
                StopView::Fatal(
                    fatal_about(
                        FatalKind::NoRule,
                        LocationView { file_name: targets[i], line: 0 },
                        targets[i],
                    ),
                ),
                v.state,
                v.ev,
            ),
            Ok(Some(m)) => make_from(
                g,
                v.state,
                if !v.state.silent && !m.done {
                    EvalView {
                        host: v.ev.host.say(Stream::Error, idle_line(v.state, targets[i], m)),
                        ..v.ev
                    }
                } else {
                    v.ev
                },
                targets,
                i + 1,
            ),
        }
    }
}

/// What is done once the makefile was read: the special targets are taken
/// in, the graph is built, and the targets of the command line are made,
/// or, if it names none, those that `select` chooses.
pub open spec fn finish(state: StateView, ev: EvalView) -> ParseStep {
    let s = specials_from(state, ev, 0);
    match s.result {
        Err(e) => s,
        Ok(_) => {
            let b = build(s.state, s.ev);
            match b.result {
                Err(e) => failed(e, s.state, b.ev),
                Ok(g) => if s.state.targets_to_make.len() > 0 {
                    make_from(g, s.state, b.ev, s.state.targets_to_make, 0)
                } else {
                    let c = select(s.state, b.ev);
                    match c.result {
                        Err(e) => failed(e, s.state, c.ev),
                        Ok(targets) => make_from(g, s.state, c.ev, targets, 0),
                    }
                },
            }
        },
    }
}

/// A whole run for the makefile `file`, whose text the host gives; a
/// makefile that is not there is an error.
pub open spec fn whole(state: StateView, ev: EvalView, file: Seq<char>) -> ParseStep {
    let p = include_one(
        state,
        ev,
        LocationView { file_name: file, line: 0 },
        false,
        file,
        (INCLUDES + 1) as nat,
    );
    match p.result {
        Err(e) => p,
        Ok(_) => finish(p.state, p.ev),
    }
}

fn idle_line_of(state: &State, target: &Vec<char>, m: Made) -> (r: Vec<char>)
    ensures
        r@ == idle_line(state@, target@, m),
{
    let mut out = copy_text(&state.basename);
    if !m.recipes {
        append(&mut out, &chars_of(": Nothing to be done for '"));
        append(&mut out, target);
        append(&mut out, &chars_of("'."));
        assert(out@ =~= state.basename@ + ": Nothing to be done for '"@ + target@ + "'."@);
    } else {
        append(&mut out, &chars_of(": '"));
        append(&mut out, target);
        append(&mut out, &chars_of("' is up to date."));
        assert(out@ =~= state.basename@ + ": '"@ + target@ + "' is up to date."@);
    }
    out
}

/// Makes the targets.
pub fn make_targets(g: &Vec<Node>, state: &mut State, ev: &mut Evaluator, targets: &Vec<Vec<char>>) -> (r:
    Result<(), Stop>)
    ensures
        parse_step(r, *final(state), *final(ev)) == make_from(
            graph_view(g@),
            old(state)@,
            old(ev)@,
            texts(targets@),
            0,
        ),
{
    let fuel: usize = if g.len() <= (usize::MAX - 2) / 2 {
        2 * g.len() + 2
    } else {
        usize::MAX
    };
    let none: Vec<char> = Vec::new();
    let mut i: usize = 0;
    while i < targets.len()
        invariant
            i <= targets.len(),
            fuel == depth_of(graph_view(g@)),
            none@ == Seq::<char>::empty(),
            make_from(graph_view(g@), state@, ev@, texts(targets@), i as int) == make_from(
                graph_view(g@),
                old(state)@,
                old(ev)@,
                texts(targets@),
                0,
            ),
        decreases targets.len() - i,
    {
        let t = &targets[i];
        assert(texts(targets@)[i as int] == t@);
        match process_target(g, state, ev, t, &none, fuel) {
            Err(Halt::Stop(e)) => {
                return Err(e);
            },
            Err(Halt::Depth) => {
                return Err(
                    Stop::Fatal(Fatal::at(FatalKind::TooDeep, &Location::at(copy_text(t), 0))),
                );
            },
            Ok(None) => {
                return Err(
                    Stop::Fatal(
                        Fatal::about(
                            FatalKind::NoRule,
                            &Location::at(copy_text(t), 0),
                            copy_text(t),
                        ),
                    ),
                );
            },
            Ok(Some(m)) => {
                if !state.silent && !m.done {
                    ev.host.say(Stream::Error, idle_line_of(state, t, m));
                }
            },
        }
        i += 1;
    }
    Ok(())
}

fn finish_run(state: &mut State, ev: &mut Evaluator) -> (r: Result<(), Stop>)
    ensures
        parse_step(r, *final(state), *final(ev)) == finish(old(state)@, old(ev)@),
{
    process_specials(state, ev)?;
    let g = build_graph(state, ev)?;
    if state.targets_to_make.len() > 0 {
        let targets = copy_texts(&state.targets_to_make);
        make_targets(&g, state, ev, &targets)
    } else {
        let targets = select_targets(state, ev)?;
        make_targets(&g, state, ev, &targets)
    }
}

/// Runs the makefile `file`: it is read, and the targets are made.
pub fn state_machine(state: &mut State, ev: &mut Evaluator, file: &Vec<char>) -> (r: Result<
    (),
    Stop,
>)
    ensures
        parse_step(r, *final(state), *final(ev)) == whole(old(state)@, old(ev)@, file@),
{
    let loc = Location::at(copy_text(file), 0);
    crate::reader::include_file(state, ev, &loc, false, file, INCLUDES + 1)?;
    finish_run(state, ev)
}

/// What one round of a run gave: how it ended, the state and the evaluator
/// as it left them, and whether the library has served the request with
/// which it stopped.
pub struct Round {
    pub result: Result<(), Stop>,
    pub state: State,
    pub ev: Evaluator,
    pub served: bool,
}

/// `after` is `before` with one answer more, which gives paths or refuses
/// the pattern.
pub open spec fn one_more(before: Seq<AnswerView>, after: Seq<AnswerView>) -> bool {
    &&& after.len() == before.len() + 1
    &&& after.take(before.len() as int) == before
    &&& (after.last() is Paths || after.last() is Refused)
}

fn copy_answers(answers: &Vec<Answer>) -> (r: Vec<Answer>)
    ensures
        answers_view(r@) == answers_view(answers@),
{
    let mut r: Vec<Answer> = Vec::new();
    let mut i: usize = 0;
    while i < answers.len()
        invariant
            i <= answers.len(),
            r.len() == i,
            forall|j: int| 0 <= j < i ==> (#[trigger] r@[j])@ == answers@[j]@,
        decreases answers.len() - i,
    {
        r.push(answers[i].copy());
        i += 1;
    }
    assert(answers_view(r@) =~= answers_view(answers@));
    r
}

/// One round of a run: the makefile `file` is run from `state` and `vars`
/// with the answers given so far. Where the run stops with a request for
/// the paths that match a pattern, the library serves it: the answer is
/// added to `answers`. Any other request is left to the host, which adds
/// its answer. After a round that stopped with a request, the next round
/// starts from the same state, with one answer more.
pub fn advance(state: &State, vars: &SymbolTable, file: &Vec<char>, answers: &mut Vec<Answer>) -> (r:
    Round)
    ensures
        parse_step(r.result, r.state, r.ev) == whole(
            state@,
            EvalView {
                vars: vars@,
                host: HostView { answers: answers_view(old(answers)@), used: 0, log: Seq::empty() },
            },
            file@,
        ),
        r.served <==> (r.result is Err && r.result->Err_0@ is Need && r.result->Err_0@->Need_0
            is Wildcard),
        r.served ==> one_more(answers_view(old(answers)@), answers_view(final(answers)@)),
        !r.served ==> final(answers)@ == old(answers)@,
{
    let mut s = state.copy();
    let mut ev = Evaluator::new(vars.copy(), copy_answers(answers));
    let result = state_machine(&mut s, &mut ev, file);
    let mut served = false;
    match &result {
        Err(Stop::Need(request)) => {
            match crate::wildcard::answer(request) {
                Some(a) => {
                    let ghost before = answers@;
                    answers.push(a);
                    served = true;
                    assert(answers_view(answers@).take(before.len() as int) =~= answers_view(
                        before,
                    ));
                    assert(answers_view(answers@).last() == a@);
                },
                None => {},
            }
        },
        _ => {},
    }
    Round { result, state: s, ev, served }
}

/// Where the fragments hold a `:` rule and a `::` rule for one target, in
/// either order, what follows the reading of the makefile ends with an
/// error or a request of the evaluation: no target is visited, so no
/// command is handed to the host. The error of the rule line that comes
/// second is the one of `graph::lemma_mixed_colons_are_fatal`.
pub proof fn lemma_mixed_colons_end_the_run(
    state: StateView,
    ev: EvalView,
    a: int,
    b: int,
    target: Seq<char>,
)
    requires
        0 <= a < state.rules.len(),
        0 <= b < state.rules.len(),
        state.rules[a].data is Prereq,
        state.rules[b].data is Prereq,
        !state.rules[a].data->Prereq_0,
        state.rules[b].data->Prereq_0,
        state.rules[a].targets.contains(target),
        state.rules[b].targets.contains(target),
    ensures
        finish(state, ev).result is Err,
        finish(state, ev).state.processed == state.processed,
{
    let s = specials_from(state, ev, 0);
    crate::graph::lemma_specials_keep_rules(state, ev, 0);
    lemma_specials_keep_visited(state, ev, 0);
    if s.result is Ok {
        crate::graph::lemma_mixed_colons_stop_the_build(s.state, s.ev, a, b, target);
    }
}

/// What the special targets say marks no target as visited.
pub proof fn lemma_specials_keep_visited(state: StateView, ev: EvalView, i: int)
    requires
        0 <= i,
    ensures
        specials_from(state, ev, i).state.processed == state.processed,
    decreases state.rules.len() - i,
{
    if i < state.rules.len() {
        let rule = state.rules[i];
        let special = rule.targets.len() > 0 && (rule.targets[0] == ".PHONY"@ || rule.targets[0]
            == ".SILENT"@);
        match rule.data {
            crate::rules::RuleDataView::Prereq(_, text) => {
                if special {
                    let e = crate::meaning::expand(ev, rule.location, text, crate::expand::DEPTH as nat);
                    match e.result {
                        Err(s) => {},
                        Ok(t) => {
                            let next = if rule.targets[0] == ".PHONY"@ {
                                StateView { phony: state.phony + crate::words::words(t), ..state }
                            } else if crate::words::words(t).len() == 0 {
                                StateView { silent: true, ..state }
                            } else {
                                StateView {
                                    silent_targets: state.silent_targets + crate::words::words(t),
                                    ..state
                                }
                            };
                            lemma_specials_keep_visited(next, e.ev, i + 1);
                        },
                    }
                } else {
                    lemma_specials_keep_visited(state, ev, i + 1);
                }
            },
            _ => {
                lemma_specials_keep_visited(state, ev, i + 1);
            },
        }
    }
}

} // verus!
