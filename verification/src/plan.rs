//! What making a target means: which targets are visited, which commands
//! the host is asked to run, and what is written, as functions of the
//! graph, the state and the answers of the host.

use crate::expand::DEPTH;
use crate::fault::{stop_at, FatalKind, FatalView, StopView};
use crate::graph::{NodeView, RecipeView, ScopedView};
use crate::host::{AnswerView, EvalView, RequestView, Stream};
use crate::meaning::{expand, read};
use crate::number::{decimal, signed_decimal};
use crate::rules::{StateView, VarOp};
use crate::store::StoreView;
use crate::text::trim;
use crate::vars::{Flavor, LocationView, Origin, VarView};
use crate::words::join_single;
use vstd::prelude::*;

verus! {

/// What a visit of a target did.
#[derive(Clone, Copy, Debug, PartialEq, Eq, Structural)]
pub struct Made {
    /// A command was handed to the host, for the target or for one that
    /// it needs.
    pub done: bool,
    /// The target has a recipe, or one that it needs has.
    pub recipes: bool,
}

/// How far the scheduler is with a target.
#[derive(Clone, Copy, Debug, PartialEq, Eq, Structural)]
pub enum UpdateState {
    Unvisited,
    InProgress,
    Updated,
    Failed,
}

/// How far the scheduler is with the target `name`.
pub open spec fn update_state(state: StateView, name: Seq<char>) -> UpdateState {
    if !state.processed.contains(name) {
        UpdateState::Unvisited
    } else if state.active.contains(name) {
        UpdateState::InProgress
    } else if state.failed.contains(name) {
        UpdateState::Failed
    } else {
        UpdateState::Updated
    }
}

/// Why the scheduler halts before its end.
pub enum HaltView {
    /// An evaluation stopped: it needs the host, or it met an error.
    Stop(StopView),
    /// Targets need one another more deeply than the scheduler was told
    /// to follow them.
    Depth,
}

/// What a visit gave, or why it halted, and the state after.
pub struct VisitStep {
    pub result: Result<Option<Made>, HaltView>,
    pub state: StateView,
    pub ev: EvalView,
}

pub struct MadeStep {
    pub result: Result<Made, HaltView>,
    pub state: StateView,
    pub ev: EvalView,
}

/// The cell of an automatic variable.
pub open spec fn auto_cell(name: Seq<char>, value: Seq<char>) -> VarView {
    VarView {
        flavor: Flavor::Simple,
        origin: Origin::Automatic,
        loc: None,
        name,
        value,
        exported: false,
        unexported: false,
        ex_exported: false,
    }
}

/// The cell of a variable for one target: simple if it was assigned with
/// `:=` or `::=`, else recursive.
pub open spec fn scoped_cell(v: ScopedView) -> VarView {
    VarView {
        flavor: if v.op == VarOp::Store(true) {
            Flavor::Simple
        } else {
            Flavor::Recursive
        },
        origin: Origin::File,
        loc: None,
        name: v.name,
        value: trim(v.text),
        exported: false,
        unexported: false,
        ex_exported: false,
    }
}

pub open spec fn bind_scoped(vars: StoreView, vs: Seq<ScopedView>, i: int) -> StoreView
    decreases vs.len() - i,
{
    if i < 0 || i >= vs.len() {
        vars
    } else {
        bind_scoped(vars.bind(scoped_cell(vs[i])), vs, i + 1)
    }
}

/// The frame of a rule: `@` is the target, `<` the first prerequisite, and
/// the rule's own variables follow.
pub open spec fn rule_frame(vars: StoreView, node: NodeView) -> StoreView {
    bind_scoped(
        vars.push_frame(None).bind(auto_cell(seq!['@'], node.name)).bind(
            auto_cell(
                seq!['<'],
                if node.prerequisites.len() > 0 {
                    node.prerequisites[0]
                } else {
                    Seq::empty()
                },
            ),
        ),
        node.vars,
        0,
    )
}

/// Whether the first time is later than the second.
pub open spec fn later(s1: u64, n1: u32, s2: u64, n2: u32) -> bool {
    s1 > s2 || (s1 == s2 && n1 > n2)
}

pub struct ListStep {
    pub result: Result<Seq<Seq<char>>, StopView>,
    pub ev: EvalView,
}

/// The prerequisites from number `j` on that are out of date against a
/// target that was last modified at `s`, `n`: those that are phony, those
/// that are no files, and those that were modified later.
pub open spec fn newer_from(
    state: StateView,
    ev: EvalView,
    loc: LocationView,
    prereqs: Seq<Seq<char>>,
    j: int,
    s: u64,
    n: u32,
    acc: Seq<Seq<char>>,
) -> ListStep
    decreases prereqs.len() - j,
{
    if j < 0 || j >= prereqs.len() {
        ListStep { result: Ok(acc), ev }
    } else if state.phony.contains(prereqs[j]) {
        newer_from(state, ev, loc, prereqs, j + 1, s, n, acc.push(prereqs[j]))
    } else {
        match ev.host.next() {
            None => ListStep {
                result: Err(StopView::Need(RequestView::Stat { path: prereqs[j] })),
                ev,
            },
            Some(a) => {
                let ev1 = EvalView { host: ev.host.advance(), ..ev };
                match a {
                    AnswerView::Missing => newer_from(
                        state,
                        ev1,
                        loc,
                        prereqs,
                        j + 1,
                        s,
                        n,
                        acc.push(prereqs[j]),
                    ),
                    AnswerView::Stamp { seconds, nanos } => newer_from(
                        state,
                        ev1,
                        loc,
                        prereqs,
                        j + 1,
                        s,
                        n,
                        if later(seconds, nanos, s, n) {
                            acc.push(prereqs[j])
                        } else {
                            acc
                        },
                    ),
                    _ => ListStep { result: Err(stop_at(FatalKind::BadAnswer, loc)), ev: ev1 },
                }
            },
        }
    }
}

/// Whether the target of a rule must be made, and the prerequisites that
/// are out of date. It is made always with `always_make`, if it is phony,
/// and if it is no file: then all its prerequisites count as out of date.
/// Else it is made if a prerequisite is out of date, as `newer_from` says.
pub struct Decision {
    pub needs: bool,
    pub newer: Seq<Seq<char>>,
}

pub struct DecisionStep {
    pub result: Result<Decision, StopView>,
    pub ev: EvalView,
}

pub open spec fn place_of(node: NodeView) -> LocationView {
    LocationView { file_name: node.name, line: 0 }
}

pub open spec fn decide(state: StateView, ev: EvalView, node: NodeView) -> DecisionStep {
    if state.always_make || node.phony {
        DecisionStep { result: Ok(Decision { needs: true, newer: node.prerequisites }), ev }
    } else {
        match ev.host.next() {
            None => DecisionStep {
                result: Err(StopView::Need(RequestView::Stat { path: node.name })),
                ev,
            },
            Some(a) => {
                let ev1 = EvalView { host: ev.host.advance(), ..ev };
                match a {
                    AnswerView::Missing => DecisionStep {
                        result: Ok(Decision { needs: true, newer: node.prerequisites }),
                        ev: ev1,
                    },
                    AnswerView::Stamp { seconds, nanos } => {
                        let r = newer_from(
                            state,
                            ev1,
                            place_of(node),
                            node.prerequisites,
                            0,
                            seconds,
                            nanos,
                            Seq::empty(),
                        );
                        match r.result {
                            Err(e) => DecisionStep { result: Err(e), ev: r.ev },
                            Ok(l) => DecisionStep {
                                result: Ok(Decision { needs: l.len() > 0, newer: l }),
                                ev: r.ev,
                            },
                        }
                    },
                    _ => DecisionStep {
                        result: Err(stop_at(FatalKind::BadAnswer, place_of(node))),
                        ev: ev1,
                    },
                }
            },
        }
    }
}

pub struct CommandsStep {
    pub result: Result<Seq<RecipeView>, StopView>,
    pub ev: EvalView,
}

/// The commands of a recipe from line number `i` on: the value of each
/// line, at the place of the line, without the white space at its ends;
/// a line whose value is empty gives no command.
pub open spec fn commands_from(
    ev: EvalView,
    recipes: Seq<RecipeView>,
    i: int,
    acc: Seq<RecipeView>,
) -> CommandsStep
    decreases recipes.len() - i,
{
    if i < 0 || i >= recipes.len() {
        CommandsStep { result: Ok(acc), ev }
    } else {
        let e = expand(ev, recipes[i].loc, recipes[i].text, DEPTH as nat);
        match e.result {
            Err(s) => CommandsStep { result: Err(s), ev: e.ev },
            Ok(t) => commands_from(
                e.ev,
                recipes,
                i + 1,
                if trim(t).len() > 0 {
                    acc.push(RecipeView { loc: recipes[i].loc, text: trim(t) })
                } else {
                    acc
                },
            ),
        }
    }
}

/// Where the marks `@` and `-` at the start of a command end.
pub open spec fn marks_end(cmd: Seq<char>, i: int) -> int
    decreases cmd.len() - i,
{
    if 0 <= i < cmd.len() && (cmd[i] == '@' || cmd[i] == '-') {
        marks_end(cmd, i + 1)
    } else {
        i
    }
}

/// The line that reports a command that failed.
pub open spec fn error_line(
    state: StateView,
    loc: LocationView,
    target: Seq<char>,
    status: i32,
    ignored: bool,
) -> Seq<char> {
    state.basename + ": "@ + (if ignored {
        Seq::empty()
    } else {
        "*** "@
    }) + "["@ + loc.file_name + seq![':'] + decimal(loc.line as nat) + ": "@ + target + "] Error "@
        + signed_decimal(status as int) + (if ignored {
        " (ignored)"@
    } else {
        Seq::empty()
    })
}

pub struct RunStep {
    pub result: Result<bool, StopView>,
    pub ev: EvalView,
}

/// What one command does. The marks at its start go: `@` keeps it from
/// being written, `-` lets it fail. It is written unless `@`, a silent
/// target or a silent run keeps it from that, and always in a dry run. In
/// a dry run nothing more happens; else the host runs it under the value
/// of `SHELL` with the value of `.SHELLFLAGS`. A status other than zero
/// is reported; the result is `true` if the command failed and the run
/// keeps going; it is an error unless the command may fail, errors are
/// ignored or the run keeps going.
pub open spec fn run(
    state: StateView,
    ev: EvalView,
    target: Seq<char>,
    silent: bool,
    c: RecipeView,
) -> RunStep {
    let e = marks_end(c.text, 0);
    let marks = c.text.take(e);
    let body = c.text.skip(e);
    let suppressed = marks.contains('@') || silent || state.silent;
    let ev1 = if !suppressed || state.dryrun {
        EvalView { host: ev.host.say(Stream::Output, body), ..ev }
    } else {
        ev
    };
    if state.dryrun {
        RunStep { result: Ok(false), ev: ev1 }
    } else {
        let sh = read(ev1, c.loc, "SHELL"@, DEPTH as nat);
        match sh.result {
            Err(x) => RunStep { result: Err(x), ev: sh.ev },
            Ok(shell) => {
                let fl = read(sh.ev, c.loc, ".SHELLFLAGS"@, DEPTH as nat);
                match fl.result {
                    Err(x) => RunStep { result: Err(x), ev: fl.ev },
                    Ok(flags) => match fl.ev.host.next() {
                        None => RunStep {
                            result: Err(
                                StopView::Need(RequestView::Run { shell, flags, command: body }),
                            ),
                            ev: fl.ev,
                        },
                        Some(a) => {
                            let ev2 = EvalView { host: fl.ev.host.advance(), ..fl.ev };
                            match a {
                                AnswerView::Output { text, status } => if status == 0 {
                                    RunStep { result: Ok(false), ev: ev2 }
                                } else if marks.contains('-') || state.ignore_errors {
                                    RunStep {
                                        result: Ok(false),
                                        ev: EvalView {
                                            host: ev2.host.say(
                                                Stream::Error,
                                                error_line(state, c.loc, target, status, true),
                                            ),
                                            ..ev2
                                        },
                                    }
                                } else if state.keep_going {
                                    RunStep {
                                        result: Ok(true),
                                        ev: EvalView {
                                            host: ev2.host.say(
                                                Stream::Error,
                                                error_line(state, c.loc, target, status, false),
                                            ),
                                            ..ev2
                                        },
                                    }
                                } else {
                                    RunStep {
                                        result: Err(
                                            StopView::Fatal(
                                                FatalView {
                                                    kind: FatalKind::CommandFailed,
                                                    loc: c.loc,
                                                    text: target,
                                                    other: signed_decimal(status as int),
                                                    number: 0,
                                                },
                                            ),
                                        ),
                                        ev: ev2,
                                    }
                                },
                                _ => RunStep {
                                    result: Err(stop_at(FatalKind::BadAnswer, c.loc)),
                                    ev: ev2,
                                },
                            }
                        },
                    },
                }
            },
        }
    }
}

/// What the commands from number `i` on do, in their order.
pub open spec fn run_from(
    state: StateView,
    ev: EvalView,
    target: Seq<char>,
    silent: bool,
    cmds: Seq<RecipeView>,
    i: int,
    failed: bool,
) -> RunStep
    decreases cmds.len() - i,
{
    if i < 0 || i >= cmds.len() {
        RunStep { result: Ok(failed), ev }
    } else {
        let r = run(state, ev, target, silent, cmds[i]);
        match r.result {
            Err(e) => r,
            Ok(f) => run_from(state, r.ev, target, silent, cmds, i + 1, failed || f),
        }
    }
}

/// What making a rule does once its prerequisites were visited, which gave
/// `pre`: whether it must be made is decided; `?` is bound to the
/// prerequisites that are out of date; if it must be made, the lines of
/// its recipe are expanded and the commands they give are run.
pub open spec fn remake(state: StateView, ev: EvalView, node: NodeView, pre: Made) -> MadeStep {
    let d = decide(state, ev, node);
    match d.result {
        Err(e) => MadeStep { result: Err(HaltView::Stop(e)), state, ev: d.ev },
        Ok(dec) => {
            let ev1 = EvalView {
                vars: d.ev.vars.bind(auto_cell(seq!['?'], join_single(dec.newer))),
                ..d.ev
            };
            if dec.needs && node.recipes.len() > 0 {
                let c = commands_from(ev1, node.recipes, 0, Seq::empty());
                match c.result {
                    Err(e) => MadeStep { result: Err(HaltView::Stop(e)), state, ev: c.ev },
                    Ok(cmds) => {
                        let r = run_from(state, c.ev, node.name, node.silent, cmds, 0, false);
                        match r.result {
                            Err(e) => MadeStep {
                                result: Err(HaltView::Stop(e)),
                                state,
                                ev: r.ev,
                            },
                            Ok(failed) => MadeStep {
                                result: Ok(Made { done: pre.done || cmds.len() > 0, recipes: true }),
                                state: if failed {
                                    StateView { failed: state.failed.push(node.name), ..state }
                                } else {
                                    state
                                },
                                ev: r.ev,
                            },
                        }
                    },
                }
            } else {
                MadeStep {
                    result: Ok(
                        Made { done: pre.done, recipes: pre.recipes || node.recipes.len() > 0 },
                    ),
                    state,
                    ev: ev1,
                }
            }
        },
    }
}

/// The state after the visit of `name` has begun: the target counts as
/// visited and as being made.
pub open spec fn enter(state: StateView, name: Seq<char>) -> StateView {
    StateView {
        processed: state.processed.push(name),
        active: state.active.push(name),
        ..state
    }
}

/// The state after the innermost visit has ended.
pub open spec fn leave(state: StateView) -> StateView {
    if state.active.len() > 0 {
        StateView { active: state.active.drop_last(), ..state }
    } else {
        state
    }
}

/// The line that warns of a target that needs itself.
pub open spec fn circular_line(state: StateView, parent: Seq<char>, name: Seq<char>) -> Seq<char> {
    state.basename + ": Circular "@ + parent + " <- "@ + name + " dependency dropped."@
}

/// What visiting the target `name` does, for `parent`, which needs it, where
/// targets that need one another are followed as far as `fuel` allows:
/// - a target that was visited is left alone; if it is being made, the
///   graph has a cycle, of which a line warns;
/// - else the target counts as visited and as being made;
/// - a target without a node gives nothing to do if it is phony or a
///   file; else the result is `None`: nothing says how to make it;
/// - each node of the target is made, in the order of the rules.
pub open spec fn visit(
    g: Seq<NodeView>,
    state: StateView,
    ev: EvalView,
    name: Seq<char>,
    parent: Seq<char>,
    fuel: nat,
) -> VisitStep
    decreases fuel, 3int, 0int,
{
    if state.processed.contains(name) {
        VisitStep {
            result: Ok(Some(Made { done: false, recipes: false })),
            state,
            ev: if state.active.contains(name) {
                EvalView {
                    host: ev.host.say(Stream::Error, circular_line(state, parent, name)),
                    ..ev
                }
            } else {
                ev
            },
        }
    } else if fuel == 0 {
        VisitStep { result: Err(HaltView::Depth), state, ev }
    } else {
        let r = visit_nodes(g, enter(state, name), ev, name, 0, None, (fuel - 1) as nat);
        match r.result {
            Err(e) => r,
            Ok(Some(m)) => VisitStep { result: Ok(Some(m)), state: leave(r.state), ev: r.ev },
            Ok(None) => visit_source(leave(r.state), r.ev, name),
        }
    }
}

/// What visiting a target without a node does: nothing if it is phony;
/// else the host says whether it is a file.
pub open spec fn visit_source(state: StateView, ev: EvalView, name: Seq<char>) -> VisitStep {
    if state.phony.contains(name) {
        VisitStep { result: Ok(Some(Made { done: false, recipes: false })), state, ev }
    } else {
        match ev.host.next() {
            None => VisitStep {
                result: Err(HaltView::Stop(StopView::Need(RequestView::Stat { path: name }))),
                state,
                ev,
            },
            Some(a) => {
                let ev1 = EvalView { host: ev.host.advance(), ..ev };
                match a {
                    AnswerView::Missing => VisitStep { result: Ok(None), state, ev: ev1 },
                    AnswerView::Stamp { seconds, nanos } => VisitStep {
                        result: Ok(Some(Made { done: false, recipes: false })),
                        state,
                        ev: ev1,
                    },
                    _ => VisitStep {
                        result: Err(
                            HaltView::Stop(
                                stop_at(
                                    FatalKind::BadAnswer,
                                    LocationView { file_name: name, line: 0 },
                                ),
                            ),
                        ),
                        state,
                        ev: ev1,
                    },
                }
            },
        }
    }
}

pub open spec fn join_made(a: Option<Made>, b: Made) -> Option<Made> {
    match a {
        Some(m) => Some(Made { done: m.done || b.done, recipes: m.recipes || b.recipes }),
        None => Some(b),
    }
}

/// What making the nodes of `name` from number `k` on does; `None` if
/// there is no such node.
pub open spec fn visit_nodes(
    g: Seq<NodeView>,
    state: StateView,
    ev: EvalView,
    name: Seq<char>,
    k: int,
    acc: Option<Made>,
    fuel: nat,
) -> VisitStep
    decreases fuel, 2int, g.len() - k,
{
    if k < 0 || k >= g.len() {
        VisitStep { result: Ok(acc), state, ev }
    } else if g[k].name != name {
        visit_nodes(g, state, ev, name, k + 1, acc, fuel)
    } else {
        let r = make(g, state, ev, g[k], fuel);
        match r.result {
            Err(e) => VisitStep { result: Err(e), state: r.state, ev: r.ev },
            Ok(m) => visit_nodes(g, r.state, r.ev, name, k + 1, join_made(acc, m), fuel),
        }
    }
}

/// What making a rule does: in a frame of its own its prerequisites are
/// visited, and then it is made as `remake` says.
pub open spec fn make(
    g: Seq<NodeView>,
    state: StateView,
    ev: EvalView,
    node: NodeView,
    fuel: nat,
) -> MadeStep
    decreases fuel, 1int, 0int,
{
    let framed = EvalView { vars: rule_frame(ev.vars, node), ..ev };
    let p = visit_prereqs(g, state, framed, node, 0, Made { done: false, recipes: false }, fuel);
    match p.result {
        Err(e) => p,
        Ok(pre) => {
            let r = remake(p.state, p.ev, node, pre);
            match r.result {
                Err(e) => r,
                Ok(m) => MadeStep {
                    result: Ok(m),
                    state: r.state,
                    ev: EvalView { vars: r.ev.vars.pop_frame(), ..r.ev },
                },
            }
        },
    }
}

/// What visiting the prerequisites of a rule from number `j` on does. A
/// prerequisite that nothing says how to make is an error.
pub open spec fn visit_prereqs(
    g: Seq<NodeView>,
    state: StateView,
    ev: EvalView,
    node: NodeView,
    j: int,
    acc: Made,
    fuel: nat,
) -> MadeStep
    decreases fuel, 0int, node.prerequisites.len() - j,
{
    if j < 0 || j >= node.prerequisites.len() {
        MadeStep { result: Ok(acc), state, ev }
    } else if fuel == 0 {
        MadeStep { result: Err(HaltView::Depth), state, ev }
    } else {
        let r = visit(g, state, ev, node.prerequisites[j], node.name, (fuel - 1) as nat);
        match r.result {
            Err(e) => MadeStep { result: Err(e), state: r.state, ev: r.ev },
            Ok(None) => MadeStep {
                result: Err(
                    HaltView::Stop(
                        StopView::Fatal(
                            FatalView {
                                kind: FatalKind::NoRuleNeeded,
                                loc: place_of(node),
                                text: node.prerequisites[j],
                                other: node.name,
                                number: 0,
                            },
                        ),
                    ),
                ),
                state: r.state,
                ev: r.ev,
            },
            Ok(Some(m)) => visit_prereqs(
                g,
                r.state,
                r.ev,
                node,
                j + 1,
                Made { done: acc.done || m.done, recipes: acc.recipes || m.recipes },
                fuel,
            ),
        }
    }
}

} // verus!
