//! What making one rule does, step by step: what its recipe reads as `$@`
//! and `$<`, when it is made, and what a command asks of the host.

use crate::expand::DEPTH;
use crate::fault::StopView;
use crate::graph::{NodeView, RecipeView};
use crate::host::{AnswerView, EvalView, RequestView};
use crate::plan::{
    auto_cell, decide, later, marks_end, newer_from, place_of, rule_frame, run, Decision, RunStep,
};
use crate::rules::StateView;
use crate::store::{find, frame_hit, frames_hit, FrameHit, StoreView};
use crate::vars::{Flavor, VarView};
use vstd::prelude::*;

verus! {

/// The first prerequisite of a rule; nothing if it has none.
pub open spec fn first_prerequisite(node: NodeView) -> Seq<char> {
    if node.prerequisites.len() > 0 {
        node.prerequisites[0]
    } else {
        Seq::empty()
    }
}

/// In the frame of a rule without variables of its own, `@` is the target
/// and `<` is the first prerequisite alone.
pub proof fn lemma_rule_frame_binds(vars: StoreView, node: NodeView)
    requires
        node.vars.len() == 0,
    ensures
        rule_frame(vars, node).get(seq!['@']) == Some(auto_cell(seq!['@'], node.name)),
        rule_frame(vars, node).get(seq!['<']) == Some(
            auto_cell(seq!['<'], first_prerequisite(node)),
        ),
        rule_frame(vars, node).globals == vars.globals,
{
    let at = auto_cell(seq!['@'], node.name);
    let lt = auto_cell(seq!['<'], first_prerequisite(node));
    assert(seq!['@'][0] != seq!['<'][0]);
    let v0 = vars.push_frame(None);
    let v1 = v0.bind(at);
    let v2 = v1.bind(lt);
    reveal_with_fuel(find, 4);
    assert(v0.frames.last().cells =~= Seq::<VarView>::empty());
    assert(v1.frames.last().cells =~= seq![at]);
    assert(v2.frames.last().cells =~= seq![at, lt]);
    assert(rule_frame(vars, node) == v2);
    let n = v2.frames.len() as int;
    assert(frame_hit(v2.frames[n - 1], seq!['@']) == FrameHit::Cell(at));
    assert(frame_hit(v2.frames[n - 1], seq!['<']) == FrameHit::Cell(lt));
    assert(frames_hit(v2.frames, n, seq!['@']) == FrameHit::Cell(at));
    assert(frames_hit(v2.frames, n, seq!['<']) == FrameHit::Cell(lt));
}

/// Where the recipe of a rule without variables of its own is expanded, `@`
/// is the target, `<` the first prerequisite alone, and `?` what was bound
/// to it: the prerequisites that are out of date.
pub proof fn lemma_recipe_frame_binds(vars: StoreView, node: NodeView, newer: Seq<char>)
    requires
        node.vars.len() == 0,
    ensures
        ({
            let v = rule_frame(vars, node).bind(auto_cell(seq!['?'], newer));
            &&& v.get(seq!['@']) == Some(auto_cell(seq!['@'], node.name))
            &&& v.get(seq!['<']) == Some(auto_cell(seq!['<'], first_prerequisite(node)))
            &&& v.get(seq!['?']) == Some(auto_cell(seq!['?'], newer))
        }),
{
    let at = auto_cell(seq!['@'], node.name);
    let lt = auto_cell(seq!['<'], first_prerequisite(node));
    let qm = auto_cell(seq!['?'], newer);
    assert(seq!['@'][0] != seq!['<'][0]);
    assert(seq!['@'][0] != seq!['?'][0]);
    assert(seq!['<'][0] != seq!['?'][0]);
    let v0 = vars.push_frame(None);
    let v1 = v0.bind(at);
    let v2 = v1.bind(lt);
    let v3 = v2.bind(qm);
    reveal_with_fuel(find, 5);
    assert(v0.frames.last().cells =~= Seq::<VarView>::empty());
    assert(v1.frames.last().cells =~= seq![at]);
    assert(v2.frames.last().cells =~= seq![at, lt]);
    assert(rule_frame(vars, node) == v2);
    assert(v3.frames.last().cells =~= seq![at, lt, qm]);
    let n = v3.frames.len() as int;
    assert(frame_hit(v3.frames[n - 1], seq!['@']) == FrameHit::Cell(at));
    assert(frame_hit(v3.frames[n - 1], seq!['<']) == FrameHit::Cell(lt));
    assert(frame_hit(v3.frames[n - 1], seq!['?']) == FrameHit::Cell(qm));
    assert(frames_hit(v3.frames, n, seq!['@']) == FrameHit::Cell(at));
    assert(frames_hit(v3.frames, n, seq!['<']) == FrameHit::Cell(lt));
    assert(frames_hit(v3.frames, n, seq!['?']) == FrameHit::Cell(qm));
}

/// A target that is phony is made, and so is every target with
/// `always_make`: the host is asked nothing, and all prerequisites count as
/// out of date.
pub proof fn lemma_phony_is_made(state: StateView, ev: EvalView, node: NodeView)
    requires
        state.always_make || node.phony,
    ensures
        decide(state, ev, node).result == Ok::<Decision, StopView>(
            Decision { needs: true, newer: node.prerequisites },
        ),
        decide(state, ev, node).ev == ev,
{
}

/// A target that is no file is made.
pub proof fn lemma_missing_target_is_made(state: StateView, ev: EvalView, node: NodeView)
    requires
        !state.always_make,
        !node.phony,
        ev.host.next() == Some(AnswerView::Missing),
    ensures
        decide(state, ev, node).result == Ok::<Decision, StopView>(
            Decision { needs: true, newer: node.prerequisites },
        ),
{
}

/// A target with one prerequisite, both files and neither phony, is made
/// exactly where the prerequisite was modified later than the target.
pub proof fn lemma_one_prerequisite_decides(
    state: StateView,
    ev: EvalView,
    node: NodeView,
    s: u64,
    n: u32,
    s2: u64,
    n2: u32,
)
    requires
        !state.always_make,
        !node.phony,
        node.prerequisites.len() == 1,
        !state.phony.contains(node.prerequisites[0]),
        ev.host.next() == Some(AnswerView::Stamp { seconds: s, nanos: n }),
        ev.host.advance().next() == Some(AnswerView::Stamp { seconds: s2, nanos: n2 }),
    ensures
        decide(state, ev, node).result is Ok,
        decide(state, ev, node).result->Ok_0.needs == later(s2, n2, s, n),
        decide(state, ev, node).result->Ok_0.newer == (if later(s2, n2, s, n) {
            node.prerequisites
        } else {
            Seq::<Seq<char>>::empty()
        }),
{
    let ev1 = EvalView { host: ev.host.advance(), ..ev };
    let ev2 = EvalView { host: ev1.host.advance(), ..ev1 };
    reveal_with_fuel(newer_from, 3);
    let p = node.prerequisites[0];
    let acc = if later(s2, n2, s, n) {
        Seq::<Seq<char>>::empty().push(p)
    } else {
        Seq::<Seq<char>>::empty()
    };
    assert(newer_from(state, ev1, place_of(node), node.prerequisites, 0, s, n, Seq::empty())
        == newer_from(state, ev2, place_of(node), node.prerequisites, 1, s, n, acc));
    assert(Seq::<Seq<char>>::empty().push(p) =~= node.prerequisites);
}

/// A command that begins with the mark `@` is not written, and what the
/// host is asked to run is the command without the mark, under the shell
/// and with the flags that the variables `SHELL` and `.SHELLFLAGS` hold.
pub proof fn lemma_quiet_command_is_asked(
    state: StateView,
    ev: EvalView,
    target: Seq<char>,
    silent: bool,
    c: RecipeView,
    body: Seq<char>,
    shell: VarView,
    flags: VarView,
)
    requires
        c.text == seq!['@'] + body,
        body.len() == 0 || (body[0] != '@' && body[0] != '-'),
        !state.dryrun,
        ev.vars.get("SHELL"@) == Some(shell),
        shell.flavor == Flavor::Simple,
        ev.vars.get(".SHELLFLAGS"@) == Some(flags),
        flags.flavor == Flavor::Simple,
        ev.host.next() is None,
    ensures
        run(state, ev, target, silent, c) == (RunStep {
            result: Err(
                StopView::Need(
                    RequestView::Run { shell: shell.value, flags: flags.value, command: body },
                ),
            ),
            ev,
        }),
{
    reveal_with_fuel(marks_end, 3);
    assert(c.text[0] == '@');
    assert(marks_end(c.text, 0) == 1) by {
        if body.len() > 0 {
            assert(c.text[1] == body[0]);
        }
    }
    assert(c.text.take(1)[0] == '@');
    assert(c.text.take(1).contains('@'));
    assert(c.text.skip(1) =~= body);
    assert(DEPTH > 0);
}

} // verus!
