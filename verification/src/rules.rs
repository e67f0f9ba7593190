//! What the parser gathers: rule fragments, and the state of a run.

use crate::text::{copy_text, copy_texts, text_eq, texts};
use crate::vars::{Location, LocationView};
use vstd::prelude::*;

verus! {

/// The operator of an assignment.
#[derive(Clone, Copy, Debug, PartialEq, Eq, Structural)]
pub enum VarOp {
    /// `=` stores the text as it is; `:=` and `::=`, with `true`, its value.
    Store(bool),
    /// `+=`
    Append,
    /// `?=`
    StoreIfUndef,
    /// `!=`
    Shell,
}

/// What a rule fragment says of its targets.
pub enum RuleData {
    /// Prerequisites, as written; `true` for a rule with `::`.
    Prereq(bool, Vec<char>),
    /// A variable for the targets only: name, operator, text.
    Var(Vec<char>, VarOp, Vec<char>),
    /// One line of the recipe.
    Recipie(Vec<char>),
}

pub enum RuleDataView {
    Prereq(bool, Seq<char>),
    Var(Seq<char>, VarOp, Seq<char>),
    Recipie(Seq<char>),
}

impl View for RuleData {
    type V = RuleDataView;

    open spec fn view(&self) -> RuleDataView {
        match *self {
            RuleData::Prereq(d, t) => RuleDataView::Prereq(d, t@),
            RuleData::Var(n, op, t) => RuleDataView::Var(n@, op, t@),
            RuleData::Recipie(t) => RuleDataView::Recipie(t@),
        }
    }
}

impl RuleData {
    /// A copy.
    pub fn copy(&self) -> (r: RuleData)
        ensures
            r@ == self@,
    {
        match self {
            RuleData::Prereq(d, t) => RuleData::Prereq(*d, copy_text(t)),
            RuleData::Var(n, op, t) => RuleData::Var(copy_text(n), *op, copy_text(t)),
            RuleData::Recipie(t) => RuleData::Recipie(copy_text(t)),
        }
    }
}

/// A rule fragment: what one line says of some targets.
pub struct Rule {
    pub location: Location,
    pub targets: Vec<Vec<char>>,
    pub data: RuleData,
}

pub struct RuleView {
    pub location: LocationView,
    pub targets: Seq<Seq<char>>,
    pub data: RuleDataView,
}

impl View for Rule {
    type V = RuleView;

    open spec fn view(&self) -> RuleView {
        RuleView { location: self.location@, targets: texts(self.targets@), data: self.data@ }
    }
}

impl Rule {
    /// A copy.
    pub fn copy(&self) -> (r: Rule)
        ensures
            r@ == self@,
    {
        Rule {
            location: self.location.copy(),
            targets: copy_texts(&self.targets),
            data: self.data.copy(),
        }
    }
}

pub open spec fn rules_view(rules: Seq<Rule>) -> Seq<RuleView> {
    Seq::new(rules.len(), |i: int| rules[i]@)
}

pub proof fn lemma_rules_push(rules: Seq<Rule>, r: Rule)
    ensures
        rules_view(rules.push(r)) == rules_view(rules).push(r@),
{
    assert(rules_view(rules.push(r)) =~= rules_view(rules).push(r@));
}

/// Whether a list holds a text.
pub fn holds(list: &Vec<Vec<char>>, t: &Vec<char>) -> (r: bool)
    ensures
        r == texts(list@).contains(t@),
{
    let mut i: usize = 0;
    while i < list.len()
        invariant
            i <= list.len(),
            forall|j: int| 0 <= j < i ==> texts(list@)[j] != t@,
        decreases list.len() - i,
    {
        if text_eq(&list[i], t) {
            assert(texts(list@)[i as int] == t@);
            return true;
        }
        i += 1;
    }
    false
}

/// Appends copies of the texts of `more` to `list`.
pub fn extend(list: &mut Vec<Vec<char>>, more: &Vec<Vec<char>>)
    ensures
        texts(final(list)@) == texts(old(list)@) + texts(more@),
{
    let mut i: usize = 0;
    assert(texts(list@) + texts(more@).take(0) =~= texts(list@));
    while i < more.len()
        invariant
            i <= more.len(),
            texts(list@) == texts(old(list)@) + texts(more@).take(i as int),
        decreases more.len() - i,
    {
        let ghost before = list@;
        let t = copy_text(&more[i]);
        list.push(t);
        proof {
            crate::text::lemma_texts_push(before, t);
            assert(texts(old(list)@) + texts(more@).take(i + 1) =~= (texts(old(list)@) + texts(
                more@,
            ).take(i as int)).push(more@[i as int]@));
        }
        i += 1;
    }
    assert(texts(more@).take(more.len() as int) =~= texts(more@));
}

/// The flags of a run, what the parser has gathered, and what was made.
pub struct State {
    /// The name under which the program reports.
    pub basename: Vec<char>,
    pub always_make: bool,
    pub silent: bool,
    pub ignore_errors: bool,
    pub dryrun: bool,
    pub keep_going: bool,
    /// The targets that the command line names.
    pub targets_to_make: Vec<Vec<char>>,
    pub rules: Vec<Rule>,
    /// Whether a recipe line may follow.
    pub in_rule: bool,
    pub phony: Vec<Vec<char>>,
    pub silent_targets: Vec<Vec<char>>,
    /// The targets that the scheduler has visited.
    pub processed: Vec<Vec<char>>,
    /// The targets that the scheduler is making, the innermost last.
    pub active: Vec<Vec<char>>,
    /// The targets of which a command failed.
    pub failed: Vec<Vec<char>>,
}

pub struct StateView {
    pub basename: Seq<char>,
    pub always_make: bool,
    pub silent: bool,
    pub ignore_errors: bool,
    pub dryrun: bool,
    pub keep_going: bool,
    pub targets_to_make: Seq<Seq<char>>,
    pub rules: Seq<RuleView>,
    pub in_rule: bool,
    pub phony: Seq<Seq<char>>,
    pub silent_targets: Seq<Seq<char>>,
    pub processed: Seq<Seq<char>>,
    pub active: Seq<Seq<char>>,
    pub failed: Seq<Seq<char>>,
}

impl View for State {
    type V = StateView;

    open spec fn view(&self) -> StateView {
        StateView {
            basename: self.basename@,
            always_make: self.always_make,
            silent: self.silent,
            ignore_errors: self.ignore_errors,
            dryrun: self.dryrun,
            keep_going: self.keep_going,
            targets_to_make: texts(self.targets_to_make@),
            rules: rules_view(self.rules@),
            in_rule: self.in_rule,
            phony: texts(self.phony@),
            silent_targets: texts(self.silent_targets@),
            processed: texts(self.processed@),
            active: texts(self.active@),
            failed: texts(self.failed@),
        }
    }
}

impl Default for State {
    fn default() -> (r: State)
        ensures
            r@ == empty_state(),
    {
        let r = State {
            basename: Vec::new(),
            always_make: false,
            silent: false,
            ignore_errors: false,
            dryrun: false,
            keep_going: false,
            targets_to_make: Vec::new(),
            rules: Vec::new(),
            in_rule: false,
            phony: Vec::new(),
            silent_targets: Vec::new(),
            processed: Vec::new(),
            active: Vec::new(),
            failed: Vec::new(),
        };
        assert(r@.targets_to_make =~= Seq::empty());
        assert(r@.rules =~= Seq::empty());
        assert(r@.phony =~= Seq::empty());
        assert(r@.silent_targets =~= Seq::empty());
        assert(r@.processed =~= Seq::empty());
        assert(r@.active =~= Seq::empty());
        assert(r@.failed =~= Seq::empty());
        r
    }
}

pub open spec fn empty_state() -> StateView {
    StateView {
        basename: Seq::empty(),
        always_make: false,
        silent: false,
        ignore_errors: false,
        dryrun: false,
        keep_going: false,
        targets_to_make: Seq::empty(),
        rules: Seq::empty(),
        in_rule: false,
        phony: Seq::empty(),
        silent_targets: Seq::empty(),
        processed: Seq::empty(),
        active: Seq::empty(),
        failed: Seq::empty(),
    }
}

impl State {
    /// Adds a rule fragment.
    pub fn push_rule(&mut self, rule: Rule)
        ensures
            final(self)@ == (StateView { rules: old(self)@.rules.push(rule@), ..old(self)@ }),
    {
        proof {
            lemma_rules_push(self.rules@, rule);
        }
        self.rules.push(rule);
    }

    /// A copy.
    pub fn copy(&self) -> (r: State)
        ensures
            r@ == self@,
    {
        let mut rules: Vec<Rule> = Vec::new();
        let mut i: usize = 0;
        while i < self.rules.len()
            invariant
                i <= self.rules.len(),
                rules_view(rules@) == rules_view(self.rules@).take(i as int),
            decreases self.rules.len() - i,
        {
            let ghost before = rules@;
            let r = self.rules[i].copy();
            rules.push(r);
            proof {
                lemma_rules_push(before, r);
                assert(rules_view(self.rules@).take(i + 1) =~= rules_view(self.rules@).take(
                    i as int,
                ).push(self.rules@[i as int]@));
            }
            i += 1;
        }
        assert(rules_view(self.rules@).take(self.rules.len() as int) =~= rules_view(self.rules@));
        State {
            basename: copy_text(&self.basename),
            always_make: self.always_make,
            silent: self.silent,
            ignore_errors: self.ignore_errors,
            dryrun: self.dryrun,
            keep_going: self.keep_going,
            targets_to_make: copy_texts(&self.targets_to_make),
            rules,
            in_rule: self.in_rule,
            phony: copy_texts(&self.phony),
            silent_targets: copy_texts(&self.silent_targets),
            processed: copy_texts(&self.processed),
            active: copy_texts(&self.active),
            failed: copy_texts(&self.failed),
        }
    }
}

} // verus!
