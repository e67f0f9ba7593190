use imake::fault::{Fatal, FatalKind, Stop};
use imake::graph::build_graph;
use imake::host::{Answer, Evaluator, Request, Stream};
use imake::reader::{process_lines, INCLUDES};
use imake::rules::State;
use imake::run::{advance, state_machine};
use imake::plan::UpdateState;
use imake::sched::{process_target, state_of, Halt};
use imake::store::SymbolTable;
use imake::vars::{Flavor, Origin};
use std::collections::HashMap;

fn text(s: &str) -> Vec<char> {
    s.chars().collect()
}

fn string(t: &Vec<char>) -> String {
    t.iter().collect()
}

/// A host that answers from a table of files and remembers what it ran.
struct World {
    files: HashMap<String, (u64, String)>,
    failing: Vec<String>,
    ran: Vec<String>,
}

impl World {
    fn new(files: &[(&str, u64, &str)]) -> World {
        World {
            files: files.iter().map(|(n, t, c)| (n.to_string(), (*t, c.to_string()))).collect(),
            failing: Vec::new(),
            ran: Vec::new(),
        }
    }

    fn answer(&mut self, request: &Request) -> Answer {
        match request {
            Request::Read { path } => match self.files.get(&string(path)) {
                Some((_, c)) => Answer::Text { text: text(c) },
                None => Answer::Missing,
            },
            Request::Stat { path } => match self.files.get(&string(path)) {
                Some((t, _)) => Answer::Stamp { seconds: *t, nanos: 0 },
                None => Answer::Missing,
            },
            Request::Run { command, .. } => {
                let c = string(command);
                self.ran.push(c.clone());
                let status = if self.failing.contains(&c) { 1 } else { 0 };
                Answer::Output { text: Vec::new(), status }
            }
            Request::Shell { command, .. } => {
                Answer::Output { text: text(&format!("<{}>\n", string(command).trim())), status: 0 }
            }
            _ => Answer::Refused,
        }
    }
}

struct Outcome {
    fatal: Option<Fatal>,
    out: Vec<String>,
    err: Vec<String>,
    ran: Vec<String>,
}

fn vars() -> SymbolTable {
    let mut v = SymbolTable::new();
    v.assign(text("SHELL"), Flavor::Simple, Origin::Default, None, text("/bin/sh"));
    v.assign(text(".SHELLFLAGS"), Flavor::Simple, Origin::Default, None, text("-c"));
    v
}

fn make_with(world: &mut World, state: &State) -> Outcome {
    let mut answers: Vec<Answer> = Vec::new();
    loop {
        let mut s = state.copy();
        let mut ev = Evaluator::new(vars(), answers.iter().map(|a| a.copy()).collect());
        let r = state_machine(&mut s, &mut ev, &text("Makefile"));
        match r {
            Err(Stop::Need(request)) => {
                assert_eq!(ev.host.used(), answers.len());
                answers.push(world.answer(&request));
            }
            other => {
                let mut out = Vec::new();
                let mut err = Vec::new();
                for i in 0..ev.host.written() {
                    let m = ev.host.line(i);
                    if m.stream == Stream::Output {
                        out.push(string(&m.text));
                    } else {
                        err.push(string(&m.text));
                    }
                }
                return Outcome {
                    fatal: match other {
                        Err(Stop::Fatal(f)) => Some(f),
                        _ => None,
                    },
                    out,
                    err,
                    ran: world.ran.clone(),
                };
            }
        }
    }
}

fn state(targets: &[&str]) -> State {
    let mut s = State::default();
    s.basename = text("make");
    s.targets_to_make = targets.iter().map(|t| text(t)).collect();
    s
}

fn make(makefile: &str, files: &[(&str, u64, &str)], targets: &[&str]) -> Outcome {
    let mut all: Vec<(&str, u64, &str)> = files.to_vec();
    all.push(("Makefile", 1, makefile));
    let mut world = World::new(&all);
    make_with(&mut world, &state(targets))
}

const COMPILE: &str = ".PHONY: all\nall: a.o\na.o: a.c ; @echo cc $< -o $@\n";

#[test]
fn a_missing_target_is_made_once() {
    let o = make(COMPILE, &[("a.c", 5, "")], &[]);
    assert!(o.fatal.is_none());
    assert_eq!(o.ran, vec!["echo cc a.c -o a.o"]);
    assert!(o.out.is_empty());
    assert!(o.err.is_empty());
}

#[test]
fn a_target_that_is_newer_is_up_to_date() {
    let o = make(COMPILE, &[("a.c", 5, ""), ("a.o", 6, "")], &[]);
    assert!(o.fatal.is_none());
    assert!(o.ran.is_empty());
    assert_eq!(o.err, vec!["make: 'all' is up to date."]);
    let o = make(COMPILE, &[("a.c", 7, ""), ("a.o", 6, "")], &[]);
    assert_eq!(o.ran, vec!["echo cc a.c -o a.o"]);
}

#[test]
fn a_target_without_recipes_has_nothing_to_be_done() {
    let o = make("all: a.c\n", &[("a.c", 5, ""), ("all", 6, "")], &[]);
    assert!(o.fatal.is_none());
    assert_eq!(o.err, vec!["make: Nothing to be done for 'all'."]);
}

#[test]
fn always_make_makes_what_is_up_to_date() {
    let mut world = World::new(&[("Makefile", 1, COMPILE), ("a.c", 5, ""), ("a.o", 6, "")]);
    let mut s = state(&[]);
    s.always_make = true;
    let o = make_with(&mut world, &s);
    assert_eq!(o.ran, vec!["echo cc a.c -o a.o"]);
}

#[test]
fn commands_are_written_unless_silenced() {
    let src = "all:\n\techo one\n\t@echo two\n\t-@echo three\n\t  \n";
    let o = make(src, &[], &[]);
    assert_eq!(o.ran, vec!["echo one", "echo two", "echo three"]);
    assert_eq!(o.out, vec!["echo one"]);
    let o = make(&format!(".SILENT: all\n{}", src), &[], &["all"]);
    assert!(o.out.is_empty());
    assert_eq!(o.ran.len(), 3);
    let o = make(&format!(".SILENT:\n{}", src), &[], &["all"]);
    assert!(o.out.is_empty());
    let mut world = World::new(&[("Makefile", 1, src)]);
    let mut s = state(&[]);
    s.dryrun = true;
    let o = make_with(&mut world, &s);
    assert!(o.ran.is_empty());
    assert_eq!(o.out, vec!["echo one", "echo two", "echo three"]);
}

#[test]
fn a_failed_command_stops_the_run() {
    let src = "all: dep\n\techo all\ndep:\n\tfalse\n\techo after\n";
    let mut world = World::new(&[("Makefile", 1, src)]);
    world.failing.push("false".to_string());
    let o = make_with(&mut world, &state(&[]));
    let f = o.fatal.unwrap();
    assert_eq!(f.kind, FatalKind::CommandFailed);
    assert_eq!(f.exit_code(), 2);
    assert_eq!(f.message(), "*** [Makefile:4: dep] Error 1");
    assert_eq!(f.report("make"), "make: *** [Makefile:4: dep] Error 1");
    assert_eq!(o.ran, vec!["false"]);
}

#[test]
fn a_failed_command_may_be_ignored() {
    let src = "all:\n\t-false\n\techo after\n";
    let mut world = World::new(&[("Makefile", 1, src)]);
    world.failing.push("false".to_string());
    let o = make_with(&mut world, &state(&[]));
    assert!(o.fatal.is_none());
    assert_eq!(o.ran, vec!["false", "echo after"]);
    assert_eq!(o.err, vec!["make: [Makefile:2: all] Error 1 (ignored)"]);

    let src = "all:\n\tfalse\n\techo after\n";
    let mut world = World::new(&[("Makefile", 1, src)]);
    world.failing.push("false".to_string());
    let mut s = state(&[]);
    s.ignore_errors = true;
    let o = make_with(&mut world, &s);
    assert!(o.fatal.is_none());
    assert_eq!(o.err, vec!["make: [Makefile:2: all] Error 1 (ignored)"]);

    let mut world = World::new(&[("Makefile", 1, src)]);
    world.failing.push("false".to_string());
    let mut s = state(&[]);
    s.keep_going = true;
    let o = make_with(&mut world, &s);
    assert!(o.fatal.is_none());
    assert_eq!(o.ran, vec!["false", "echo after"]);
    assert_eq!(o.err, vec!["make: *** [Makefile:2: all] Error 1"]);
}

#[test]
fn no_rule_to_make_a_target() {
    let o = make("all: missing\n", &[], &[]);
    let f = o.fatal.unwrap();
    assert_eq!(f.kind, FatalKind::NoRuleNeeded);
    assert_eq!(f.exit_code(), 130);
    assert_eq!(f.message(), "*** No rule to make target 'missing', needed by 'all'. Stop");
    let o = make("all:\n", &[], &["other"]);
    let f = o.fatal.unwrap();
    assert_eq!(f.kind, FatalKind::NoRule);
    assert_eq!(f.exit_code(), 130);
    assert_eq!(f.message(), "*** No rule to make target 'other'.  Stop.");
}

#[test]
fn single_and_double_colon_do_not_mix() {
    let o = make("a: b\na:: c\n", &[], &[]);
    let f = o.fatal.unwrap();
    assert_eq!(f.kind, FatalKind::MixedColons);
    assert_eq!(f.message(), "Makefile:2: *** target file 'a' has both : and :: entries.  Stop");
    assert_eq!(
        f.report("make"),
        "Makefile:2: *** target file 'a' has both : and :: entries.  Stop"
    );
    let o = make("a:: b\na: c\n", &[], &[]);
    assert_eq!(o.fatal.unwrap().kind, FatalKind::MixedColons);
}

#[test]
fn double_colon_rules_run_both_bodies() {
    let o = make("a::\n\techo one\na::\n\techo two\n", &[], &[]);
    assert!(o.fatal.is_none());
    assert_eq!(o.ran, vec!["echo one", "echo two"]);
    assert!(o.err.is_empty());
}

#[test]
fn the_last_body_of_a_single_colon_target_replaces_the_first() {
    let o = make("a: x\n\techo one\n\techo more\na: y\n\techo two\nx y:\n", &[], &[]);
    assert!(o.fatal.is_none());
    assert_eq!(o.ran, vec!["echo two"]);
    assert_eq!(o.err, vec!["Makefile:5: warning: overriding recipe for target 'a'"]);
}

#[test]
fn automatic_variables() {
    let src = "out: old new gone\n\techo $@ $< [$?]\nold new gone:\n";
    let o = make(src, &[("out", 5, ""), ("old", 4, ""), ("new", 6, "")], &[]);
    assert_eq!(o.ran, vec!["echo out old [new gone]"]);
    let src = "out: old new\n\techo $@ $< [$?]\n";
    let o = make(src, &[("out", 5, ""), ("old", 4, ""), ("new", 6, "")], &[]);
    assert_eq!(o.ran, vec!["echo out old [new]"]);
}

#[test]
fn prerequisites_are_expanded_when_the_graph_is_built() {
    let src = "all: $(DEPS)\n\techo $<\nDEPS := late\nlate:\n\techo late\n";
    let o = make(src, &[], &[]);
    assert_eq!(o.ran, vec!["echo late", "echo late"]);
}

#[test]
fn variables_for_one_target() {
    let src = "CFLAGS := -O2\nall: a b\na: CFLAGS := -g\na:\n\techo a $(CFLAGS)\nb:\n\techo b $(CFLAGS)\n";
    let o = make(src, &[], &[]);
    assert_eq!(o.ran, vec!["echo a -g", "echo b -O2"]);
}

#[test]
fn default_targets() {
    let o = make(".x:\n\techo dot\nfirst:\n\techo first\nsecond:\n\techo second\n", &[], &[]);
    assert_eq!(o.ran, vec!["echo first"]);
    let o = make("first:\n\techo first\nsecond:\n\techo second\n.DEFAULT: second\n", &[], &[]);
    assert_eq!(o.ran, vec!["echo second"]);
    let o = make("first:\n\techo first\nsecond:\n\techo second\n", &[], &["second", "first"]);
    assert_eq!(o.ran, vec!["echo second", "echo first"]);
}

#[test]
fn a_cycle_is_dropped_with_a_warning() {
    let o = make("a: b\n\techo a\nb: a\n\techo b\n", &[], &[]);
    assert!(o.fatal.is_none());
    assert_eq!(o.ran, vec!["echo b", "echo a"]);
    assert_eq!(o.err, vec!["make: Circular b <- a dependency dropped."]);
}

#[test]
fn shell_in_a_recipe_asks_the_host() {
    let o = make("all:\n\techo $(shell date)\n", &[], &[]);
    assert_eq!(o.ran, vec!["echo <date>"]);
}

#[test]
fn a_target_is_visited_once() {
    let o = make("all: a b\na: c\nb: c\nc:\n\techo c\n", &[], &["all", "c", "all"]);
    assert!(o.fatal.is_none());
    assert_eq!(o.ran, vec!["echo c"]);
}

#[test]
fn a_second_visit_gives_no_commands() {
    let mut state = state(&[]);
    let mut ev = Evaluator::new(vars(), Vec::new());
    let src = "all:\n\techo once\n";
    assert!(process_lines(&mut state, &mut ev, &text("Makefile"), &text(src), INCLUDES).is_ok());
    let g = build_graph(&state, &mut ev).ok().unwrap();
    assert_eq!(g.len(), 1);
    let mut answers: Vec<Answer> = Vec::new();
    let mut requests = 0;
    let (state, ev) = loop {
        let mut s = state.copy();
        let mut e = Evaluator::new(ev.vars.copy(), answers.iter().map(|a| a.copy()).collect());
        match process_target(&g, &mut s, &mut e, &text("all"), &Vec::new(), 2) {
            Err(Halt::Stop(Stop::Need(Request::Stat { .. }))) => answers.push(Answer::Missing),
            Err(Halt::Stop(Stop::Need(Request::Run { command, .. }))) => {
                assert_eq!(string(&command), "echo once");
                requests += 1;
                answers.push(Answer::Output { text: Vec::new(), status: 0 });
            }
            Ok(Some(m)) => {
                assert!(m.done && m.recipes);
                break (s, e);
            }
            _ => panic!("unexpected"),
        }
    };
    assert_eq!(requests, 1);
    assert_eq!(state_of(&state, &text("all")), UpdateState::Updated);
    assert_eq!(state_of(&state, &text("other")), UpdateState::Unvisited);
    let mut s = state.copy();
    let mut e = Evaluator::new(ev.vars.copy(), Vec::new());
    match process_target(&g, &mut s, &mut e, &text("all"), &Vec::new(), 2) {
        Ok(Some(m)) => assert!(!m.done && !m.recipes),
        _ => panic!("the second visit asked for something"),
    }
    assert_eq!(e.host.used(), 0);
    assert_eq!(e.host.written(), 0);
}

#[test]
fn a_makefile_that_is_not_there_is_an_error() {
    let mut world = World::new(&[]);
    let o = make_with(&mut world, &state(&[]));
    assert_eq!(o.fatal.unwrap().kind, FatalKind::MissingInclude);
}

#[test]
fn an_answer_of_the_wrong_kind_is_an_error() {
    let mut s = state(&[]);
    let mut ev = Evaluator::new(vars(), vec![Answer::Stamp { seconds: 1, nanos: 0 }]);
    match state_machine(&mut s, &mut ev, &text("Makefile")) {
        Err(Stop::Fatal(f)) => assert_eq!(f.kind, FatalKind::BadAnswer),
        _ => panic!("expected an error"),
    }
}

#[test]
fn a_round_serves_wildcards_itself() {
    let file = "FOUND := $(wildcard /dev/nul?)\nall:\n\techo $(FOUND)\n";
    let mut answers: Vec<Answer> = Vec::new();
    let mut rounds = 0;
    let mut ran = Vec::new();
    loop {
        rounds += 1;
        let before = answers.len();
        let round = advance(&state(&[]), &vars(), &text("Makefile"), &mut answers);
        match round.result {
            Ok(()) => break,
            Err(Stop::Need(Request::Wildcard { pattern })) => {
                assert!(round.served);
                assert_eq!(string(&pattern), "/dev/nul?");
                assert_eq!(answers.len(), before + 1);
                assert!(matches!(&answers[before], Answer::Paths { paths } if paths == &vec![text("/dev/null")]));
            }
            Err(Stop::Need(request)) => {
                assert!(!round.served);
                assert_eq!(answers.len(), before);
                answers.push(match request {
                    Request::Read { .. } => Answer::Text { text: text(file) },
                    Request::Stat { .. } => Answer::Missing,
                    Request::Run { command, .. } => {
                        ran.push(string(&command));
                        Answer::Output { text: Vec::new(), status: 0 }
                    }
                    _ => panic!("unexpected request"),
                });
            }
            Err(Stop::Fatal(f)) => panic!("fatal: {}", f.message()),
        }
    }
    assert_eq!(ran, vec!["echo /dev/null"]);
    assert_eq!(rounds, 5);
}
