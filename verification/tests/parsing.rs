use imake::directive::{classify_line, Directive};
use imake::expand::expand_simple_ng;
use imake::fault::{FatalKind, Stop};
use imake::host::{Answer, Evaluator, Request};
use imake::parse::parse_line;
use imake::reader::{process_lines, INCLUDES};
use imake::rules::{RuleData, State, VarOp};
use imake::store::SymbolTable;
use imake::vars::{Flavor, Location, Origin, Var};

fn text(s: &str) -> Vec<char> {
    s.chars().collect()
}

fn string(t: &Vec<char>) -> String {
    t.iter().collect()
}

fn fresh() -> (State, Evaluator) {
    (State::default(), Evaluator::new(SymbolTable::new(), Vec::new()))
}

fn line(state: &mut State, ev: &mut Evaluator, src: &str) {
    match parse_line(state, ev, &Location::new("Makefile", 1), &text(src)) {
        Ok(()) => {}
        Err(Stop::Fatal(f)) => panic!("fatal: {}", f.message()),
        Err(Stop::Need(_)) => panic!("needs the host"),
    }
}

fn read(src: &str, answers: Vec<Answer>) -> (Result<(), Stop>, State, Evaluator) {
    let mut state = State::default();
    let mut ev = Evaluator::new(SymbolTable::new(), answers);
    let r = process_lines(&mut state, &mut ev, &text("Makefile"), &text(src), INCLUDES);
    (r, state, ev)
}

fn read_ok(src: &str) -> (State, Evaluator) {
    match read(src, Vec::new()) {
        (Ok(()), state, ev) => (state, ev),
        (Err(Stop::Fatal(f)), _, _) => panic!("fatal: {}", f.message()),
        (Err(Stop::Need(_)), _, _) => panic!("needs the host"),
    }
}

fn read_fatal(src: &str) -> (FatalKind, String) {
    match read(src, Vec::new()) {
        (Err(Stop::Fatal(f)), _, _) => (f.kind, f.message()),
        _ => panic!("expected an error"),
    }
}

fn value(ev: &mut Evaluator, input: &str) -> String {
    match expand_simple_ng(ev, &Location::default(), input) {
        Ok(t) => t,
        _ => panic!("no value"),
    }
}

#[test]
fn parse_line_test() {
    let (mut state, mut ev) = fresh();
    line(&mut state, &mut ev, "test=1");
    line(&mut state, &mut ev, "test+=1");
    line(&mut state, &mut ev, "x: test+=1");
    line(&mut state, &mut ev, "x: a b");
    assert_eq!(value(&mut ev, "$(test)"), "1 1");
    assert_eq!(state.rules.len(), 2);
    assert_eq!(state.rules[0].targets, vec![text("x")]);
    match &state.rules[0].data {
        RuleData::Var(name, op, value) => {
            assert_eq!(string(name), "test");
            assert_eq!(*op, VarOp::Append);
            assert_eq!(string(value), "1");
        }
        _ => panic!("expected a variable"),
    }
    match &state.rules[1].data {
        RuleData::Prereq(double, prereqs) => {
            assert!(!*double);
            assert_eq!(string(prereqs), " a b");
        }
        _ => panic!("expected prerequisites"),
    }
    assert!(state.in_rule);
}

#[test]
fn lines_are_taken_apart() {
    match classify_line(&text("a.o b.o :: a.c ; cc $<")) {
        Directive::Rule { targets, double, prereqs, recipe } => {
            assert_eq!(string(&targets), "a.o b.o ");
            assert!(double);
            assert_eq!(string(&prereqs), " a.c ");
            assert_eq!(recipe.map(|r| string(&r)), Some(" cc $<".to_string()));
        }
        _ => panic!("expected a rule"),
    }
    match classify_line(&text("export CC ::= gcc")) {
        Directive::Assign { targets, name, op, value, export, origin } => {
            assert!(targets.is_none());
            assert_eq!(string(&name), " CC ");
            assert_eq!(op, VarOp::Store(true));
            assert_eq!(string(&value), " gcc");
            assert!(export);
            assert_eq!(origin, Origin::File);
        }
        _ => panic!("expected an assignment"),
    }
    match classify_line(&text("override X != date")) {
        Directive::Assign { op, origin, .. } => {
            assert_eq!(op, VarOp::Shell);
            assert_eq!(origin, Origin::Override);
        }
        _ => panic!("expected an assignment"),
    }
    match classify_line(&text("X$(a:b=c) ?= 1")) {
        Directive::Assign { name, op, .. } => {
            assert_eq!(string(&name), "X$(a:b=c) ");
            assert_eq!(op, VarOp::StoreIfUndef);
        }
        _ => panic!("expected an assignment"),
    }
    assert!(matches!(classify_line(&text("unexport A B")), Directive::Unexport { .. }));
    assert!(matches!(classify_line(&text("export A B")), Directive::Export { .. }));
    assert!(matches!(classify_line(&text("$(info hi)")), Directive::Bare { .. }));
    assert!(matches!(classify_line(&text("exported: x")), Directive::Rule { .. }));
}

#[test]
fn assignments() {
    let (_, mut ev) = read_ok(
        "A = $(B) \nB := 1\nC := $(A)\nB := 2\nD ?= d\nD ?= e\nE = x\nE += $(B)\nF := x\nF += $(B)\nB := 3\n",
    );
    assert_eq!(ev.vars.get("A"), "$(B)");
    assert_eq!(value(&mut ev, "$(A)"), "3");
    assert_eq!(ev.vars.get("C"), "1");
    assert_eq!(ev.vars.get("D"), "d");
    assert_eq!(ev.vars.get("E"), "x $(B)");
    assert_eq!(ev.vars.get("F"), "x 2");
    assert_eq!(ev.vars.lookup(&text("A")).unwrap().flavor(), Flavor::Recursive);
    assert_eq!(ev.vars.lookup(&text("C")).unwrap().flavor(), Flavor::Simple);
    assert_eq!(ev.vars.lookup(&text("A")).unwrap().origin(), Origin::File);
}

#[test]
fn a_variable_of_the_command_line_survives_the_file() {
    let mut state = State::default();
    let mut vars = SymbolTable::new();
    vars.define(Var::new(Flavor::Simple, Origin::CmdLine, None, "X".into(), "1".into(), false));
    let mut ev = Evaluator::new(vars, Vec::new());
    let r = process_lines(
        &mut state,
        &mut ev,
        &text("Makefile"),
        &text("X := 2\nX += 3\nX = 4\n"),
        INCLUDES,
    );
    assert!(r.is_ok());
    assert_eq!(ev.vars.get("X"), "1");
    let r = process_lines(
        &mut state,
        &mut ev,
        &text("Makefile"),
        &text("override X := 5\n"),
        INCLUDES,
    );
    assert!(r.is_ok());
    assert_eq!(ev.vars.get("X"), "5");
}

#[test]
fn shell_assignment_asks_the_host() {
    let src = "SHELL := /bin/sh\n.SHELLFLAGS := -c\nNOW != date\n";
    match read(src, Vec::new()) {
        (Err(Stop::Need(Request::Shell { command, .. })), _, _) => {
            assert_eq!(string(&command), " date")
        }
        _ => panic!("expected a request"),
    }
    match read(src, vec![Answer::Output { text: text("today\n"), status: 0 }]) {
        (Ok(()), _, ev) => {
            assert_eq!(ev.vars.get("NOW"), "today");
            assert_eq!(ev.vars.lookup(&text("NOW")).unwrap().flavor(), Flavor::Simple);
        }
        _ => panic!("expected a value"),
    }
}

#[test]
fn export_and_unexport() {
    let (_, ev) = read_ok("A := 1\nB := 2\nexport A\nexport C := 3\nunexport B\n");
    assert!(ev.vars.lookup(&text("A")).unwrap().is_exported());
    assert!(ev.vars.lookup(&text("C")).unwrap().is_exported());
    assert!(ev.vars.lookup(&text("B")).unwrap().is_unexported());
    let (_, ev) = read_ok("A := 1\nexport\nB := 2\nunexport\nC := 3\n");
    assert!(ev.vars.lookup(&text("A")).unwrap().is_exported());
    assert!(ev.vars.lookup(&text("B")).unwrap().is_exported());
    assert!(!ev.vars.lookup(&text("C")).unwrap().is_exported());
}

#[test]
fn conditionals() {
    let src = "ifeq ($(strip ), )\nA := yes\nelse\nA := no\nendif\n\
               ifeq (a, b)\nB := yes\nelse ifneq (a,b)\nB := elif\nelse\nB := no\nendif\n\
               ifdef A\nC := defined\nendif\n\
               ifndef A\nD := undefined\nelse\nD := defined\nendif\n\
               ifeq \"x\" 'x'\nE := same\nendif\n\
               ifneq (a,a)\nifeq (a,a)\nF := inner\nelse\nF := inner-else\nendif\nelse\nF := outer\nendif\n";
    let (_, ev) = read_ok(src);
    assert_eq!(ev.vars.get("A"), "yes");
    assert_eq!(ev.vars.get("B"), "elif");
    assert_eq!(ev.vars.get("C"), "defined");
    assert_eq!(ev.vars.get("D"), "defined");
    assert_eq!(ev.vars.get("E"), "same");
    assert_eq!(ev.vars.get("F"), "outer");
}

#[test]
fn only_one_branch_of_a_level_is_taken() {
    let src = "ifeq (a,a)\nA := 1\nelse ifeq (b,b)\nA := 2\nelse\nA := 3\nendif\n";
    let (_, ev) = read_ok(src);
    assert_eq!(ev.vars.get("A"), "1");
    let src = "ifeq (a,b)\nA := 1\nelse ifeq (b,c)\nA := 2\nelse\nA := 3\nendif\n";
    let (_, ev) = read_ok(src);
    assert_eq!(ev.vars.get("A"), "3");
}

#[test]
fn define_gathers_lines() {
    let (_, mut ev) = read_ok("X := 1\ndefine BODY\nfirst $(X)\nsecond\nendef\ndefine NOW :=\n$(X)\nendef\nX := 2\n");
    assert_eq!(ev.vars.get("BODY"), "first $(X)\nsecond");
    assert_eq!(value(&mut ev, "$(BODY)"), "first 2\nsecond");
    assert_eq!(ev.vars.get("NOW"), "1");
}

#[test]
fn rules_and_recipes() {
    let (state, _) = read_ok("OBJ := a.o\nall: $(OBJ)\n$(OBJ): a.c ; @echo inline\n\tcc -c a.c\n\n\techo done\n");
    assert_eq!(state.rules.len(), 5);
    assert_eq!(state.rules[1].targets, vec![text("a.o")]);
    assert_eq!(state.rules[1].location.line(), 3);
    match &state.rules[0].data {
        RuleData::Prereq(false, p) => assert_eq!(string(p), " $(OBJ)"),
        _ => panic!("expected prerequisites"),
    }
    match &state.rules[2].data {
        RuleData::Recipie(r) => assert_eq!(string(r), " @echo inline"),
        _ => panic!("expected a recipe"),
    }
    match &state.rules[3].data {
        RuleData::Recipie(r) => assert_eq!(string(r), "cc -c a.c"),
        _ => panic!("expected a recipe"),
    }
    assert_eq!(state.rules[4].targets, vec![text("a.o")]);
    assert_eq!(state.rules[4].location.line(), 6);
}

#[test]
fn include_reads_other_files() {
    let src = "A := 1\ninclude one.mk two.mk\n-include none.mk\nsinclude none.mk\nB := $(ONE)$(TWO)\n";
    match read(src, Vec::new()) {
        (Err(Stop::Need(Request::Read { path })), _, _) => assert_eq!(string(&path), "one.mk"),
        _ => panic!("expected a request"),
    }
    let answers = vec![
        Answer::Text { text: text("ONE := $(A)\n") },
        Answer::Text { text: text("TWO := 2\n") },
        Answer::Missing,
        Answer::Missing,
    ];
    match read(src, answers) {
        (Ok(()), _, ev) => assert_eq!(ev.vars.get("B"), "12"),
        _ => panic!("expected a value"),
    }
    match read("include none.mk\n", vec![Answer::Missing]) {
        (Err(Stop::Fatal(f)), _, _) => {
            assert_eq!(f.kind, FatalKind::MissingInclude);
            assert_eq!(f.message(), "Makefile:1: *** none.mk: No such file or directory.  Stop.");
        }
        _ => panic!("expected an error"),
    }
}

#[test]
fn errors_of_reading() {
    assert_eq!(
        read_fatal("a:\nifeq (a,a)\n"),
        (FatalKind::MissingEndif, "Makefile:2: *** missing 'endif'.  Stop.".to_string())
    );
    assert_eq!(
        read_fatal("\techo hi\n"),
        (
            FatalKind::RecipeOutsideRule,
            "Makefile:1: *** recipe commences before first target.  Stop.".to_string()
        )
    );
    assert_eq!(read_fatal("A := 1\n\techo hi\n").0, FatalKind::RecipeOutsideRule);
    assert_eq!(read_fatal("A := 1\n\t\n").0, FatalKind::RecipeOutsideRule);
    assert_eq!(read_fatal(" = 1\n").0, FatalKind::BadAssignment);
    assert_eq!(read_fatal("ifeq (a\n").0, FatalKind::BadDirective);
    assert_eq!(read_fatal("ifeq a\nendif\n").0, FatalKind::BadDirective);
    assert_eq!(read_fatal("define\nendef\n").0, FatalKind::BadDirective);
    assert_eq!(read_fatal("define X\n").0, FatalKind::BadDirective);
    assert_eq!(read_fatal("X := $(\n").0, FatalKind::Unterminated);
    assert_eq!(read_fatal("$(error stop here)\n").1, "Makefile:1: *** stop here.  Stop.");
}

#[test]
fn late_binding_through_a_makefile() {
    let (mut state, mut ev) = fresh();
    let text_of = |s: &str| -> Vec<char> { s.chars().collect() };
    assert!(process_lines(&mut state, &mut ev, &text_of("Makefile"), &text_of("X := hello\nY = $(X) world\n"), INCLUDES).is_ok());
    assert_eq!(value(&mut ev, "$(Y)"), "hello world");
    assert!(process_lines(&mut state, &mut ev, &text_of("Makefile"), &text_of("X := hi\n"), INCLUDES).is_ok());
    assert_eq!(value(&mut ev, "$(Y)"), "hi world");
}

#[test]
fn a_conditional_is_one_even_after_a_tab() {
    let (state, ev) = read_ok("all:\n\techo a\n\tifeq (a,b)\n\techo b\n\tendif\nX := 1\n");
    assert_eq!(state.rules.len(), 2);
    assert_eq!(ev.vars.get("X"), "1");
}
