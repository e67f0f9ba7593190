use imake::expand::{expand_simple_ng, process_for_shell};
use imake::fault::{FatalKind, Stop};
use imake::host::{Answer, Evaluator, Request, Stream};
use imake::store::SymbolTable;
use imake::vars::{Flavor, Location, Origin, Var};

fn text(s: &str) -> Vec<char> {
    s.chars().collect()
}

fn define(vars: &mut SymbolTable, name: &str, flavor: Flavor, value: &str) {
    vars.define(Var::new(flavor, Origin::File, None, name.to_string(), value.to_string(), false));
}

fn value(ev: &mut Evaluator, input: &str) -> String {
    match expand_simple_ng(ev, &Location::new("Makefile", 3), input) {
        Ok(t) => t,
        Err(Stop::Fatal(f)) => panic!("fatal: {}", f.message()),
        Err(Stop::Need(_)) => panic!("needs the host"),
    }
}

fn plain(input: &str) -> String {
    let mut ev = Evaluator::new(SymbolTable::new(), Vec::new());
    value(&mut ev, input)
}

fn fatal(input: &str) -> (FatalKind, String) {
    let mut vars = SymbolTable::new();
    define(&mut vars, "LOOP", Flavor::Recursive, "$(LOOP)");
    let mut ev = Evaluator::new(vars, Vec::new());
    match expand_simple_ng(&mut ev, &Location::new("Makefile", 3), input) {
        Err(Stop::Fatal(f)) => (f.kind, f.message()),
        _ => panic!("expected an error"),
    }
}

#[test]
fn expand_ng() {
    let mut vars = SymbolTable::new();
    define(&mut vars, "X", Flavor::Simple, "1");
    define(&mut vars, "Y", Flavor::Simple, "$X");
    define(&mut vars, "Z", Flavor::Recursive, "$X");
    let mut ev = Evaluator::new(vars, Vec::new());
    assert_eq!(value(&mut ev, "$X"), "1");
    assert_eq!(value(&mut ev, "${X}"), "1");
    assert_eq!(value(&mut ev, "$(X)"), "1");
    assert_eq!(value(&mut ev, "$Y"), "$X");
    assert_eq!(value(&mut ev, "$Y${Z}$(X)"), "$X11");
    assert_eq!(value(&mut ev, "$Z"), "1");
    assert_eq!(value(&mut ev, "$$"), "$");
}

#[test]
fn dollar_at_the_end_is_a_dollar() {
    assert_eq!(plain("a$"), "a$");
    assert_eq!(plain("$(UNDEFINED)"), "");
    assert_eq!(plain("a$(UNDEFINED)b"), "ab");
}

#[test]
fn text_functions() {
    assert_eq!(plain("$(subst ee,EE,feet on the street)"), "fEEt on the strEEt");
    assert_eq!(plain("$(patsubst %.c,%.o,a.c b.c c.h)"), "a.o b.o c.h");
    assert_eq!(plain("$(patsubst %.c,%.o,a.c b.h)"), "a.o b.h");
    assert_eq!(plain("$(patsubst a,b,a c a)"), "b c b");
    assert_eq!(plain("$(strip   a   b  )"), "a b");
    assert_eq!(plain("$(findstring a,a b c)"), "a");
    assert_eq!(plain("$(findstring z,a b c)"), "");
    assert_eq!(plain("$(firstword foo bar)"), "foo");
    assert_eq!(plain("$(lastword foo bar)"), "bar");
    assert_eq!(plain("$(words foo bar baz)"), "3");
    assert_eq!(plain("$(words )"), "0");
    assert_eq!(plain("$(word 2,foo bar baz)"), "bar");
    assert_eq!(plain("$(word 4,foo bar baz)"), "");
    assert_eq!(plain("$(wordlist 2,3,foo bar baz)"), "bar baz ");
    assert_eq!(plain("$(wordlist 3,2,foo bar baz)"), "");
    assert_eq!(plain("$(wordlist 2,9,foo bar baz)"), "bar baz ");
    assert_eq!(plain("$(dir src/foo.c hacks)"), " src/ ./");
    assert_eq!(plain("$(notdir src/foo.c hacks)"), " foo.c hacks");
    assert_eq!(plain("$(basename src/foo.c src-1.0/bar hacks)"), " src/foo src-1.0/bar hacks");
    assert_eq!(plain("$(suffix src/foo.c src-1.0/bar.c hacks)"), " .c .c ");
    assert_eq!(plain("$(addprefix src/,foo bar)"), " src/foo src/bar");
    assert_eq!(plain("$(addsuffix .c,foo bar)"), " foo.c bar.c");
    assert_eq!(plain("$(sort foo bar lose foo)"), "bar foo lose ");
    assert_eq!(plain("$(join a b,.c .o)"), "a.c b.o ");
    assert_eq!(plain("$(join a b c,.c .o)"), "a.c b.o ");
}

#[test]
fn subst_with_an_empty_pattern_puts_the_text_between_all() {
    assert_eq!(plain("$(subst ,-,ab)"), "-a-b-");
}

#[test]
fn commas_inside_brackets_part_no_arguments() {
    assert_eq!(plain("$(subst a,b,$(subst x,a,x,y))"), "b");
    assert_eq!(plain("$(findstring $(subst b,c,abc),xaccx)"), "acc");
}

#[test]
fn substitution_references() {
    let mut vars = SymbolTable::new();
    define(&mut vars, "SRC", Flavor::Simple, "a.c b.c c.h");
    let mut ev = Evaluator::new(vars, Vec::new());
    assert_eq!(value(&mut ev, "$(SRC:.c=.o)"), "a.o b.o c.h");
    assert_eq!(value(&mut ev, "$(SRC:%.c=%.o)"), "a.o b.o c.h");
    assert_eq!(value(&mut ev, "${SRC:%.h=x/%}"), "a.c b.c x/c");
}

#[test]
fn subst_of_a_text_by_itself_changes_nothing() {
    assert_eq!(plain("$(subst a,a,banana and ananas)"), "banana and ananas");
    assert_eq!(plain("$(subst ,,banana)"), "banana");
}

#[test]
fn strip_keeps_the_number_of_words() {
    assert_eq!(plain("$(words $(strip $(subst  ,X,a\tb\tc)))"), "3");
    assert_eq!(plain("$(words a\tb\tc)"), "3");
    // With a space in the text the words run together.
    assert_eq!(plain("$(words $(strip $(subst  ,X,a b)))"), "1");
}

fn count_after_blanks_are_replaced(s: &str) -> (String, String) {
    let mut vars = SymbolTable::new();
    define(&mut vars, "S", Flavor::Simple, s);
    let mut ev = Evaluator::new(vars, Vec::new());
    (value(&mut ev, "$(words $(strip $(subst  ,X,$(S))))"), value(&mut ev, "$(words $(S))"))
}

#[test]
fn replacing_blanks_keeps_the_words_where_no_blank_parts_two() {
    for s in [" a", "a ", "a \tb", "  a  \n b ", "", "\t", "a"] {
        let (after, before) = count_after_blanks_are_replaced(s);
        assert_eq!(after, before);
    }
    assert_eq!(count_after_blanks_are_replaced("a b"), ("1".to_string(), "2".to_string()));
    assert_eq!(count_after_blanks_are_replaced(" "), ("1".to_string(), "0".to_string()));
    assert_eq!(count_after_blanks_are_replaced("a  b"), ("1".to_string(), "2".to_string()));
    assert_eq!(count_after_blanks_are_replaced("a b\t \t"), ("2".to_string(), "2".to_string()));
}

#[test]
fn sort_gives_no_more_words() {
    assert_eq!(plain("$(words $(sort b a b c a))"), "3");
    assert_eq!(plain("$(words b a b c a)"), "5");
}

#[test]
fn patsubst_of_percent_by_percent_strips() {
    assert_eq!(plain("$(patsubst %,%,  a   b c  )"), "a b c");
    assert_eq!(plain("$(strip   a   b c  )"), "a b c");
}

#[test]
fn firstword_of_sort_is_the_least_word() {
    assert_eq!(plain("$(firstword $(sort pear apple fig apple))"), "apple");
    assert_eq!(plain("$(firstword $(sort b ab abc a))"), "a");
    assert_eq!(plain("$(firstword $(sort ))"), "");
}

#[test]
fn simple_variables_expand_to_the_same_twice() {
    let mut vars = SymbolTable::new();
    define(&mut vars, "V", Flavor::Simple, "a $(b) $$c");
    let mut ev = Evaluator::new(vars, Vec::new());
    let first = value(&mut ev, "$(V)");
    let second = value(&mut ev, "$(V)");
    assert_eq!(first, "a $(b) $$c");
    assert_eq!(first, second);
}

#[test]
fn recursive_variables_bind_late() {
    let mut vars = SymbolTable::new();
    define(&mut vars, "X", Flavor::Simple, "hello");
    define(&mut vars, "Y", Flavor::Recursive, "$(X) world");
    let mut ev = Evaluator::new(vars, Vec::new());
    assert_eq!(value(&mut ev, "$(Y)"), "hello world");
    assert_eq!(value(&mut ev, "$(Y)"), value(&mut ev, "$(X) world"));
    ev.vars.assign(text("X"), Flavor::Simple, Origin::File, None, text("hi"));
    assert_eq!(value(&mut ev, "$(Y)"), "hi world");
}

#[test]
fn flavor_and_origin_and_value() {
    let mut vars = SymbolTable::new();
    define(&mut vars, "S", Flavor::Simple, "1");
    define(&mut vars, "R", Flavor::Recursive, "$(S)");
    vars.define(Var::new(Flavor::Simple, Origin::CmdLine, None, "C".into(), "1".into(), false));
    vars.define(Var::new(Flavor::Simple, Origin::Env, None, "E".into(), "1".into(), true));
    vars.define(Var::new(Flavor::Simple, Origin::Default, None, "D".into(), "1".into(), false));
    vars.define(Var::new(Flavor::Simple, Origin::Override, None, "O".into(), "1".into(), false));
    vars.define(Var::new(Flavor::Simple, Origin::EnvOverride, None, "EO".into(), "1".into(), false));
    let mut ev = Evaluator::new(vars, Vec::new());
    assert_eq!(value(&mut ev, "$(flavor S)"), "simple");
    assert_eq!(value(&mut ev, "$(flavor R)"), "recursive");
    assert_eq!(value(&mut ev, "$(flavor NONE)"), "undefined");
    assert!(ev.vars.lookup(&text("NONE")).is_none());
    assert_eq!(value(&mut ev, "$(origin S)"), "file");
    assert_eq!(value(&mut ev, "$(origin C)"), "command line");
    assert_eq!(value(&mut ev, "$(origin E)"), "environment");
    assert_eq!(value(&mut ev, "$(origin D)"), "default");
    assert_eq!(value(&mut ev, "$(origin O)"), "override");
    assert_eq!(value(&mut ev, "$(origin EO)"), "environment override");
    assert_eq!(value(&mut ev, "$(origin NONE)"), "undefined");
    assert_eq!(value(&mut ev, "$(value R)"), "$(S)");
    assert_eq!(value(&mut ev, "$(R)"), "1");
}

#[test]
fn call_binds_its_arguments() {
    let mut vars = SymbolTable::new();
    define(&mut vars, "greet", Flavor::Recursive, "Hello $(1)");
    define(&mut vars, "pair", Flavor::Recursive, "$(1)-$(2)-$(3)");
    define(&mut vars, "outer", Flavor::Recursive, "$(call pair,$(2),$(1))");
    let mut ev = Evaluator::new(vars, Vec::new());
    assert_eq!(value(&mut ev, "$(call greet,world)"), "Hello world");
    assert_eq!(value(&mut ev, "$(call pair,a,b)"), "a-b-");
    assert_eq!(value(&mut ev, "$(call outer,x,y,z)"), "y-x-");
    assert_eq!(value(&mut ev, "$(origin 1)"), "undefined");
    assert_eq!(ev.vars.depth(), 0);
}

#[test]
fn foreach_binds_each_word() {
    let mut vars = SymbolTable::new();
    define(&mut vars, "x", Flavor::Simple, "outer");
    let mut ev = Evaluator::new(vars, Vec::new());
    assert_eq!(value(&mut ev, "$(foreach x,a b c,[$(x)])"), "[a] [b] [c]");
    assert_eq!(value(&mut ev, "$(foreach x,,[$(x)])"), "");
    assert_eq!(value(&mut ev, "$(foreach x,one,[$(x)])"), "[one]");
    assert_eq!(value(&mut ev, "$(x)"), "outer");
    assert_eq!(ev.vars.depth(), 0);
}

#[test]
fn info_and_warning_write_lines() {
    let mut ev = Evaluator::new(SymbolTable::new(), Vec::new());
    assert_eq!(value(&mut ev, "a$(info hello)b$(warning careful)c"), "abc");
    assert_eq!(ev.host.written(), 2);
    assert_eq!(ev.host.line(0).stream, Stream::Output);
    assert_eq!(ev.host.line(0).text, text("hello"));
    assert_eq!(ev.host.line(1).stream, Stream::Error);
    assert_eq!(ev.host.line(1).text, text("Makefile:3: careful"));
}

#[test]
fn shell_asks_the_host() {
    let mut vars = SymbolTable::new();
    define(&mut vars, "SHELL", Flavor::Simple, "/bin/sh");
    define(&mut vars, ".SHELLFLAGS", Flavor::Simple, "-c");
    let mut ev = Evaluator::new(vars.copy(), Vec::new());
    match expand_simple_ng(&mut ev, &Location::default(), "$(shell echo hi)") {
        Err(Stop::Need(Request::Shell { shell, flags, command })) => {
            assert_eq!(shell, text("/bin/sh"));
            assert_eq!(flags, text("-c"));
            assert_eq!(command, text("echo hi"));
        }
        _ => panic!("expected a request"),
    }
    let mut ev = Evaluator::new(vars.copy(), vec![Answer::Output { text: text("hi\n"), status: 0 }]);
    assert_eq!(value(&mut ev, "$(shell echo hi)"), "hi");
    assert_eq!(ev.vars.get(".SHELLSTATUS"), "0");
    assert_eq!(ev.host.used(), 1);
    let mut ev =
        Evaluator::new(vars, vec![Answer::Output { text: text("a\nb\n"), status: -3 }]);
    assert_eq!(value(&mut ev, "$(shell false)"), "a b");
    assert_eq!(ev.vars.get(".SHELLSTATUS"), "-3");
}

#[test]
fn wildcard_and_abspath_ask_the_host() {
    let mut ev = Evaluator::new(SymbolTable::new(), Vec::new());
    match expand_simple_ng(&mut ev, &Location::default(), "$(wildcard *.c)") {
        Err(Stop::Need(Request::Wildcard { pattern })) => assert_eq!(pattern, text("*.c")),
        _ => panic!("expected a request"),
    }
    let mut ev = Evaluator::new(
        SymbolTable::new(),
        vec![Answer::Paths { paths: vec![text("a.c"), text("b.c")] }],
    );
    assert_eq!(value(&mut ev, "$(wildcard *.c)"), "a.c b.c");
    let mut ev = Evaluator::new(
        SymbolTable::new(),
        vec![Answer::Text { text: text("/tmp/a") }, Answer::Missing],
    );
    assert_eq!(value(&mut ev, "$(abspath a b)"), " /tmp/a ");
    let mut ev = Evaluator::new(SymbolTable::new(), vec![Answer::Text { text: text("/tmp/a") }]);
    match expand_simple_ng(&mut ev, &Location::default(), "$(abspath a b)") {
        Err(Stop::Need(Request::Canonical { path })) => assert_eq!(path, text("b")),
        _ => panic!("expected a request"),
    }
}

#[test]
fn errors_of_expansion() {
    assert_eq!(
        fatal("$(foo"),
        (
            FatalKind::Unterminated,
            "Makefile:3: *** unterminated variable reference.  Stop.".to_string()
        )
    );
    assert_eq!(fatal("$(foo}").0, FatalKind::Unterminated);
    assert_eq!(
        fatal("$(subst a,b)"),
        (
            FatalKind::ArgCount,
            "Makefile:3: *** insufficient number of arguments (2) to function 'subst'.  Stop."
                .to_string()
        )
    );
    assert_eq!(
        fatal("$(word x,a b)"),
        (
            FatalKind::FirstNotNumber,
            "Makefile:3: *** non-numeric first argument to 'word' function: 'x'.  Stop."
                .to_string()
        )
    );
    assert_eq!(
        fatal("$(word 0,a b)"),
        (
            FatalKind::WordZero,
            "Makefile:3: *** first argument to 'word' function must be greater than 0.  Stop."
                .to_string()
        )
    );
    assert_eq!(
        fatal("$(wordlist 1,y,a b)"),
        (
            FatalKind::SecondNotNumber,
            "Makefile:3: *** non-numeric second argument to 'wordlist' function: 'y'.  Stop."
                .to_string()
        )
    );
    assert_eq!(
        fatal("$(wordlist 0,1,a b)"),
        (
            FatalKind::WordListZero,
            "Makefile:3: *** invalid first argument to 'wordlist' function: '0'.  Stop."
                .to_string()
        )
    );
    assert_eq!(
        fatal("$(error  it broke )"),
        (FatalKind::UserError, "Makefile:3: *** it broke.  Stop.".to_string())
    );
    assert_eq!(fatal("$(LOOP)").0, FatalKind::TooDeep);
    let mut ev = Evaluator::new(SymbolTable::new(), vec![Answer::Refused]);
    match expand_simple_ng(&mut ev, &Location::default(), "$(wildcard [)") {
        Err(Stop::Fatal(f)) => assert_eq!(f.kind, FatalKind::BadPattern),
        _ => panic!("expected an error"),
    }
    let mut ev = Evaluator::new(SymbolTable::new(), vec![Answer::Missing]);
    match expand_simple_ng(&mut ev, &Location::default(), "$(wildcard *)") {
        Err(Stop::Fatal(f)) => assert_eq!(f.kind, FatalKind::BadAnswer),
        _ => panic!("expected an error"),
    }
}

#[test]
fn a_command_for_the_shell_is_left_as_it_is() {
    assert_eq!(process_for_shell("echo '#' # x"), "echo '#' # x");
}
