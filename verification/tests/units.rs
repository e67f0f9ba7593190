use imake::args::{find_close, find_top_of, get_all_args, get_args};
use imake::expand::{builtin_of, expand_simple_ng};
use imake::fault::{FatalKind, Stop};
use imake::funcs::{subst_text, word_text, wordlist_text, IndexFault};
use imake::host::Evaluator;
use imake::meaning::Builtin;
use imake::number::{decimal_of, parse_number, signed_decimal_of};
use imake::paths::{part_of_name, Part};
use imake::pattern::{patsubst_text, substref_text};
use imake::reader::{process_lines, unquoted, INCLUDES};
use imake::rules::State;
use imake::sort::{comes_before, sort_words};
use imake::text::{chars_of, contains_text, string_of, trim_of};
use imake::words::{join_leading_of, join_single_of, join_trailing_of, split_words};
use imake::{Location, SymbolTable};

fn text(s: &str) -> Vec<char> {
    s.chars().collect()
}

fn string(t: &Vec<char>) -> String {
    t.iter().collect()
}

fn list(l: &[&str]) -> Vec<Vec<char>> {
    l.iter().map(|s| text(s)).collect()
}

#[test]
fn strings_and_texts() {
    assert_eq!(chars_of("häy $"), vec!['h', 'ä', 'y', ' ', '$']);
    assert_eq!(string_of(&vec!['h', 'ä', 'y']), "häy");
    assert_eq!(string_of(&Vec::new()), "");
    assert_eq!(string(&trim_of(&text(" \t a b \n"))), "a b");
    assert_eq!(string(&trim_of(&text(" \t\n"))), "");
    assert!(contains_text(&text("banana"), &text("nan")));
    assert!(contains_text(&text("banana"), &text("")));
    assert!(!contains_text(&text("banana"), &text("nab")));
    assert!(!contains_text(&text("ab"), &text("abc")));
}

#[test]
fn words_and_joins() {
    assert_eq!(split_words(&text("  a\tb\u{a0}c \n")), list(&["a", "b", "c"]));
    assert!(split_words(&text(" \t ")).is_empty());
    let ws = list(&["a", "bc"]);
    assert_eq!(string(&join_single_of(&ws)), "a bc");
    assert_eq!(string(&join_leading_of(&ws)), " a bc");
    assert_eq!(string(&join_trailing_of(&ws)), "a bc ");
    assert_eq!(string(&join_single_of(&Vec::new())), "");
    assert_eq!(split_words(&join_leading_of(&ws)), ws);
    assert_eq!(split_words(&join_trailing_of(&ws)), ws);
}

#[test]
fn numbers() {
    assert_eq!(string(&decimal_of(0)), "0");
    assert_eq!(string(&decimal_of(1203)), "1203");
    assert_eq!(string(&decimal_of(usize::MAX)), usize::MAX.to_string());
    assert_eq!(string(&signed_decimal_of(-17)), "-17");
    assert_eq!(string(&signed_decimal_of(i32::MIN)), i32::MIN.to_string());
    assert_eq!(string(&signed_decimal_of(i32::MAX)), i32::MAX.to_string());
    assert_eq!(parse_number(&text("0042")), Some(42));
    assert_eq!(parse_number(&text(&usize::MAX.to_string())), Some(usize::MAX));
    assert_eq!(parse_number(&text(&format!("{}0", usize::MAX))), None);
    assert_eq!(parse_number(&text("18446744073709551616")), None);
    assert_eq!(parse_number(&text("")), None);
    assert_eq!(parse_number(&text("+1")), None);
    assert_eq!(parse_number(&text("1a")), None);
}

#[test]
fn arguments() {
    let loc = Location::new("Makefile", 9);
    let all = get_all_args(&loc, &text("a,$(b,c),{d,(e,f)},,g")).ok().unwrap();
    assert_eq!(all, list(&["a", "$(b,c)", "{d,(e,f)}", "", "g"]));
    assert_eq!(get_all_args(&loc, &text("")).ok().unwrap(), list(&[""]));
    assert_eq!(get_all_args(&loc, &text("a(b")).ok().unwrap(), list(&["a(b"]));
    assert_eq!(get_all_args(&loc, &text("(a}")).err().unwrap().kind, FatalKind::Unterminated);
    assert_eq!(get_all_args(&loc, &text("a)")).err().unwrap().kind, FatalKind::Unterminated);
    assert_eq!(get_args(&loc, "f", 2, &text("a,b,c")).ok().unwrap(), list(&["a", "b"]));
    let e = get_args(&loc, "f", 3, &text("a,b")).err().unwrap();
    assert_eq!(e.kind, FatalKind::ArgCount);
    assert_eq!(e.number, 2);
    assert_eq!(
        e.message(),
        "Makefile:9: *** insufficient number of arguments (2) to function 'f'.  Stop."
    );
}

#[test]
fn brackets() {
    let t = text("$(a $(b) {c})d)");
    assert_eq!(find_close(&t, 2, '('), Some(12));
    assert_eq!(find_close(&text("${a)"), 2, '{'), None);
    assert_eq!(find_close(&text("$(a"), 2, '('), None);
    assert_eq!(find_top_of(&text("a $(b c) d"), ' ', 2), 8);
    assert_eq!(find_top_of(&text("$(a:b)"), ':', 0), 6);
    assert_eq!(find_top_of(&text("a)b:c"), ':', 0), 3);
}

#[test]
fn functions_are_known_by_their_names() {
    assert_eq!(builtin_of(&text("patsubst")), Some(Builtin::PatSubst));
    assert_eq!(builtin_of(&text("word")), Some(Builtin::Word));
    assert_eq!(builtin_of(&text("words")), Some(Builtin::Words));
    assert_eq!(builtin_of(&text("wordlist")), Some(Builtin::WordList));
    assert_eq!(builtin_of(&text("if")), None);
    assert_eq!(builtin_of(&text("")), None);
}

#[test]
fn a_reference_with_colon_and_equals_is_a_substitution() {
    let mut vars = SymbolTable::new();
    vars.set("info x", "a.c");
    let mut ev = Evaluator::new(vars, Vec::new());
    assert_eq!(expand_simple_ng(&mut ev, &Location::default(), "$(info x:.c=.o)").ok().unwrap(), "a.o");
    assert_eq!(ev.host.written(), 0);
    assert_eq!(expand_simple_ng(&mut ev, &Location::default(), "$(info x=1)").ok().unwrap(), "");
    assert_eq!(ev.host.written(), 1);
    assert_eq!(expand_simple_ng(&mut ev, &Location::default(), "$(subst :,-,a:b)").ok().unwrap(), "a-b");
    assert_eq!(expand_simple_ng(&mut ev, &Location::default(), "$(subst :,=,a:b)").ok().unwrap(), "");
}

#[test]
fn the_depth_of_references_is_bounded() {
    let mut vars = SymbolTable::new();
    let mut src = String::new();
    for i in 0..40 {
        src.push_str(&format!("V{} = $(V{})\n", i, i + 1));
    }
    src.push_str("V40 = end\nLOOP = $(LOOP)\n");
    let mut state = State::default();
    vars.set("X", "1");
    let mut ev = Evaluator::new(vars, Vec::new());
    assert!(process_lines(&mut state, &mut ev, &text("Makefile"), &text(&src), INCLUDES).is_ok());
    assert_eq!(expand_simple_ng(&mut ev, &Location::default(), "$(V0)").ok().unwrap(), "end");
    match expand_simple_ng(&mut ev, &Location::new("Makefile", 1), "$(LOOP)") {
        Err(Stop::Fatal(f)) => {
            assert_eq!(f.kind, FatalKind::TooDeep);
            assert_eq!(f.message(), "Makefile:42: *** references are nested too deeply.  Stop.");
        }
        _ => panic!("expected an error"),
    }
}

#[test]
fn substitution_by_pattern() {
    assert_eq!(string(&subst_text(&text("aa"), &text("b"), &text("aaaaa"))), "bba");
    assert_eq!(string(&subst_text(&text("a"), &text(""), &text("banana"))), "bnn");
    assert_eq!(
        string(&patsubst_text(&text("lib%.a"), &text("-l%"), &text("libm.a x libz.a"))),
        "-lm x -lz"
    );
    assert_eq!(string(&patsubst_text(&text("%"), &text("[%%]"), &text("a b"))), "[a%] [b%]");
    assert_eq!(string(&patsubst_text(&text("a%"), &text("x"), &text("ab ac d"))), "x x d");
    assert_eq!(string(&patsubst_text(&text("ab%b"), &text("x"), &text("ab abb"))), "ab x");
    assert_eq!(string(&patsubst_text(&text("%.c"), &text("%.o"), &text("b.h"))), "b.h");
    assert_eq!(
        string(&substref_text(&text(".c"), &text(".o"), &text("a.c b.h .c"))),
        "a.o b.h .o"
    );
}

#[test]
fn picking_words() {
    assert_eq!(word_text(&text(" 2 "), &text("a b c")).ok().map(|w| string(&w)), Some("b".to_string()));
    assert_eq!(word_text(&text("0"), &text("a")).err(), Some(IndexFault::FirstZero));
    assert_eq!(word_text(&text(""), &text("a")).err(), Some(IndexFault::FirstNotNumber));
    assert_eq!(wordlist_text(&text("1"), &text("x"), &text("a")).err(), Some(IndexFault::SecondNotNumber));
    assert_eq!(
        wordlist_text(&text("1"), &text("0"), &text("a b")).ok().map(|w| string(&w)),
        Some("".to_string())
    );
    assert_eq!(
        wordlist_text(&text("5"), &text("9"), &text("a b")).ok().map(|w| string(&w)),
        Some("".to_string())
    );
}

#[test]
fn parts_of_names() {
    assert_eq!(string(&part_of_name(Part::Dir, &text("/a/b.c"))), "/a/");
    assert_eq!(string(&part_of_name(Part::Dir, &text("b.c"))), "./");
    assert_eq!(string(&part_of_name(Part::NotDir, &text("/a/b.c"))), "b.c");
    assert_eq!(string(&part_of_name(Part::NotDir, &text("a/"))), "");
    assert_eq!(string(&part_of_name(Part::BaseName, &text("a.b/c"))), "a.b/c");
    assert_eq!(string(&part_of_name(Part::BaseName, &text("a.b/c.d.e"))), "a.b/c.d");
    assert_eq!(string(&part_of_name(Part::BaseName, &text(".profile"))), "");
    assert_eq!(string(&part_of_name(Part::Suffix, &text("a.b/c"))), "");
    assert_eq!(string(&part_of_name(Part::Suffix, &text("a.b/c.d.e"))), ".e");
}

#[test]
fn the_order_of_words() {
    assert!(comes_before(&text("a"), &text("b")));
    assert!(comes_before(&text("a"), &text("ab")));
    assert!(comes_before(&text(""), &text("a")));
    assert!(comes_before(&text("B"), &text("a")));
    assert!(!comes_before(&text("a"), &text("a")));
    assert!(!comes_before(&text("b"), &text("ab")));
    assert_eq!(sort_words(&list(&["b", "a", "ab", "a", "B"])), list(&["B", "a", "ab", "b"]));
    let mut expected = vec!["pear", "fig", "apple", "fig", "Apple", "é", "z"];
    let sorted = sort_words(&list(&expected));
    expected.sort();
    expected.dedup();
    assert_eq!(sorted, list(&expected));
}

#[test]
fn quotation_marks_go() {
    assert_eq!(string(&unquoted(&text("\"a 'b'\" c"))), "a b c");
}
