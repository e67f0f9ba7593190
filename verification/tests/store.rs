use imake::store::SymbolTable;
use imake::vars::{Flavor, Location, Origin, Var};

fn text(s: &str) -> Vec<char> {
    s.chars().collect()
}

#[test]
fn a_new_cell_holds_what_it_was_given() {
    let v = Var::new(
        Flavor::Recursive,
        Origin::File,
        Some(Location::new("Makefile", 7)),
        "CC".to_string(),
        "gcc".to_string(),
        true,
    );
    assert_eq!(v.name(), "CC");
    assert_eq!(v.value(), "gcc");
    assert_eq!(v.flavor(), Flavor::Recursive);
    assert_eq!(v.origin(), Origin::File);
    assert!(v.is_exported());
    assert!(!v.is_unexported());
    assert!(!v.is_explicitly_exported());
    assert_eq!(v.loc().as_ref().unwrap().file_name(), "Makefile");
    assert_eq!(v.loc().as_ref().unwrap().line(), 7);
}

#[test]
fn export_and_unexport_exclude_each_other() {
    let mut v = Var::new(Flavor::Simple, Origin::File, None, "A".into(), "1".into(), false);
    assert!(!v.is_exported());
    v.export();
    assert!(v.is_exported() && v.is_explicitly_exported() && !v.is_unexported());
    v.unexport();
    assert!(!v.is_exported() && v.is_unexported());
    v.export();
    assert!(v.is_exported() && !v.is_unexported());
}

#[test]
fn automatic_cells_are_never_exported() {
    let mut v = Var::new(Flavor::Simple, Origin::Automatic, None, "@".into(), "t".into(), true);
    assert!(!v.is_exported());
    v.export();
    assert!(!v.is_exported());
}

#[test]
fn store_and_append() {
    let mut v = Var::new(Flavor::Simple, Origin::File, None, "A".into(), "1".into(), false);
    v.store("two words".to_string());
    assert_eq!(v.value(), "two words");
    v.append("  more  ");
    assert_eq!(v.value(), "two words more");
    v.append("");
    assert_eq!(v.value(), "two words more ");
}

#[test]
fn set_and_get_work_as_the_environment_does() {
    let mut vars = SymbolTable::new();
    assert_eq!(vars.get("HOME"), "");
    vars.set("HOME", "/root");
    assert_eq!(vars.get("HOME"), "/root");
    let cell = vars.lookup(&text("HOME")).unwrap();
    assert_eq!(cell.origin(), Origin::Env);
    assert_eq!(cell.flavor(), Flavor::Simple);
    assert!(cell.is_exported());
    vars.set("HOME", "/home");
    assert_eq!(vars.get("HOME"), "/home");
    assert_eq!(vars.len(), 1);
}

#[test]
fn a_definition_of_a_higher_rank_stays() {
    let mut vars = SymbolTable::new();
    vars.assign(text("X"), Flavor::Simple, Origin::CmdLine, None, text("1"));
    vars.assign(text("X"), Flavor::Simple, Origin::File, None, text("2"));
    assert_eq!(vars.get("X"), "1");
    vars.append(text("X"), Origin::File, None, &text("3"));
    assert_eq!(vars.get("X"), "1");
    vars.set("X", "4");
    assert_eq!(vars.get("X"), "1");
    assert!(!vars.accepts(&text("X"), Origin::File));
    assert!(vars.accepts(&text("X"), Origin::Override));
    vars.assign(text("X"), Flavor::Recursive, Origin::Override, None, text("5"));
    assert_eq!(vars.get("X"), "5");
    assert_eq!(vars.lookup(&text("X")).unwrap().flavor(), Flavor::Recursive);
    vars.assign(text("E"), Flavor::Simple, Origin::Default, None, text("d"));
    vars.assign(text("E"), Flavor::Simple, Origin::Env, None, text("e"));
    vars.assign(text("E"), Flavor::Simple, Origin::Default, None, text("d2"));
    assert_eq!(vars.get("E"), "e");
}

#[test]
fn append_to_a_missing_variable_makes_a_recursive_one() {
    let mut vars = SymbolTable::new();
    vars.append(text("L"), Origin::File, None, &text("  a  "));
    assert_eq!(vars.get("L"), "a");
    assert_eq!(vars.lookup(&text("L")).unwrap().flavor(), Flavor::Recursive);
    vars.append(text("L"), Origin::File, None, &text("b"));
    assert_eq!(vars.get("L"), "a b");
}

#[test]
fn frames_shadow_and_pop() {
    let mut vars = SymbolTable::new();
    vars.assign(text("x"), Flavor::Simple, Origin::File, None, text("global"));
    vars.assign(text("3"), Flavor::Simple, Origin::File, None, text("three"));
    vars.push_frame(Some(2));
    vars.bind(Var::new(Flavor::Simple, Origin::Automatic, None, "x".into(), "inner".into(), false));
    vars.bind(Var::new(Flavor::Simple, Origin::Automatic, None, "x".into(), "inner2".into(), false));
    assert_eq!(vars.get("x"), "inner2");
    assert_eq!(vars.get("3"), "");
    assert_eq!(vars.get("03"), "");
    assert_eq!(vars.depth(), 1);
    vars.push_frame(None);
    assert_eq!(vars.get("x"), "inner2");
    vars.pop_frame();
    vars.pop_frame();
    assert_eq!(vars.get("x"), "global");
    assert_eq!(vars.get("3"), "three");
    vars.pop_frame();
    assert_eq!(vars.depth(), 0);
}

#[test]
fn export_all_and_unexport_all() {
    let mut vars = SymbolTable::new();
    vars.assign(text("A"), Flavor::Simple, Origin::File, None, text("1"));
    vars.assign(text("B"), Flavor::Simple, Origin::File, None, text("2"));
    vars.unexport(&text("B"));
    vars.export_all();
    assert!(vars.lookup(&text("A")).unwrap().is_exported());
    assert!(!vars.lookup(&text("B")).unwrap().is_exported());
    vars.assign(text("C"), Flavor::Simple, Origin::File, None, text("3"));
    assert!(vars.lookup(&text("C")).unwrap().is_exported());
    vars.unexport_all();
    vars.assign(text("D"), Flavor::Simple, Origin::File, None, text("4"));
    assert!(!vars.lookup(&text("D")).unwrap().is_exported());
    assert!(vars.lookup(&text("A")).unwrap().is_exported());
    let names: Vec<String> = vars.enumerate().iter().map(|v| v.name()).collect();
    assert_eq!(names, vec!["A", "B", "C", "D"]);
}

#[test]
fn no_two_global_cells_have_the_same_name() {
    let mut vars = SymbolTable::new();
    for (n, v) in [("A", "1"), ("B", "2"), ("A", "3"), ("C", "4"), ("B", "5")] {
        vars.assign(text(n), Flavor::Simple, Origin::File, None, text(v));
        vars.export(&text(n));
        vars.append(text(n), Origin::File, None, &text("x"));
    }
    vars.export_all();
    vars.unexport_all();
    vars.names_are_distinct();
    let names: Vec<String> = vars.enumerate().iter().map(|v| v.name()).collect();
    assert_eq!(names, vec!["A", "B", "C"]);
    assert_eq!(vars.get("A"), "3 x");
    let copy = vars.copy();
    assert_eq!(copy.len(), 3);
}
