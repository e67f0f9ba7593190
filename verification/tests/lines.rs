use imake::lines::read_logical_line;

fn text(s: &str) -> Vec<char> {
    s.chars().collect()
}

fn lines(src: &str) -> Vec<(usize, String)> {
    let t = text(src);
    let mut out = Vec::new();
    let mut pos = 0;
    let mut line_no = 0;
    while pos < t.len() {
        let l = read_logical_line(&t, pos, line_no);
        assert!(l.next > pos);
        out.push((l.line, l.text.iter().collect()));
        pos = l.next;
        line_no = l.line_no;
    }
    out
}

fn one(src: &str) -> String {
    let t = text(src);
    read_logical_line(&t, 0, 0).text.iter().collect()
}

#[test]
fn physical_lines_are_logical_lines() {
    assert_eq!(
        lines("a = 1\nb = 2\n\nc"),
        vec![
            (1, "a = 1".to_string()),
            (2, "b = 2".to_string()),
            (3, "".to_string()),
            (4, "c".to_string())
        ]
    );
}

#[test]
fn a_byte_order_mark_at_the_start_goes() {
    assert_eq!(one("\u{feff}all:"), "all:");
    let t = text("x\n\u{feff}y\n");
    assert_eq!(read_logical_line(&t, 2, 1).text, text("\u{feff}y"));
}

#[test]
fn lines_that_begin_with_a_hash_are_dropped() {
    assert_eq!(
        lines("# comment\nall:\n#x\n"),
        vec![(1, "".to_string()), (2, "all:".to_string()), (3, "".to_string())]
    );
}

#[test]
fn a_backslash_joins_the_next_line() {
    assert_eq!(lines("a = 1 \\\n    2 \\\n\t3\nb"), vec![(1, "a = 1 2 3".to_string()), (4, "b".to_string())]);
    assert_eq!(one("a\\\\b"), "a\\\\b");
}

#[test]
fn a_hash_begins_a_comment_outside_quotes_and_brackets() {
    assert_eq!(one("a = 1 # one\nb"), "a = 1 ");
    assert_eq!(one("a = '#' \"#\" $(x #) ${y #} # z"), "a = '#' \"#\" $(x #) ${y #} ");
    assert_eq!(one("a = $(x (#) #) # z"), "a = $(x (#) #) ");
}

#[test]
fn a_backslash_before_a_comment_joins_the_next_line() {
    assert_eq!(lines("a = 1 \\ # one\n  2\nb"), vec![(1, "a = 1 2".to_string()), (3, "b".to_string())]);
}

#[test]
fn recipe_lines_keep_their_hash() {
    assert_eq!(one("\techo a # b\n"), "\techo a # b");
    assert_eq!(one("\techo a \\\n  b\n"), "\techo a b");
}

#[test]
fn spaces_at_the_start_go() {
    assert_eq!(one("   a = 1"), "a = 1");
    assert_eq!(one("  \ta"), "\ta");
}
