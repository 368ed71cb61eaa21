use roost::ErrorData;

fn record(line: &str, spos: usize, epos: usize, lineno: usize, errnum: usize) -> ErrorData {
    ErrorData {
        summary: "type mismatch".to_string(),
        line: line.to_string(),
        message: "expected integer, found string".to_string(),
        spos,
        epos,
        lineno,
        path: "main.rs".to_string(),
        errnum,
    }
}

#[test]
fn errid_is_padded_to_four_digits() {
    assert_eq!(record("x", 0, 1, 1, 69).get_errid(), "E0069");
    assert_eq!(record("x", 0, 1, 1, 0).get_errid(), "E0000");
    assert_eq!(record("x", 0, 1, 1, 1234).get_errid(), "E1234");
}

#[test]
fn errid_grows_past_four_digits() {
    assert_eq!(record("x", 0, 1, 1, 123456).get_errid(), "E123456");
    assert_eq!(
        record("x", 0, 1, 1, usize::MAX).get_errid(),
        format!("E{}", usize::MAX)
    );
}

#[test]
fn end_to_end_type_mismatch() {
    // The line holds sixteen characters, so the span runs to its end at 16.
    let e = record("let x = 1 + \"a\";", 8, 16, 3, 69);
    let expected = [
        "\x1b[1m\x1b[31merror[E0069]\x1b[39m\x1b[0m\x1b[1m: type mismatch\n\x1b[0m",
        " \x1b[34m--> \x1b[39mmain.rs:3:9\n",
        "\x1b[34m  | \x1b[39m\n",
        "\x1b[34m3 | \x1b[39mlet x = \x1b[1m\x1b[31m1 + \"a\";\x1b[39m\x1b[0m\n",
        "\x1b[34m  | \x1b[39m        \x1b[1m\x1b[31m^^^^^^^^\x1b[39m\x1b[0m ",
        "\x1b[1m\x1b[31mexpected integer, found string\x1b[39m\x1b[0m\n",
        "\x1b[34m  | \x1b[39m",
    ]
    .concat();
    assert_eq!(e.print(), expected);
}

#[test]
fn caret_count_matches_span() {
    let e = record("abcdef", 2, 5, 12, 1);
    let out = e.print();
    let rows: Vec<&str> = out.split('\n').collect();
    assert_eq!(rows.len(), 6);
    let caret_row = rows[4];
    assert_eq!(caret_row.matches('^').count(), 3);
    assert!(caret_row.starts_with("\x1b[34m   | \x1b[39m  \x1b[1m\x1b[31m^^^\x1b[39m"));
    let source_row = rows[3];
    assert!(source_row.starts_with("\x1b[34m12 | \x1b[39mab\x1b[1m\x1b[31mcde\x1b[39m"));
    let caret_at = caret_row.find('^').unwrap();
    assert_eq!(&source_row[caret_at..caret_at + 3], "cde");
}

#[test]
fn span_covering_whole_line() {
    let e = record("ab", 0, 2, 7, 5);
    let out = e.print();
    assert!(out.contains("main.rs:7:1\n"));
    assert!(out.contains("\x1b[34m7 | \x1b[39m\x1b[1m\x1b[31mab\x1b[39m\x1b[0m\n"));
    assert!(out.contains("\x1b[34m  | \x1b[39m\x1b[1m\x1b[31m^^\x1b[39m\x1b[0m "));
}

#[test]
fn multibyte_line_is_sliced_by_character() {
    let e = record("é=ü+1", 2, 3, 1, 69);
    let out = e.print();
    assert!(out.contains("\x1b[34m1 | \x1b[39mé=\x1b[1m\x1b[31mü\x1b[39m\x1b[0m+1\n"));
    assert!(out.contains("\x1b[34m  | \x1b[39m  \x1b[1m\x1b[31m^\x1b[39m\x1b[0m "));
    assert!(out.contains("main.rs:1:3\n"));
}

#[test]
fn line_number_zero_and_wide_gutter() {
    let e = record("x", 0, 1, 0, 69);
    assert!(e.print().contains("\x1b[34m0 | \x1b[39m"));
    let e = record("x", 0, 1, 12345, 69);
    let out = e.print();
    assert!(out.contains("     \x1b[34m--> \x1b[39mmain.rs:12345:1\n"));
    assert!(out.ends_with("\x1b[34m      | \x1b[39m"));
}

#[test]
fn end_to_end_type_mismatch_with_escaped_quotes() {
    // The line as typed with its backslashes: eighteen characters.
    let e = record("let x = 1 + \\\"a\\\";", 8, 17, 3, 69);
    let expected = [
        "\x1b[1m\x1b[31merror[E0069]\x1b[39m\x1b[0m\x1b[1m: type mismatch\n\x1b[0m",
        " \x1b[34m--> \x1b[39mmain.rs:3:9\n",
        "\x1b[34m  | \x1b[39m\n",
        "\x1b[34m3 | \x1b[39mlet x = \x1b[1m\x1b[31m1 + \\\"a\\\"\x1b[39m\x1b[0m;\n",
        "\x1b[34m  | \x1b[39m        \x1b[1m\x1b[31m^^^^^^^^^\x1b[39m\x1b[0m ",
        "\x1b[1m\x1b[31mexpected integer, found string\x1b[39m\x1b[0m\n",
        "\x1b[34m  | \x1b[39m",
    ]
    .concat();
    assert_eq!(e.print(), expected);
}

#[test]
fn empty_span_at_line_end_renders_no_caret() {
    let e = record("ab", 2, 2, 1, 69);
    let out = e.print();
    assert!(out.contains("main.rs:1:3\n"));
    assert!(out.contains("\x1b[34m1 | \x1b[39mab\x1b[1m\x1b[31m\x1b[39m\x1b[0m\n"));
    assert_eq!(out.matches('^').count(), 0);
}
