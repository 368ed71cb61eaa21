use roost::print_line_helper;

#[test]
fn ruler_of_two_characters() {
    let out = print_line_helper("ab".to_string());
    assert_eq!(out, "────\n0 1 \na b \n────\n");
}

#[test]
fn ruler_columns_share_centers() {
    let line = "abcdefghijk";
    let out = print_line_helper(line.to_string());
    let rows: Vec<&str> = out.split('\n').collect();
    assert_eq!(rows.len(), 5);
    let width = 3;
    let index_row: Vec<char> = rows[1].chars().collect();
    let char_row: Vec<char> = rows[2].chars().collect();
    assert_eq!(index_row.len(), width * line.len());
    assert_eq!(char_row.len(), width * line.len());
    for (i, c) in line.chars().enumerate() {
        let idx: String = index_row[i * width..(i + 1) * width].iter().collect();
        let ch: String = char_row[i * width..(i + 1) * width].iter().collect();
        assert_eq!(idx.trim(), i.to_string());
        assert_eq!(ch, format!(" {} ", c));
    }
    assert_eq!(rows[1], " 0  1  2  3  4  5  6  7  8  9 10 ");
    assert_eq!(rows[0].chars().count(), width * line.len());
    assert!(rows[0].chars().all(|c| c == '─'));
}

#[test]
fn ruler_counts_characters_not_bytes() {
    let out = print_line_helper("é€".to_string());
    assert_eq!(out, "────\n0 1 \né € \n────\n");
}

#[test]
fn ruler_of_empty_line() {
    assert_eq!(print_line_helper(String::new()), "\n\n\n\n");
}
