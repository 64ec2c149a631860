use orchestra::lines::{File, LineError};

fn file_of(texts: &[&str]) -> File {
    let lines: Vec<String> = texts.iter().map(|t| t.to_string()).collect();
    File::from_lines(
        "a.txt".to_string(),
        "proj/a.txt".to_string(),
        lines,
        Some("proj".to_string()),
        8,
    )
}

fn texts(f: &File) -> Vec<String> {
    f.data_line.iter().map(|l| l.data.clone()).collect()
}

fn numbers(f: &File) -> Vec<usize> {
    f.data_line.iter().map(|l| l.number).collect()
}

#[test]
fn edit_replaces_second_line() {
    let mut f = file_of(&["one", "two"]);
    f.edit_line(2, "TWO");
    assert_eq!(texts(&f), vec!["one", "TWO"]);
    assert_eq!(numbers(&f), vec![1, 2]);
}

#[test]
fn insert_at_first_line_shifts_down() {
    let mut f = file_of(&["one", "two"]);
    assert_eq!(f.insert_line(1, "zero"), Ok(()));
    assert_eq!(texts(&f), vec!["zero", "one", "two"]);
    assert_eq!(numbers(&f), vec![1, 2, 3]);
}

#[test]
fn delete_past_end_is_refused() {
    let mut f = file_of(&["one", "two"]);
    assert_eq!(f.delete_line(5), Err(LineError::PastEnd));
    assert_eq!(texts(&f), vec!["one", "two"]);
    assert_eq!(numbers(&f), vec![1, 2]);
}

#[test]
fn line_zero_is_refused_for_insert_and_delete() {
    let mut f = file_of(&["one"]);
    assert_eq!(f.insert_line(0, "x"), Err(LineError::ZeroLine));
    assert_eq!(f.delete_line(0), Err(LineError::ZeroLine));
    assert_eq!(texts(&f), vec!["one"]);
}

#[test]
fn delete_middle_line_renumbers() {
    let mut f = file_of(&["a", "b", "c"]);
    assert_eq!(f.delete_line(2), Ok(()));
    assert_eq!(texts(&f), vec!["a", "c"]);
    assert_eq!(numbers(&f), vec![1, 2]);
}

#[test]
fn edit_past_end_pads_with_empty_lines() {
    let mut f = file_of(&["one"]);
    f.edit_line(4, "four");
    assert_eq!(texts(&f), vec!["one", "", "", "four"]);
    assert_eq!(numbers(&f), vec![1, 2, 3, 4]);
}

#[test]
fn edit_line_zero_appends() {
    let mut f = file_of(&["one"]);
    f.edit_line(0, "tail");
    assert_eq!(texts(&f), vec!["one", "tail"]);
    assert_eq!(numbers(&f), vec![1, 2]);
}

#[test]
fn insert_past_end_pads_then_appends() {
    let mut f = file_of(&["one"]);
    assert_eq!(f.insert_line(4, "four"), Ok(()));
    assert_eq!(texts(&f), vec!["one", "", "", "four"]);
    assert_eq!(numbers(&f), vec![1, 2, 3, 4]);
}

#[test]
fn insert_then_delete_restores_lines() {
    let mut f = file_of(&["a", "b", "c"]);
    assert_eq!(f.insert_line(2, "new"), Ok(()));
    assert_eq!(f.delete_line(2), Ok(()));
    assert_eq!(texts(&f), vec!["a", "b", "c"]);
    assert_eq!(numbers(&f), vec![1, 2, 3]);
}

#[test]
fn numbering_holds_after_mixed_operations() {
    let mut f = file_of(&[]);
    f.add_line("x");
    assert_eq!(f.insert_line(1, "w"), Ok(()));
    f.edit_line(5, "e");
    assert_eq!(f.delete_line(3), Ok(()));
    assert_eq!(texts(&f), vec!["w", "x", "", "e"]);
    assert_eq!(numbers(&f), vec![1, 2, 3, 4]);
}

#[test]
fn render_lines_numbers_each_line() {
    let f = file_of(&["fn main() {", "}"]);
    assert_eq!(f.render_lines(), "1 | fn main() {\n2 | }");
    assert_eq!(file_of(&[]).render_lines(), "");
}

#[test]
fn reload_takes_fresh_copy_only_with_parent() {
    let mut f = file_of(&["old"]);
    f.reload(file_of(&["new"]));
    assert_eq!(texts(&f), vec!["new"]);
    let mut lone = File::from_lines("b".to_string(), "b".to_string(), vec!["keep".to_string()], None, 4);
    lone.reload(file_of(&["new"]));
    assert_eq!(texts(&lone), vec!["keep"]);
}
