use orchestra::parser::{parse_command, parse_script, CommandType, CreateType};

#[test]
fn comments_keep_their_text() {
    let c = parse_command("  COMMENTS \"Opening project\"  ");
    assert_eq!(c.command_type, CommandType::Comments);
    assert_eq!(c.body, "Opening project");
    assert!(c.subcommands.is_empty());
}

#[test]
fn last_argument_runs_to_the_last_quote() {
    let c = parse_command("COMMENTS \"say \"hi\" now\"");
    assert_eq!(c.body, "say \"hi\" now");
}

#[test]
fn create_and_open_take_kind_and_path() {
    let c = parse_command("CREATE DIR \"src/new\"");
    assert_eq!(c.command_type, CommandType::Create);
    assert_eq!(c.create_type, Some(CreateType::Dir));
    assert_eq!(c.file.as_deref(), Some("src/new"));
    assert_eq!(c.body, "CREATE DIR \"src/new\"");
    let o = parse_command("OPEN FILE \"a.txt\"");
    assert_eq!(o.command_type, CommandType::Open);
    assert_eq!(o.create_type, Some(CreateType::File));
    assert_eq!(o.file.as_deref(), Some("a.txt"));
}

#[test]
fn insert_takes_path_line_and_text() {
    let c = parse_command("INSERT FILE \"a.txt\" LINE 1 INSERT \"zero\"");
    assert_eq!(c.command_type, CommandType::Insert);
    assert_eq!(c.create_type, Some(CreateType::File));
    assert_eq!(c.file.as_deref(), Some("a.txt"));
    assert_eq!(c.line, Some(1));
    assert_eq!(c.content.as_deref(), Some("zero"));
}

#[test]
fn edit_takes_path_line_and_text() {
    let c = parse_command("EDIT FILE \"a.txt\" LINE 2 PUT \"TWO\"");
    assert_eq!(c.command_type, CommandType::Edit);
    assert_eq!(c.file.as_deref(), Some("a.txt"));
    assert_eq!(c.line, Some(2));
    assert_eq!(c.content.as_deref(), Some("TWO"));
}

#[test]
fn delete_takes_path_and_line() {
    let c = parse_command("DELETE FILE \"a.txt\" LINE 5");
    assert_eq!(c.command_type, CommandType::Delete);
    assert_eq!(c.file.as_deref(), Some("a.txt"));
    assert_eq!(c.line, Some(5));
    assert_eq!(c.content, None);
}

#[test]
fn run_and_callback_keep_their_text() {
    let r = parse_command("RUN \"cargo test\"");
    assert_eq!(r.command_type, CommandType::Run);
    assert_eq!(r.body, "cargo test");
    let c = parse_command("CALLBACK \"done\"");
    assert_eq!(c.command_type, CommandType::Callback);
    assert_eq!(c.body, "done");
}

#[test]
fn malformed_lines_become_unknown() {
    for line in ["COMMENTS \"unterminated", "OPEN DIRX \"a\"", "hello", "DELETE FILE \"a\" LINE x", "RUN\"x\""] {
        let c = parse_command(line);
        assert_eq!(c.command_type, CommandType::Unknown, "{}", line);
        assert_eq!(c.body, line.trim());
    }
}

#[test]
fn oversized_line_number_reads_as_zero() {
    let c = parse_command("DELETE FILE \"a\" LINE 999999999999999999999999");
    assert_eq!(c.command_type, CommandType::Delete);
    assert_eq!(c.line, Some(0));
}

#[test]
fn script_skips_blank_lines() {
    let cs = parse_script("COMMENTS \"a\"\n\n   \r\nRUN \"ls\"\r\nCALLBACK \"b\"\n");
    let kinds: Vec<CommandType> = cs.iter().map(|c| c.command_type).collect();
    assert_eq!(kinds, vec![CommandType::Comments, CommandType::Run, CommandType::Callback]);
    assert_eq!(cs[1].body, "ls");
    assert!(parse_script("").is_empty());
}

#[test]
fn unicode_text_is_kept() {
    let c = parse_command("COMMENTS \"héllo → wörld\"");
    assert_eq!(c.body, "héllo → wörld");
}
