use orchestra::executor::{
    action_for, apply_line_command, batch_len, record_for, resolve_path, Batch, Status, Step, CMD,
};
use orchestra::lines::{File, LineError};
use orchestra::parser::{parse_command, parse_script};

#[test]
fn batch_stops_after_the_first_callback() {
    let cs = parse_script("COMMENTS \"a\"\nRUN \"ls\"\nCALLBACK \"next\"\nCOMMENTS \"c\"\nRUN \"rm x\"");
    assert_eq!(cs.len(), 5);
    assert_eq!(batch_len(&cs), 3);
}

#[test]
fn batch_without_callback_runs_whole() {
    let cs = parse_script("COMMENTS \"a\"\nRUN \"ls\"");
    assert_eq!(batch_len(&cs), 2);
    assert_eq!(batch_len(&Vec::new()), 0);
}

#[test]
fn paths_are_taken_against_the_root() {
    assert_eq!(resolve_path("proj", "a.txt"), "proj/a.txt");
    assert_eq!(resolve_path("proj/", "a.txt"), "proj/a.txt");
    assert_eq!(resolve_path("proj", "/etc/hosts"), "/etc/hosts");
    assert_eq!(resolve_path("", "a.txt"), "a.txt");
}

#[test]
fn each_command_asks_for_its_step() {
    let cases = [
        ("COMMENTS \"x\"", Step::Record, ""),
        ("CALLBACK \"x\"", Step::Record, ""),
        ("what", Step::Record, ""),
        ("CREATE DIR \"d\"", Step::MakeDir, "proj/d"),
        ("CREATE FILE \"f\"", Step::MakeFile, "proj/f"),
        ("OPEN DIR \"/abs\"", Step::ListDir, "/abs"),
        ("OPEN FILE \"f\"", Step::ShowFile, "proj/f"),
        ("EDIT FILE \"f\" LINE 1 PUT \"x\"", Step::ChangeLines, "proj/f"),
        ("EDIT DIR \"f\" LINE 1 PUT \"x\"", Step::Skip, ""),
        ("INSERT FILE \"f\" LINE 1 INSERT \"x\"", Step::ChangeLines, "proj/f"),
        ("DELETE FILE \"f\" LINE 1", Step::ChangeLines, "proj/f"),
        ("RUN \"echo hi\"", Step::Shell, "echo hi"),
    ];
    for (line, step, target) in cases {
        let a = action_for(&parse_command(line), "proj");
        assert_eq!(a.step, step, "{}", line);
        assert_eq!(a.target, target, "{}", line);
    }
}

#[test]
fn line_commands_change_the_loaded_file() {
    let mut f = File::from_lines(
        "a.txt".to_string(),
        "proj/a.txt".to_string(),
        vec!["one".to_string(), "two".to_string()],
        Some("proj".to_string()),
        8,
    );
    assert_eq!(apply_line_command(&parse_command("EDIT FILE \"a.txt\" LINE 2 PUT \"TWO\""), &mut f), Ok(()));
    assert_eq!(apply_line_command(&parse_command("INSERT FILE \"a.txt\" LINE 1 INSERT \"zero\""), &mut f), Ok(()));
    assert_eq!(
        apply_line_command(&parse_command("DELETE FILE \"a.txt\" LINE 5"), &mut f),
        Err(LineError::PastEnd)
    );
    let texts: Vec<&str> = f.data_line.iter().map(|l| l.data.as_str()).collect();
    assert_eq!(texts, vec!["zero", "one", "TWO"]);
}

#[test]
fn records_carry_what_was_seen() {
    match record_for(&parse_command("RUN \"sleep 200\""), "Command is running in background".to_string(), 0) {
        CMD::Run { command, output, exit_code } => {
            assert_eq!(command, "sleep 200");
            assert_eq!(output, "Command is running in background");
            assert_eq!(exit_code, 0);
        }
        _ => panic!("expected a run record"),
    }
    match record_for(&parse_command("OPEN FILE \"a.txt\""), "1 | one".to_string(), 0) {
        CMD::OpenFile { path, content } => {
            assert_eq!(path, "a.txt");
            assert_eq!(content, "1 | one");
        }
        _ => panic!("expected an open-file record"),
    }
    match record_for(&parse_command("DELETE FILE \"a.txt\" LINE 3"), String::new(), 0) {
        CMD::DeleteFile { path, line } => {
            assert_eq!(path, "a.txt");
            assert_eq!(line, 3);
        }
        _ => panic!("expected a delete record"),
    }
    assert!(matches!(record_for(&parse_command("CALLBACK \"go\""), String::new(), 0), CMD::Callback(m) if m == "go"));
    assert!(matches!(record_for(&parse_command("??"), String::new(), 0), CMD::Unknown(m) if m == "??"));
}

#[test]
fn status_keeps_records_in_order() {
    let mut s = Status::new();
    assert!(s.running.is_empty());
    s.add(CMD::Comments("a".to_string()));
    s.add(CMD::Callback("b".to_string()));
    assert_eq!(s.running.len(), 2);
    assert!(matches!(&s.running[1], CMD::Callback(m) if m == "b"));
}

#[test]
fn batch_records_up_to_the_callback() {
    let mut b = Batch::new("COMMENTS \"a\"\nEDIT DIR \"d\" LINE 1 PUT \"x\"\nRUN \"ls\"\nCALLBACK \"go\"\nCOMMENTS \"late\"");
    assert_eq!(b.commands.len(), 5);
    assert_eq!(b.end, 4);
    let mut steps = Vec::new();
    while let Some(a) = b.next_action("proj") {
        steps.push(a.step);
        let seen = if a.step == Step::Shell { "out".to_string() } else { String::new() };
        b.complete(seen, 3);
    }
    assert!(b.is_finished());
    assert_eq!(steps, vec![Step::Record, Step::Skip, Step::Shell, Step::Record]);
    assert_eq!(b.status.running.len(), 3);
    assert!(matches!(&b.status.running[0], CMD::Comments(t) if t == "a"));
    assert!(matches!(&b.status.running[1], CMD::Run { command, output, exit_code: 3 } if command == "ls" && output == "out"));
    assert!(matches!(&b.status.running[2], CMD::Callback(t) if t == "go"));
}
