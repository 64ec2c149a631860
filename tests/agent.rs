use orchestra::agent::{request_message, Agent, Turn};
use orchestra::executor::{Status, CMD};
use orchestra::model::{Employee, Promt};
use orchestra::text::{decimal_text, signed_text};
use orchestra::tree::Dir;

fn promt() -> Promt {
    Promt { message: Some("do it".to_string()), system: Some("sys".to_string()) }
}

#[test]
fn feedback_renders_each_record() {
    let a = Agent::new(promt(), "log/a.log".to_string());
    let cmds = vec![
        CMD::Comments("start".to_string()),
        CMD::EditFile { path: "a.txt".to_string(), line: 2, content: "TWO".to_string() },
        CMD::DeleteFile { path: "a.txt".to_string(), line: 12 },
        CMD::Run { command: "false".to_string(), output: "".to_string(), exit_code: -1 },
        CMD::Callback("next".to_string()),
    ];
    assert_eq!(
        a.collect_execution_feedback(&cmds),
        "💬 Comment: start\n✏️ Edited file: a.txt at line 2 with: TWO\n🗑️ Deleted line 12 from file: a.txt\n🚀 Executed command: false\n📤 Output (exit code -1):\n\n↩️ Callback: next"
    );
    assert_eq!(a.collect_execution_feedback(&vec![]), "No commands were executed.");
}

#[test]
fn new_agent_holds_the_system_message() {
    let a = Agent::new(promt(), "log/a.log".to_string());
    assert_eq!(a.current_script, 1);
    assert_eq!(a.conversation_history.len(), 1);
    assert_eq!(a.conversation_history[0].role, "system");
    assert_eq!(a.conversation_history[0].content, "sys");
    let b = Agent::new(Promt { message: None, system: None }, String::new());
    assert_eq!(
        b.conversation_history[0].content,
        "You are an autonomous coding agent. Respond only with DSL commands. Not md format."
    );
}

#[test]
fn callback_asks_for_another_script() {
    let mut a = Agent::new(promt(), "log/a.log".to_string());
    a.begin();
    a.accept_script("COMMENTS \"x\"\nCALLBACK \"more\"".to_string());
    let mut s = Status::new();
    s.add(CMD::Comments("x".to_string()));
    s.add(CMD::Callback("more".to_string()));
    match a.run(&s) {
        Turn::Continue { callback, feedback } => {
            assert_eq!(callback, "more");
            assert_eq!(feedback, "💬 Comment: x\n↩️ Callback: more");
        }
        Turn::Finish => panic!("expected another turn"),
    }
    assert_eq!(a.current_script, 2);
    let roles: Vec<&str> = a.conversation_history.iter().map(|m| m.role.as_str()).collect();
    assert_eq!(roles, vec!["system", "user", "assistant", "user"]);
    assert_eq!(a.conversation_history[1].content, "do it");
    assert_eq!(
        a.conversation_history[3].content,
        request_message("💬 Comment: x\n↩️ Callback: more", "more")
    );
    assert!(a.conversation_history[3].content.starts_with("=== Execution Results ===\n💬 Comment: x"));
}

#[test]
fn no_callback_ends_the_run() {
    let mut a = Agent::new(promt(), "log/a.log".to_string());
    a.begin();
    let mut s = Status::new();
    s.add(CMD::Comments("x".to_string()));
    assert!(matches!(a.run(&s), Turn::Finish));
    assert_eq!(a.current_script, 1);
    assert_eq!(a.conversation_history.len(), 2);
}

#[test]
fn promt_names_the_operator_and_task() {
    let dir = Dir::new("proj".to_string(), "proj".to_string(), vec![], None);
    let staff = vec![
        Employee { dir: "d1".to_string(), name: "Ann".to_string(), task: "dev".to_string() },
        Employee { dir: "d2".to_string(), name: "Bob".to_string(), task: "qa".to_string() },
    ];
    let p = Promt::new("Bob".to_string(), dir, staff, "  fix bug  ".to_string());
    assert_eq!(p.message.as_deref(), Some("=== Task ===\n  fix bug"));
    let sys = p.system.unwrap();
    assert!(sys.starts_with("Filesystem:\nproj\n\n=== Agent Info ===\nName: Bob\nRole: qa\nLogDir: \"d2/log\""));
    assert!(sys.ends_with("CALLBACK \"Tests passed, task complete\""));
}

#[test]
fn numbers_render_in_decimal() {
    assert_eq!(decimal_text(0), "0");
    assert_eq!(decimal_text(1207), "1207");
    assert_eq!(signed_text(-42), "-42");
    assert_eq!(signed_text(i32::MIN), "-2147483648");
}
