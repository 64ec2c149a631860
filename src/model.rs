use vstd::prelude::*;

use crate::parser::{trim_text, trimmed};
use crate::tree::Dir;

verus! {

/// The project section of the configuration.
pub struct ProjectConfig {
    pub dir: String,
    pub ignore_dir: Vec<String>,
    pub max_size: u64,
}

/// An operator that a task can be given to.
pub struct Employee {
    pub dir: String,
    pub name: String,
    pub task: String,
}

/// A manager of a team of operators.
pub struct Manager {
    pub dir: String,
    pub name: String,
    pub level: String,
    pub team: Vec<String>,
}

/// The whole configuration.
pub struct Config {
    pub project: ProjectConfig,
    pub employee: Vec<Employee>,
    pub manager: Vec<Manager>,
}

/// The two prompts a run starts from: the task, and the system instructions.
pub struct Promt {
    pub message: Option<String>,
    pub system: Option<String>,
}

/// The reference of the command language, with its rules and a worked example.
pub const COMMAND_REFERENCE: &'static str = "=== Orchestra Commands ===

📂 DIRECTORY:
  OPEN DIR \"path\"          - view directory structure
  CREATE DIR \"path\"        - create new directory

📄 FILE:
  OPEN FILE \"path\"         - view file content
  CREATE FILE \"path\"       - create new file
  DELETE FILE \"path\" LINE n - delete line from file

✏️ EDIT:
  EDIT FILE \"path\" LINE n PUT \"text\"     - replace line n
  INSERT FILE \"path\" LINE n INSERT \"text\" - insert at line n (shifts down)

🔧 EXECUTION:
  RUN \"command\"            - execute shell command

💬 META:
  COMMENTS \"text\"          - document current action
  CALLBACK \"message\"       - report completion/next step

=== Rules ===
1. ALWAYS use CALLBACK after read operations (OPEN)
2. ALWAYS use CALLBACK before write operations (EDIT, INSERT, DELETE, CREATE)
3. Mark code with comment [YourName]
4. Open files/dirs before editing
5. Be concise - no explanations, just actions

=== Example ===
COMMENTS \"Opening project structure\"
OPEN DIR \"project\"
CALLBACK \"Viewed project, will open main.py\"

COMMENTS \"Reading main.py\"
OPEN FILE \"project/main.py\"
CALLBACK \"File has 5 lines, need to add import\"

COMMENTS \"Adding import statement\"
INSERT FILE \"project/main.py\" LINE 1 INSERT \"import math  #[Agent]\"
CALLBACK \"Import added, will add function\"

COMMENTS \"Creating calculate function\"
EDIT FILE \"project/main.py\" LINE 3 PUT \"def calculate(x):  //[Agent]\"
INSERT FILE \"project/main.py\" LINE 4 INSERT \"    return math.sqrt(x)  #[Agent]\"
CALLBACK \"Function ready, will test\"

COMMENTS \"Running tests\"
RUN \"python -m pytest tests/\"
CALLBACK \"Tests passed, task complete\"
";

/// The first operator in `es` named `name`, or `es.len()`.
pub open spec fn first_named(es: Seq<Employee>, name: Seq<char>, i: int) -> int
    decreases es.len() - i,
{
    if 0 <= i < es.len() && es[i].name@ != name {
        first_named(es, name, i + 1)
    } else {
        i
    }
}

/// The operator section of the system instructions.
pub open spec fn agent_info(e: Employee) -> Seq<char> {
    "=== Agent Info ===\nName: "@ + e.name@ + "\nRole: "@ + e.task@ + "\nLogDir: \""@ + e.dir@
        + "/log\"\nReportDir: \""@ + e.dir@ + "/report\"\nComment Mark: ["@ + e.name@
        + "] use syntax for language in request and if need in function and class\n"@
}

/// The task section of the prompt.
pub open spec fn task_section(task: Seq<char>) -> Seq<char> {
    "=== Task ===\n"@ + task + "\n"@
}

/// The system instructions: the project's listing, the operator section and
/// the command reference.
pub open spec fn system_text(listing: Seq<char>, e: Employee) -> Seq<char> {
    listing + "\n"@ + agent_info(e) + "\n"@ + COMMAND_REFERENCE@
}

impl Promt {
    /// The prompts for a task given to the operator named `curent_employee`,
    /// who must be among `employee`: the first one so named is taken.
    pub fn new(curent_employee: String, dir: Dir, employee: Vec<Employee>, task_msg: String) -> (p: Promt)
        requires
            exists|i: int| 0 <= i < employee@.len() && (#[trigger] employee@[i]).name@ == curent_employee@,
        ensures
            p.message is Some,
            p.message->0@ == trimmed(task_section(task_msg@)),
            p.system is Some,
            p.system->0@ == trimmed(system_text(
                dir.printed(),
                employee@[first_named(employee@, curent_employee@, 0)],
            )),
    {
        let n = employee.len();
        let mut k: usize = 0;
        while k < n && employee[k].name != curent_employee
            invariant
                n == employee@.len(),
                0 <= k <= n,
                first_named(employee@, curent_employee@, k as int) == first_named(employee@, curent_employee@, 0),
                forall|j: int| 0 <= j < k ==> employee@[j].name@ != curent_employee@,
            decreases n - k,
        {
            k = k + 1;
        }
        proof {
            if k == n {
                let i = choose|i: int| 0 <= i < employee@.len() && (#[trigger] employee@[i]).name@ == curent_employee@;
                assert(employee@[i].name@ != curent_employee@);
            }
        }
        let e = &employee[k];
        let listing = dir.pretty_print();
        let mut info = String::from_str("=== Agent Info ===\nName: ");
        info.append(e.name.as_str());
        info.append("\nRole: ");
        info.append(e.task.as_str());
        info.append("\nLogDir: \"");
        info.append(e.dir.as_str());
        info.append("/log\"\nReportDir: \"");
        info.append(e.dir.as_str());
        info.append("/report\"\nComment Mark: [");
        info.append(e.name.as_str());
        info.append("] use syntax for language in request and if need in function and class\n");
        let mut task = String::from_str("=== Task ===\n");
        task.append(task_msg.as_str());
        task.append("\n");
        let mut system = listing;
        system.append("\n");
        system.append(info.as_str());
        system.append("\n");
        system.append(COMMAND_REFERENCE);
        assert(system@ =~= system_text(dir.printed(), employee@[k as int]));
        Promt {
            message: Some(trim_text(task.as_str())),
            system: Some(trim_text(system.as_str())),
        }
    }
}

} // verus!
