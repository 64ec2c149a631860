use vstd::prelude::*;

use crate::executor::{Status, CMD};
use crate::model::Promt;
use crate::parser::text_view;
use crate::text::{decimal, decimal_text, signed_decimal, signed_text};

verus! {

/// One message of the conversation with the model backend.
pub struct Message {
    pub role: String,
    pub content: String,
}

/// What follows a batch.
pub enum Turn {
    /// Ask the backend for the next script; the request is already in the
    /// conversation. `callback` is the batch's callback text, `feedback` the
    /// rendering of its run record.
    Continue { callback: String, feedback: String },
    /// The batch held no callback: the run is over.
    Finish,
}

/// The conversation state of one run, with the prompts it started from.
pub struct Agent {
    pub promt: Promt,
    pub current_script: usize,
    pub log_path: String,
    pub conversation_history: Vec<Message>,
}

/// The feedback line for one record.
pub open spec fn entry_text(c: CMD) -> Seq<char> {
    match c {
        CMD::Comments(t) => "💬 Comment: "@ + t@,
        CMD::CreateDir(p) => "📁 Created directory: "@ + p@,
        CMD::CreateFile(p) => "📄 Created file: "@ + p@,
        CMD::OpenDir { path, content } => "📂 Opened directory: "@ + path@ + "\n"@ + content@,
        CMD::OpenFile { path, content } => "📄 Opened file: "@ + path@ + "\n"@ + content@,
        CMD::EditFile { path, line, content } => "✏️ Edited file: "@ + path@ + " at line "@
            + decimal(line as nat) + " with: "@ + content@,
        CMD::InsertFile { path, line, content } => "➕ Inserted into file: "@ + path@
            + " at line "@ + decimal(line as nat) + ": "@ + content@,
        CMD::DeleteFile { path, line } => "🗑️ Deleted line "@ + decimal(line as nat)
            + " from file: "@ + path@,
        CMD::Run { command, output, exit_code } => "🚀 Executed command: "@ + command@
            + "\n📤 Output (exit code "@ + signed_decimal(exit_code as int) + "):\n"@ + output@,
        CMD::Callback(m) => "↩️ Callback: "@ + m@,
        CMD::Unknown(t) => "❓ Unknown command: "@ + t@,
    }
}

/// The feedback lines of the first `k` records, joined by newlines.
pub open spec fn joined_entries(cs: Seq<CMD>, k: int) -> Seq<char>
    decreases k,
{
    if k <= 0 || k > cs.len() {
        Seq::empty()
    } else if k == 1 {
        entry_text(cs[0])
    } else {
        joined_entries(cs, k - 1) + "\n"@ + entry_text(cs[k - 1])
    }
}

/// The feedback for a run record.
pub open spec fn feedback_text(cs: Seq<CMD>) -> Seq<char> {
    if cs.len() == 0 {
        "No commands were executed."@
    } else {
        joined_entries(cs, cs.len() as int)
    }
}

/// The last callback text in `cs[0..k]`, if any.
pub open spec fn last_callback(cs: Seq<CMD>, k: int) -> Option<Seq<char>>
    decreases k,
{
    if k <= 0 || k > cs.len() {
        None
    } else if cs[k - 1] is Callback {
        Some(cs[k - 1]->Callback_0@)
    } else {
        last_callback(cs, k - 1)
    }
}

/// The user message that asks for the next script.
pub open spec fn request_text(feedback: Seq<char>, callback: Seq<char>) -> Seq<char> {
    "=== Execution Results ===\n"@ + feedback + "\n\n=== Callback ===\n"@ + callback
        + "\n\nContinue the orchestration using same format.\nOutput only commands (no text, no explanations; if you want you can use COMMENTS, no md format)."@
}

/// The system instructions used where the prompt holds none.
pub open spec fn default_system() -> Seq<char> {
    "You are an autonomous coding agent. Respond only with DSL commands. Not md format."@
}

/// The message views of a conversation: role and content.
pub open spec fn transcript(h: Seq<Message>) -> Seq<(Seq<char>, Seq<char>)> {
    h.map_values(|m: Message| (m.role@, m.content@))
}

fn entry_for(c: &CMD) -> (r: String)
    ensures
        r@ == entry_text(*c),
{
    match c {
        CMD::Comments(t) => {
            let mut s = String::from_str("💬 Comment: ");
            s.append(t.as_str());
            s
        },
        CMD::CreateDir(p) => {
            let mut s = String::from_str("📁 Created directory: ");
            s.append(p.as_str());
            s
        },
        CMD::CreateFile(p) => {
            let mut s = String::from_str("📄 Created file: ");
            s.append(p.as_str());
            s
        },
        CMD::OpenDir { path, content } => {
            let mut s = String::from_str("📂 Opened directory: ");
            s.append(path.as_str());
            s.append("\n");
            s.append(content.as_str());
            s
        },
        CMD::OpenFile { path, content } => {
            let mut s = String::from_str("📄 Opened file: ");
            s.append(path.as_str());
            s.append("\n");
            s.append(content.as_str());
            s
        },
        CMD::EditFile { path, line, content } => {
            let mut s = String::from_str("✏️ Edited file: ");
            s.append(path.as_str());
            s.append(" at line ");
            let n = decimal_text(*line);
            s.append(n.as_str());
            s.append(" with: ");
            s.append(content.as_str());
            s
        },
        CMD::InsertFile { path, line, content } => {
            let mut s = String::from_str("➕ Inserted into file: ");
            s.append(path.as_str());
            s.append(" at line ");
            let n = decimal_text(*line);
            s.append(n.as_str());
            s.append(": ");
            s.append(content.as_str());
            s
        },
        CMD::DeleteFile { path, line } => {
            let mut s = String::from_str("🗑️ Deleted line ");
            let n = decimal_text(*line);
            s.append(n.as_str());
            s.append(" from file: ");
            s.append(path.as_str());
            s
        },
        CMD::Run { command, output, exit_code } => {
            let mut s = String::from_str("🚀 Executed command: ");
            s.append(command.as_str());
            s.append("\n📤 Output (exit code ");
            let n = signed_text(*exit_code);
            s.append(n.as_str());
            s.append("):\n");
            s.append(output.as_str());
            s
        },
        CMD::Callback(m) => {
            let mut s = String::from_str("↩️ Callback: ");
            s.append(m.as_str());
            s
        },
        CMD::Unknown(t) => {
            let mut s = String::from_str("❓ Unknown command: ");
            s.append(t.as_str());
            s
        },
    }
}

/// The user message that asks for the next script, from the feedback of the
/// last batch and its callback text.
pub fn request_message(feedback: &str, callback: &str) -> (r: String)
    ensures
        r@ == request_text(feedback@, callback@),
{
    let mut s = String::from_str("=== Execution Results ===\n");
    s.append(feedback);
    s.append("\n\n=== Callback ===\n");
    s.append(callback);
    s.append("\n\nContinue the orchestration using same format.\nOutput only commands (no text, no explanations; if you want you can use COMMENTS, no md format).");
    s
}

impl Agent {
    /// A new run whose conversation holds the system instructions of `promt`
    /// (or a default where it has none), logging to `log_path`.
    pub fn new(promt: Promt, log_path: String) -> (a: Agent)
        ensures
            a.current_script == 1,
            a.log_path == log_path,
            a.promt == promt,
            transcript(a.conversation_history@) == seq![(
                "system"@,
                match promt.system {
                    Some(s) => s@,
                    None => default_system(),
                },
            )],
    {
        let system = match &promt.system {
            Some(s) => s.clone(),
            None => String::from_str("You are an autonomous coding agent. Respond only with DSL commands. Not md format."),
        };
        let mut conversation_history: Vec<Message> = Vec::new();
        conversation_history.push(Message { role: String::from_str("system"), content: system });
        let a = Agent { promt, current_script: 1, log_path, conversation_history };
        assert(transcript(a.conversation_history@) =~= seq![(
            "system"@,
            match a.promt.system {
                Some(s) => s@,
                None => default_system(),
            },
        )]);
        a
    }

    /// Opens the run: the task description of the prompt (empty where it has
    /// none) joins the conversation as a user message.
    pub fn begin(&mut self)
        ensures
            transcript(final(self).conversation_history@) == transcript(old(self).conversation_history@).push((
                "user"@,
                match old(self).promt.message {
                    Some(m) => m@,
                    None => Seq::empty(),
                },
            )),
            final(self).promt == old(self).promt,
            final(self).current_script == old(self).current_script,
            final(self).log_path == old(self).log_path,
    {
        let task = match &self.promt.message {
            Some(m) => m.clone(),
            None => String::new(),
        };
        let ghost before = self.conversation_history@;
        self.conversation_history.push(Message { role: String::from_str("user"), content: task });
        assert(transcript(self.conversation_history@) =~= transcript(before).push(("user"@, task@)));
    }

    /// A script from the backend joins the conversation as an assistant
    /// message.
    pub fn accept_script(&mut self, script: String)
        ensures
            transcript(final(self).conversation_history@) == transcript(old(self).conversation_history@).push(
                ("assistant"@, script@),
            ),
            final(self).promt == old(self).promt,
            final(self).current_script == old(self).current_script,
            final(self).log_path == old(self).log_path,
    {
        let ghost before = self.conversation_history@;
        let ghost text = script@;
        self.conversation_history.push(Message { role: String::from_str("assistant"), content: script });
        assert(transcript(self.conversation_history@) =~= transcript(before).push(("assistant"@, text)));
    }

    /// Renders a run record as feedback for the model: one line per record,
    /// joined by newlines, or a fixed sentence where nothing ran.
    pub fn collect_execution_feedback(&self, commands: &Vec<CMD>) -> (r: String)
        ensures
            r@ == feedback_text(commands@),
    {
        let n = commands.len();
        if n == 0 {
            return String::from_str("No commands were executed.");
        }
        let mut out = String::new();
        let mut i: usize = 0;
        while i < n
            invariant
                n == commands@.len(),
                0 <= i <= n,
                out@ == joined_entries(commands@, i as int),
            decreases n - i,
        {
            if i > 0 {
                out.append("\n");
            }
            let e = entry_for(&commands[i]);
            out.append(e.as_str());
            i = i + 1;
            assert(out@ =~= joined_entries(commands@, i as int));
        }
        out
    }

    /// Decides what follows the batch whose run record is `results`. Where it
    /// holds a callback, the script counter moves on and the request for the
    /// next script, built from the feedback and the last callback's text,
    /// joins the conversation. Where it holds none, the run is over and the
    /// conversation stays as it is.
    pub fn run(&mut self, results: &Status) -> (t: Turn)
        requires
            old(self).current_script < usize::MAX,
        ensures
            final(self).promt == old(self).promt,
            final(self).log_path == old(self).log_path,
            match last_callback(results.running@, results.running@.len() as int) {
                None => {
                    &&& t is Finish
                    &&& *final(self) == *old(self)
                },
                Some(cb) => {
                    &&& t is Continue
                    &&& t->Continue_callback@ == cb
                    &&& t->Continue_feedback@ == feedback_text(results.running@)
                    &&& final(self).current_script == old(self).current_script + 1
                    &&& transcript(final(self).conversation_history@) == transcript(
                        old(self).conversation_history@,
                    ).push(("user"@, request_text(feedback_text(results.running@), cb)))
                },
            },
    {
        let feedback = self.collect_execution_feedback(&results.running);
        let n = results.running.len();
        let mut found: Option<String> = None;
        let mut i: usize = 0;
        while i < n
            invariant
                n == results.running@.len(),
                0 <= i <= n,
                text_view(found) == last_callback(results.running@, i as int),
            decreases n - i,
        {
            if let CMD::Callback(m) = &results.running[i] {
                found = Some(m.clone());
            }
            i = i + 1;
        }
        match found {
            None => Turn::Finish,
            Some(callback) => {
                self.current_script = self.current_script + 1;
                let request = request_message(feedback.as_str(), callback.as_str());
                let ghost before = self.conversation_history@;
                let ghost text = request@;
                self.conversation_history.push(Message { role: String::from_str("user"), content: request });
                assert(transcript(self.conversation_history@) =~= transcript(before).push(("user"@, text)));
                Turn::Continue { callback, feedback }
            },
        }
    }
}


/// A batch without a callback ends the run: `run` then finds no callback,
/// returns `Finish` and leaves the conversation as it was, so no further
/// script is asked for.
pub proof fn lemma_no_callback_finishes(cs: Seq<CMD>)
    requires
        forall|j: int| 0 <= j < cs.len() ==> !(#[trigger] cs[j] is Callback),
    ensures
        last_callback(cs, cs.len() as int) is None,
{
    lemma_no_callback_upto(cs, cs.len() as int);
}

proof fn lemma_no_callback_upto(cs: Seq<CMD>, k: int)
    requires
        0 <= k <= cs.len(),
        forall|j: int| 0 <= j < cs.len() ==> !(#[trigger] cs[j] is Callback),
    ensures
        last_callback(cs, k) is None,
    decreases k,
{
    if k > 0 {
        assert(!(cs[k - 1] is Callback));
        lemma_no_callback_upto(cs, k - 1);
    }
}

} // verus!
