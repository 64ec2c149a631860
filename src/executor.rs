use vstd::prelude::*;

use crate::lines::{deleted, edited, inserted, File, LineError};
use crate::parser::{command_views, parse_script, script, Command, CommandType, CommandView, CreateType};

verus! {

/// What one command did, as the run record keeps it.
pub enum CMD {
    Comments(String),
    CreateDir(String),
    CreateFile(String),
    OpenDir { path: String, content: String },
    OpenFile { path: String, content: String },
    EditFile { path: String, line: usize, content: String },
    InsertFile { path: String, line: usize, content: String },
    DeleteFile { path: String, line: usize },
    Callback(String),
    Run { command: String, output: String, exit_code: i32 },
    Unknown(String),
}

/// The run record of one batch: what each command did, in order.
pub struct Status {
    pub running: Vec<CMD>,
}

impl Status {
    /// An empty run record.
    pub fn new() -> (s: Status)
        ensures
            s.running@.len() == 0,
    {
        Status { running: Vec::new() }
    }

    /// Appends `cmd` to the record.
    pub fn add(&mut self, cmd: CMD)
        ensures
            final(self).running@ == old(self).running@.push(cmd),
    {
        self.running.push(cmd);
    }
}

/// The work a command asks for outside memory.
#[derive(Debug, Clone, Copy, PartialEq, Eq, Structural)]
pub enum Step {
    /// Nothing: the command is only recorded.
    Record,
    /// Create the directory at the target, with its parents, then rebuild the snapshot.
    MakeDir,
    /// Create an empty file at the target, then rebuild the snapshot.
    MakeFile,
    /// Read the directory at the target from disk and list it.
    ListDir,
    /// Read the file at the target from disk and show its numbered lines.
    ShowFile,
    /// Read the file at the target, change its lines, save it, refresh its node.
    ChangeLines,
    /// Run the target as a shell command line in the project root.
    Shell,
    /// Nothing, and nothing is recorded: the command lacks what it needs.
    Skip,
}

/// A step and the path or command line it applies to.
pub struct Action {
    pub step: Step,
    pub target: String,
}

/// `p` taken against the project root `root`: an absolute path as it is, a
/// relative one below the root.
pub open spec fn resolved(root: Seq<char>, p: Seq<char>) -> Seq<char> {
    if p.len() > 0 && p[0] == '/' {
        p
    } else if root.len() == 0 {
        p
    } else if root.last() == '/' {
        root + p
    } else {
        root + "/"@ + p
    }
}

/// The step that a command asks for.
pub open spec fn step_of(c: CommandView) -> Step {
    match c.kind {
        CommandType::Comments | CommandType::Callback | CommandType::Unknown => Step::Record,
        CommandType::Run => Step::Shell,
        CommandType::Create => if c.file is None {
            Step::Skip
        } else {
            match c.create_type {
                Some(CreateType::Dir) => Step::MakeDir,
                Some(CreateType::File) => Step::MakeFile,
                None => Step::Skip,
            }
        },
        CommandType::Open => if c.file is None {
            Step::Skip
        } else {
            match c.create_type {
                Some(CreateType::Dir) => Step::ListDir,
                Some(CreateType::File) => Step::ShowFile,
                None => Step::Skip,
            }
        },
        CommandType::Edit | CommandType::Insert | CommandType::Delete => {
            if c.create_type == Some(CreateType::File) && c.file is Some && c.line is Some && (
            c.kind == CommandType::Delete || c.content is Some) {
                Step::ChangeLines
            } else {
                Step::Skip
            }
        },
    }
}

/// The path or command line that the step of `c` applies to.
pub open spec fn target_of(c: CommandView, root: Seq<char>) -> Seq<char> {
    let s = step_of(c);
    if s == Step::Shell {
        c.body
    } else if s == Step::Record || s == Step::Skip {
        Seq::empty()
    } else {
        resolved(root, c.file->0)
    }
}

/// The number of commands of a batch that run: up to and including the first
/// callback, or all of them where there is none.
pub open spec fn batch_end(cs: Seq<CommandView>) -> int {
    first_callback(cs, 0)
}

/// One past the first callback at or after `i`, or `cs.len()`.
pub open spec fn first_callback(cs: Seq<CommandView>, i: int) -> int
    decreases cs.len() - i,
{
    if i < 0 || i >= cs.len() {
        cs.len() as int
    } else if cs[i].kind == CommandType::Callback {
        i + 1
    } else {
        first_callback(cs, i + 1)
    }
}

/// The record of a command `c` whose step is not `Skip`, given what the
/// outside work showed (`observed`, and `exit_code` for a shell command).
pub open spec fn record_of(r: CMD, c: CommandView, observed: Seq<char>, exit_code: i32) -> bool {
    match c.kind {
        CommandType::Comments => r is Comments && r->Comments_0@ == c.body,
        CommandType::Callback => r is Callback && r->Callback_0@ == c.body,
        CommandType::Unknown => r is Unknown && r->Unknown_0@ == c.body,
        CommandType::Create => if c.create_type == Some(CreateType::Dir) {
            r is CreateDir && r->CreateDir_0@ == c.file->0
        } else {
            r is CreateFile && r->CreateFile_0@ == c.file->0
        },
        CommandType::Open => if c.create_type == Some(CreateType::Dir) {
            r is OpenDir && r->OpenDir_path@ == c.file->0 && r->OpenDir_content@ == observed
        } else {
            r is OpenFile && r->OpenFile_path@ == c.file->0 && r->OpenFile_content@ == observed
        },
        CommandType::Edit => r is EditFile && r->EditFile_path@ == c.file->0
            && r->EditFile_line == c.line->0 && r->EditFile_content@ == c.content->0,
        CommandType::Insert => r is InsertFile && r->InsertFile_path@ == c.file->0
            && r->InsertFile_line == c.line->0 && r->InsertFile_content@ == c.content->0,
        CommandType::Delete => r is DeleteFile && r->DeleteFile_path@ == c.file->0
            && r->DeleteFile_line == c.line->0,
        CommandType::Run => r is Run && r->Run_command@ == c.body && r->Run_output@ == observed
            && r->Run_exit_code == exit_code,
    }
}

/// `r` is a record of the command `c`, whatever its outside work showed.
pub open spec fn record_shape(r: CMD, c: CommandView) -> bool {
    match c.kind {
        CommandType::Comments => r is Comments && r->Comments_0@ == c.body,
        CommandType::Callback => r is Callback && r->Callback_0@ == c.body,
        CommandType::Unknown => r is Unknown && r->Unknown_0@ == c.body,
        CommandType::Create => if c.create_type == Some(CreateType::Dir) {
            r is CreateDir && r->CreateDir_0@ == c.file->0
        } else {
            r is CreateFile && r->CreateFile_0@ == c.file->0
        },
        CommandType::Open => if c.create_type == Some(CreateType::Dir) {
            r is OpenDir && r->OpenDir_path@ == c.file->0
        } else {
            r is OpenFile && r->OpenFile_path@ == c.file->0
        },
        CommandType::Edit => r is EditFile && r->EditFile_path@ == c.file->0
            && r->EditFile_line == c.line->0 && r->EditFile_content@ == c.content->0,
        CommandType::Insert => r is InsertFile && r->InsertFile_path@ == c.file->0
            && r->InsertFile_line == c.line->0 && r->InsertFile_content@ == c.content->0,
        CommandType::Delete => r is DeleteFile && r->DeleteFile_path@ == c.file->0
            && r->DeleteFile_line == c.line->0,
        CommandType::Run => r is Run && r->Run_command@ == c.body,
    }
}

/// The positions below `n` of the commands that leave a record, in order.
pub open spec fn recorded_positions(cs: Seq<CommandView>, n: int) -> Seq<int>
    decreases n,
{
    if n <= 0 || n > cs.len() {
        Seq::empty()
    } else if step_of(cs[n - 1]) == Step::Skip {
        recorded_positions(cs, n - 1)
    } else {
        recorded_positions(cs, n - 1).push(n - 1)
    }
}

/// The run record `rs` holds one record for each command below `n` that
/// leaves one, in order.
pub open spec fn records_upto(rs: Seq<CMD>, cs: Seq<CommandView>, n: int) -> bool {
    let ps = recorded_positions(cs, n);
    &&& rs.len() == ps.len()
    &&& forall|j: int| 0 <= j < rs.len() ==> record_shape(#[trigger] rs[j], cs[ps[j]])
}

/// One batch being run: the parsed commands, how many of them run, the next
/// one to run and the run record so far.
pub struct Batch {
    pub commands: Vec<Command>,
    pub end: usize,
    pub next: usize,
    pub status: Status,
}

impl Batch {
    /// The views of the batch's commands.
    pub open spec fn views(&self) -> Seq<CommandView> {
        command_views(self.commands@)
    }

    /// The batch stops at its first callback, and its record matches the
    /// commands that ran.
    pub open spec fn wf(&self) -> bool {
        &&& self.end == batch_end(self.views())
        &&& self.next <= self.end <= self.commands@.len()
        &&& records_upto(self.status.running@, self.views(), self.next as int)
    }

    /// All commands that run have run.
    pub open spec fn finished(&self) -> bool {
        self.next == self.end
    }

    /// The batch of `text`, with nothing run yet.
    pub fn new(text: &str) -> (b: Batch)
        ensures
            b.wf(),
            b.views() == script(text@),
            b.next == 0,
            b.status.running@.len() == 0,
    {
        let commands = parse_script(text);
        let end = batch_len(&commands);
        Batch { commands, end, next: 0, status: Status::new() }
    }

    /// Whether all commands that run have run.
    pub fn is_finished(&self) -> (r: bool)
        ensures
            r == self.finished(),
    {
        self.next == self.end
    }

    /// The step the next command asks for, paths taken against `root`; `None`
    /// once the batch is over.
    pub fn next_action(&self, root: &str) -> (a: Option<Action>)
        requires
            self.wf(),
        ensures
            a is None <==> self.finished(),
            a is Some ==> a->0.step == step_of(self.views()[self.next as int])
                && a->0.target@ == target_of(self.views()[self.next as int], root@),
    {
        if self.next >= self.end {
            return None;
        }
        Some(action_for(&self.commands[self.next], root))
    }

    /// The command that runs next, while the batch is not over.
    pub fn current(&self) -> (c: &Command)
        requires
            self.wf(),
            !self.finished(),
        ensures
            c@ == self.views()[self.next as int],
    {
        &self.commands[self.next]
    }

    /// Closes the next command: records it with what its outside work showed,
    /// unless it lacks what it needs, and moves on.
    pub fn complete(&mut self, observed: String, exit_code: i32)
        requires
            old(self).wf(),
            !old(self).finished(),
        ensures
            final(self).wf(),
            final(self).next == old(self).next + 1,
            final(self).commands == old(self).commands,
            final(self).end == old(self).end,
            step_of(old(self).views()[old(self).next as int]) == Step::Skip ==> final(self).status
                == old(self).status,
            step_of(old(self).views()[old(self).next as int]) != Step::Skip ==> {
                &&& final(self).status.running@.len() == old(self).status.running@.len() + 1
                &&& final(self).status.running@.drop_last() == old(self).status.running@
                &&& record_of(
                    final(self).status.running@.last(),
                    old(self).views()[old(self).next as int],
                    observed@,
                    exit_code,
                )
            },
    {
        let i = self.next;
        let ghost cs = self.views();
        assert(self.commands@[i as int]@ == cs[i as int]);
        if step_for(&self.commands[i]) != Step::Skip {
            let r = record_for(&self.commands[i], observed, exit_code);
            let ghost before = self.status.running@;
            self.status.add(r);
            proof {
                let ps = recorded_positions(cs, i as int);
                assert(recorded_positions(cs, i + 1) == ps.push(i as int));
                assert forall|j: int| 0 <= j < self.status.running@.len() implies record_shape(
                    #[trigger] self.status.running@[j],
                    cs[recorded_positions(cs, i + 1)[j]],
                ) by {
                    if j < before.len() {
                        assert(self.status.running@[j] == before[j]);
                    }
                }
                assert(self.status.running@.drop_last() =~= before);
            }
        }
        self.next = i + 1;
    }
}

/// Of a batch `[A, B, Callback, C, D]`, exactly `A`, `B` and the callback
/// run: once a batch is over, its record holds one record for each command up
/// to and including the first callback that leaves one, and none for the
/// commands after it.
pub proof fn lemma_finished_batch_records(b: Batch, k: int)
    requires
        b.wf(),
        b.finished(),
        0 <= k < b.views().len(),
        b.views()[k].kind == CommandType::Callback,
        forall|j: int| 0 <= j < k ==> (#[trigger] b.views()[j]).kind != CommandType::Callback,
    ensures
        records_upto(b.status.running@, b.views(), k + 1),
        forall|j: int| 0 <= j < b.status.running@.len() ==> #[trigger] recorded_positions(b.views(), k + 1)[j] <= k,
        b.status.running@.last() is Callback,
{
    lemma_callback_short_circuit(b.views(), k);
    lemma_recorded_positions_below(b.views(), k + 1);
    assert(step_of(b.views()[k]) == Step::Record);
    let ps = recorded_positions(b.views(), k + 1);
    assert(ps.last() == k);
    assert(record_shape(b.status.running@[ps.len() - 1], b.views()[k]));
}

proof fn lemma_recorded_positions_below(cs: Seq<CommandView>, n: int)
    requires
        0 <= n <= cs.len(),
    ensures
        forall|j: int| 0 <= j < recorded_positions(cs, n).len() ==> 0 <= #[trigger] recorded_positions(cs, n)[j] < n,
    decreases n,
{
    if n > 0 {
        lemma_recorded_positions_below(cs, n - 1);
        let prev = recorded_positions(cs, n - 1);
        assert forall|j: int| 0 <= j < recorded_positions(cs, n).len() implies 0 <= #[trigger] recorded_positions(cs, n)[j] < n by {
            if j < prev.len() {
                assert(recorded_positions(cs, n)[j] == prev[j]);
            }
        }
    }
}

/// The number of leading commands of a batch that run: up to and including
/// the first callback, or all of them where there is none.
pub fn batch_len(commands: &Vec<Command>) -> (r: usize)
    ensures
        r as int == batch_end(command_views(commands@)),
        r <= commands@.len(),
{
    let n = commands.len();
    let ghost cs = command_views(commands@);
    let mut i: usize = 0;
    while i < n
        invariant
            n == commands@.len(),
            cs == command_views(commands@),
            0 <= i <= n,
            first_callback(cs, i as int) == first_callback(cs, 0),
        decreases n - i,
    {
        if commands[i].command_type == CommandType::Callback {
            return i + 1;
        }
        i = i + 1;
    }
    n
}

/// A callback stops a batch: where the commands before position `k` hold no
/// callback and the one at `k` is a callback, exactly the first `k + 1`
/// commands run, and none after them.
pub proof fn lemma_callback_short_circuit(cs: Seq<CommandView>, k: int)
    requires
        0 <= k < cs.len(),
        cs[k].kind == CommandType::Callback,
        forall|j: int| 0 <= j < k ==> (#[trigger] cs[j]).kind != CommandType::Callback,
    ensures
        batch_end(cs) == k + 1,
{
    lemma_first_callback_from(cs, 0, k);
}

/// A batch without a callback runs whole.
pub proof fn lemma_no_callback_runs_all(cs: Seq<CommandView>)
    requires
        forall|j: int| 0 <= j < cs.len() ==> (#[trigger] cs[j]).kind != CommandType::Callback,
    ensures
        batch_end(cs) == cs.len(),
{
    lemma_first_callback_none(cs, 0);
}

proof fn lemma_first_callback_from(cs: Seq<CommandView>, i: int, k: int)
    requires
        0 <= i <= k < cs.len(),
        cs[k].kind == CommandType::Callback,
        forall|j: int| 0 <= j < k ==> (#[trigger] cs[j]).kind != CommandType::Callback,
    ensures
        first_callback(cs, i) == k + 1,
    decreases k - i,
{
    if i < k {
        lemma_first_callback_from(cs, i + 1, k);
    }
}

proof fn lemma_first_callback_none(cs: Seq<CommandView>, i: int)
    requires
        0 <= i <= cs.len(),
        forall|j: int| 0 <= j < cs.len() ==> (#[trigger] cs[j]).kind != CommandType::Callback,
    ensures
        first_callback(cs, i) == cs.len(),
    decreases cs.len() - i,
{
    if i < cs.len() {
        lemma_first_callback_none(cs, i + 1);
    }
}

/// `path` taken against the project root `root`.
pub fn resolve_path(root: &str, path: &str) -> (r: String)
    ensures
        r@ == resolved(root@, path@),
{
    let pl = path.unicode_len();
    if pl > 0 && path.get_char(0) == '/' {
        return String::from_str(path);
    }
    let rl = root.unicode_len();
    if rl == 0 {
        return String::from_str(path);
    }
    let mut r = String::from_str(root);
    if root.get_char(rl - 1) != '/' {
        r.append("/");
    }
    r.append(path);
    r
}

fn text_or_empty(o: &Option<String>) -> (r: String)
    ensures
        o is Some ==> r@ == o->0@,
{
    match o {
        Some(s) => s.clone(),
        None => String::new(),
    }
}

/// The step that `cmd` asks for.
pub fn step_for(cmd: &Command) -> (s: Step)
    ensures
        s == step_of(cmd@),
{
    match cmd.command_type {
        CommandType::Comments | CommandType::Callback | CommandType::Unknown => Step::Record,
        CommandType::Run => Step::Shell,
        CommandType::Create => if cmd.file.is_none() {
            Step::Skip
        } else {
            match cmd.create_type {
                Some(CreateType::Dir) => Step::MakeDir,
                Some(CreateType::File) => Step::MakeFile,
                None => Step::Skip,
            }
        },
        CommandType::Open => if cmd.file.is_none() {
            Step::Skip
        } else {
            match cmd.create_type {
                Some(CreateType::Dir) => Step::ListDir,
                Some(CreateType::File) => Step::ShowFile,
                None => Step::Skip,
            }
        },
        CommandType::Edit | CommandType::Insert | CommandType::Delete => {
            let is_file = match cmd.create_type {
                Some(CreateType::File) => true,
                _ => false,
            };
            if is_file && cmd.file.is_some() && cmd.line.is_some() && (cmd.command_type
                == CommandType::Delete || cmd.content.is_some()) {
                Step::ChangeLines
            } else {
                Step::Skip
            }
        },
    }
}

/// The step that `cmd` asks for and what it applies to, paths taken against
/// the project root `root`.
pub fn action_for(cmd: &Command, root: &str) -> (a: Action)
    ensures
        a.step == step_of(cmd@),
        a.target@ == target_of(cmd@, root@),
{
    let step = step_for(cmd);
    let target = match step {
        Step::Shell => cmd.body.clone(),
        Step::Record | Step::Skip => String::new(),
        _ => {
            let p = text_or_empty(&cmd.file);
            resolve_path(root, p.as_str())
        },
    };
    Action { step, target }
}

/// Applies an edit, insert or delete command to `file`, loaded fresh from
/// disk; any other command leaves it as it is.
pub fn apply_line_command(cmd: &Command, file: &mut File) -> (r: Result<(), LineError>)
    requires
        step_of(cmd@) == Step::ChangeLines,
        old(file).well_numbered(),
        old(file).data_line@.len() < usize::MAX,
    ensures
        final(file).well_numbered(),
        final(file).name == old(file).name,
        final(file).path == old(file).path,
        final(file).parent_dir == old(file).parent_dir,
        final(file).size == old(file).size,
        r is Err ==> final(file).texts() == old(file).texts(),
        cmd@.kind == CommandType::Edit ==> r is Ok && final(file).texts() == edited(
            old(file).texts(),
            cmd@.line->0 as nat,
            cmd@.content->0,
        ),
        cmd@.kind == CommandType::Insert ==> {
            &&& (r is Ok <==> cmd@.line->0 >= 1)
            &&& (r is Err ==> r == Err::<(), LineError>(LineError::ZeroLine))
            &&& (r is Ok ==> final(file).texts() == inserted(old(file).texts(), cmd@.line->0 as nat, cmd@.content->0))
        },
        cmd@.kind == CommandType::Delete ==> {
            &&& (cmd@.line->0 == 0 <==> r == Err::<(), LineError>(LineError::ZeroLine))
            &&& (r == Err::<(), LineError>(LineError::PastEnd) <==> cmd@.line->0 > old(file).texts().len())
            &&& (r is Ok ==> final(file).texts() == deleted(old(file).texts(), cmd@.line->0 as nat))
        },
{
    let n = match cmd.line {
        Some(n) => n,
        None => 0,
    };
    let text = text_or_empty(&cmd.content);
    match cmd.command_type {
        CommandType::Edit => {
            file.edit_line(n, text.as_str());
            Ok(())
        },
        CommandType::Insert => file.insert_line(n, text.as_str()),
        _ => file.delete_line(n),
    }
}

/// The record of `cmd`, given what its outside work showed: the listing or
/// shell output in `observed`, the exit code of a shell command in
/// `exit_code`.
pub fn record_for(cmd: &Command, observed: String, exit_code: i32) -> (r: CMD)
    requires
        step_of(cmd@) != Step::Skip,
    ensures
        record_of(r, cmd@, observed@, exit_code),
{
    let file = text_or_empty(&cmd.file);
    let line = match cmd.line {
        Some(n) => n,
        None => 0,
    };
    let content = text_or_empty(&cmd.content);
    let is_dir = match cmd.create_type {
        Some(CreateType::Dir) => true,
        _ => false,
    };
    match cmd.command_type {
        CommandType::Comments => CMD::Comments(cmd.body.clone()),
        CommandType::Callback => CMD::Callback(cmd.body.clone()),
        CommandType::Unknown => CMD::Unknown(cmd.body.clone()),
        CommandType::Create => if is_dir {
            CMD::CreateDir(file)
        } else {
            CMD::CreateFile(file)
        },
        CommandType::Open => if is_dir {
            CMD::OpenDir { path: file, content: observed }
        } else {
            CMD::OpenFile { path: file, content: observed }
        },
        CommandType::Edit => CMD::EditFile { path: file, line, content },
        CommandType::Insert => CMD::InsertFile { path: file, line, content },
        CommandType::Delete => CMD::DeleteFile { path: file, line },
        CommandType::Run => CMD::Run { command: cmd.body.clone(), output: observed, exit_code },
    }
}

} // verus!
