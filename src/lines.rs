use vstd::prelude::*;

use crate::text::{decimal, decimal_text};

verus! {

/// One numbered line of a file held in memory.
pub struct Line {
    pub number: usize,
    pub data: String,
}

/// A file of a project, held in memory as numbered lines.
pub struct File {
    pub name: String,
    pub path: String,
    pub data_line: Vec<Line>,
    pub parent_dir: Option<String>,
    pub size: u64,
}

/// Why a structural line edit was refused.
#[derive(Debug, PartialEq, Eq, Structural, Clone, Copy)]
pub enum LineError {
    /// Line numbers start from 1.
    ZeroLine,
    /// The line to delete lies past the end of the file.
    PastEnd,
}

/// `s` with empty lines appended until it holds at least `k` lines.
pub open spec fn padded(s: Seq<Seq<char>>, k: nat) -> Seq<Seq<char>> {
    if s.len() >= k {
        s
    } else {
        s + Seq::new((k - s.len()) as nat, |i: int| Seq::<char>::empty())
    }
}

/// The lines after line `n` is set to `t`; line 0 is taken as a new last line.
pub open spec fn edited(s: Seq<Seq<char>>, n: nat, t: Seq<char>) -> Seq<Seq<char>> {
    if n == 0 {
        s.push(t)
    } else {
        padded(s, n).update(n - 1, t)
    }
}

/// The lines after `t` is inserted as line `n >= 1`, later lines moving down.
pub open spec fn inserted(s: Seq<Seq<char>>, n: nat, t: Seq<char>) -> Seq<Seq<char>> {
    padded(s, (n - 1) as nat).insert(n - 1, t)
}

/// The lines after line `n >= 1` is removed, later lines moving up.
pub open spec fn deleted(s: Seq<Seq<char>>, n: nat) -> Seq<Seq<char>> {
    s.remove(n - 1)
}

/// The text of each line, in order.
pub open spec fn line_texts(ls: Seq<Line>) -> Seq<Seq<char>> {
    ls.map_values(|l: Line| l.data@)
}

/// Each line carries its 1-based position as its number.
pub open spec fn numbered(ls: Seq<Line>) -> bool {
    forall|i: int| 0 <= i < ls.len() ==> #[trigger] ls[i].number == i + 1
}

/// The first `k` lines as `<number> | <text>`, one per line, numbered from 1.
pub open spec fn numbered_listing(s: Seq<Seq<char>>, k: int) -> Seq<char>
    decreases k,
{
    if k <= 0 || k > s.len() {
        Seq::empty()
    } else if k == 1 {
        decimal(1) + " | "@ + s[0]
    } else {
        numbered_listing(s, k - 1) + "\n"@ + decimal(k as nat) + " | "@ + s[k - 1]
    }
}

/// Inserting a line at position `n` and then deleting line `n` gives back
/// the lines as they were, wherever the insertion needed no padding
/// (`n <= s.len() + 1`). Numbering follows the positions on both sides.
pub proof fn lemma_insert_then_delete(s: Seq<Seq<char>>, n: nat, t: Seq<char>)
    requires
        1 <= n <= s.len() + 1,
    ensures
        deleted(inserted(s, n, t), n) == s,
{
    assert(padded(s, (n - 1) as nat) == s);
    assert(s.insert(n - 1, t).remove(n - 1) =~= s);
}

impl File {
    /// The text of each line, in order.
    pub open spec fn texts(&self) -> Seq<Seq<char>> {
        line_texts(self.data_line@)
    }

    /// Line numbers are the current 1-based positions.
    pub open spec fn well_numbered(&self) -> bool {
        numbered(self.data_line@)
    }

    /// A file whose lines are `lines`, numbered from 1.
    pub fn from_lines(
        name: String,
        path: String,
        lines: Vec<String>,
        parent_dir: Option<String>,
        size: u64,
    ) -> (f: File)
        ensures
            f.well_numbered(),
            f.texts() == lines@.map_values(|s: String| s@),
            f.name == name,
            f.path == path,
            f.parent_dir == parent_dir,
            f.size == size,
    {
        let n = lines.len();
        let mut data_line: Vec<Line> = Vec::new();
        let mut i: usize = 0;
        while i < n
            invariant
                n == lines@.len(),
                0 <= i <= n,
                numbered(data_line@),
                line_texts(data_line@) == lines@.subrange(0, i as int).map_values(|s: String| s@),
            decreases n - i,
        {
            let ghost before = data_line@;
            let data = lines[i].clone();
            data_line.push(Line { number: i + 1, data });
            assert(line_texts(data_line@) =~= line_texts(before).push(lines@[i as int]@));
            assert(lines@.subrange(0, i + 1).map_values(|s: String| s@) =~= lines@.subrange(0, i as int).map_values(
                |s: String| s@,
            ).push(lines@[i as int]@));
            i = i + 1;
            assert(line_texts(data_line@) =~= lines@.subrange(0, i as int).map_values(|s: String| s@));
        }
        assert(lines@.subrange(0, n as int) =~= lines@);
        File { name, path, data_line, parent_dir, size }
    }

    /// Appends empty lines until the file holds at least `k` lines.
    fn pad_to(&mut self, k: usize)
        requires
            old(self).well_numbered(),
        ensures
            final(self).well_numbered(),
            final(self).texts() == padded(old(self).texts(), k as nat),
            final(self).data_line.len() >= k,
            final(self).data_line.len() == old(self).data_line.len() || final(self).data_line.len() == k,
            final(self).name == old(self).name,
            final(self).path == old(self).path,
            final(self).parent_dir == old(self).parent_dir,
            final(self).size == old(self).size,
    {
        let ghost s0 = self.texts();
        while self.data_line.len() < k
            invariant
                self.well_numbered(),
                s0.len() <= self.texts().len(),
                self.texts().len() <= k || self.texts().len() == s0.len(),
                self.texts() == padded(s0, self.texts().len()),
                self.name == old(self).name,
                self.path == old(self).path,
                self.parent_dir == old(self).parent_dir,
                self.size == old(self).size,
            decreases k - self.data_line.len(),
        {
            let ghost before = self.texts();
            let next = self.data_line.len() + 1;
            self.data_line.push(Line { number: next, data: String::new() });
            proof {
                assert(self.texts() =~= before.push(Seq::<char>::empty()));
                assert(self.texts() =~= padded(s0, self.texts().len()));
            }
        }
        proof {
            if s0.len() >= k {
                assert(padded(s0, k as nat) == s0);
            }
            assert(self.texts() =~= padded(s0, k as nat));
            assert(self.texts().len() == self.data_line.len());
        }
    }

    /// Sets each line's number to its 1-based position.
    fn renumber_lines(&mut self)
        ensures
            final(self).well_numbered(),
            final(self).texts() == old(self).texts(),
            final(self).name == old(self).name,
            final(self).path == old(self).path,
            final(self).parent_dir == old(self).parent_dir,
            final(self).size == old(self).size,
    {
        let n = self.data_line.len();
        let mut i: usize = 0;
        while i < n
            invariant
                n == self.data_line.len(),
                0 <= i <= n,
                forall|j: int| 0 <= j < i ==> #[trigger] self.data_line@[j].number == j + 1,
                self.texts() == old(self).texts(),
                self.name == old(self).name,
                self.path == old(self).path,
                self.parent_dir == old(self).parent_dir,
                self.size == old(self).size,
            decreases n - i,
        {
            let ghost before = self.data_line@;
            self.data_line[i].number = i + 1;
            assert(line_texts(self.data_line@) =~= line_texts(before));
            i = i + 1;
        }
    }

    /// Sets line `line_number` to `new_text`, first extending the file with
    /// empty lines where it is shorter; line 0 is taken as a new last line.
    pub fn edit_line(&mut self, line_number: usize, new_text: &str)
        requires
            old(self).well_numbered(),
            old(self).data_line.len() < usize::MAX,
        ensures
            final(self).well_numbered(),
            final(self).texts() == edited(old(self).texts(), line_number as nat, new_text@),
            final(self).name == old(self).name,
            final(self).path == old(self).path,
            final(self).parent_dir == old(self).parent_dir,
            final(self).size == old(self).size,
    {
        if line_number == 0 {
            self.add_line(new_text);
            return;
        }
        self.pad_to(line_number);
        let ghost before = self.data_line@;
        self.data_line[line_number - 1].data = new_text.to_string();
        proof {
            vstd::string::to_string_from_display_ensures_for_str(new_text, self.data_line@[line_number - 1].data);
            assert(line_texts(self.data_line@) =~= line_texts(before).update(line_number - 1, new_text@));
        }
    }

    /// Appends `new_text` as a new last line.
    pub fn add_line(&mut self, new_text: &str)
        requires
            old(self).well_numbered(),
            old(self).data_line.len() < usize::MAX,
        ensures
            final(self).well_numbered(),
            final(self).texts() == old(self).texts().push(new_text@),
            final(self).name == old(self).name,
            final(self).path == old(self).path,
            final(self).parent_dir == old(self).parent_dir,
            final(self).size == old(self).size,
    {
        let next = self.data_line.len() + 1;
        let data = new_text.to_string();
        proof {
            vstd::string::to_string_from_display_ensures_for_str(new_text, data);
        }
        let ghost before = self.data_line@;
        self.data_line.push(Line { number: next, data });
        assert(line_texts(self.data_line@) =~= line_texts(before).push(new_text@));
    }

    /// Inserts `new_text` as line `line_number`, moving later lines down and
    /// first extending the file with empty lines where it is shorter.
    pub fn insert_line(&mut self, line_number: usize, new_text: &str) -> (r: Result<(), LineError>)
        requires
            old(self).well_numbered(),
            old(self).data_line.len() < usize::MAX,
        ensures
            final(self).well_numbered(),
            line_number == 0 <==> r == Err::<(), LineError>(LineError::ZeroLine),
            r is Ok <==> line_number >= 1,
            r is Ok ==> final(self).texts() == inserted(old(self).texts(), line_number as nat, new_text@),
            r is Err ==> final(self).texts() == old(self).texts(),
            final(self).name == old(self).name,
            final(self).path == old(self).path,
            final(self).parent_dir == old(self).parent_dir,
            final(self).size == old(self).size,
    {
        if line_number == 0 {
            return Err(LineError::ZeroLine);
        }
        self.pad_to(line_number - 1);
        let data = new_text.to_string();
        proof {
            vstd::string::to_string_from_display_ensures_for_str(new_text, data);
        }
        let ghost before = self.data_line@;
        self.data_line.insert(line_number - 1, Line { number: line_number, data });
        assert(line_texts(self.data_line@) =~= line_texts(before).insert(line_number - 1, new_text@));
        self.renumber_lines();
        Ok(())
    }

    /// Removes line `line_number`, moving later lines up.
    pub fn delete_line(&mut self, line_number: usize) -> (r: Result<(), LineError>)
        requires
            old(self).well_numbered(),
        ensures
            final(self).well_numbered(),
            line_number == 0 <==> r == Err::<(), LineError>(LineError::ZeroLine),
            r == Err::<(), LineError>(LineError::PastEnd) <==> line_number > old(self).texts().len(),
            r is Ok ==> final(self).texts() == deleted(old(self).texts(), line_number as nat),
            r is Err ==> final(self).texts() == old(self).texts(),
            final(self).name == old(self).name,
            final(self).path == old(self).path,
            final(self).parent_dir == old(self).parent_dir,
            final(self).size == old(self).size,
    {
        if line_number == 0 {
            return Err(LineError::ZeroLine);
        }
        if line_number > self.data_line.len() {
            return Err(LineError::PastEnd);
        }
        let ghost before = self.data_line@;
        let _gone = self.data_line.remove(line_number - 1);
        assert(line_texts(self.data_line@) =~= line_texts(before).remove(line_number - 1));
        self.renumber_lines();
        Ok(())
    }

    /// The file as `<number> | <text>` lines joined by newlines.
    pub fn render_lines(&self) -> (r: String)
        requires
            self.well_numbered(),
        ensures
            r@ == numbered_listing(self.texts(), self.texts().len() as int),
    {
        let n = self.data_line.len();
        let mut out = String::new();
        let mut i: usize = 0;
        while i < n
            invariant
                n == self.data_line@.len(),
                0 <= i <= n,
                self.well_numbered(),
                out@ == numbered_listing(self.texts(), i as int),
            decreases n - i,
        {
            if i > 0 {
                out.append("\n");
            }
            let num = decimal_text(self.data_line[i].number);
            out.append(num.as_str());
            out.append(" | ");
            out.append(self.data_line[i].data.as_str());
            i = i + 1;
            proof {
                if i == 1 {
                    assert(""@ =~= Seq::<char>::empty()) by { reveal_strlit(""); }
                }
            }
            assert(out@ =~= numbered_listing(self.texts(), i as int));
        }
        out
    }

    /// Takes `fresh`, the file as read again from disk, in place of this one;
    /// a file that belongs to no directory is left as it is.
    pub fn reload(&mut self, fresh: File)
        ensures
            old(self).parent_dir is Some ==> *final(self) == fresh,
            old(self).parent_dir is None ==> *final(self) == *old(self),
    {
        if self.parent_dir.is_some() {
            *self = fresh;
        }
    }
}

} // verus!
