use vstd::prelude::*;

use crate::lines::File;
use crate::text::{contains_text, has_infix};

verus! {

/// A directory of a project, held in memory with its files and
/// sub-directories, as far as the ignore rules let them in.
pub struct Dir {
    pub name: String,
    pub path: String,
    pub files: Vec<File>,
    pub subdirs: Vec<Dir>,
    pub ignore: Vec<String>,
    pub ignore_size: Option<u64>,
}

/// The texts of a list of strings.
pub open spec fn texts_of(v: Seq<String>) -> Seq<Seq<char>> {
    v.map_values(|s: String| s@)
}

/// `name` holds one of the patterns `ig`.
pub open spec fn ignored_name(name: Seq<char>, ig: Seq<Seq<char>>) -> bool {
    exists|i: int| 0 <= i < ig.len() && has_infix(name, #[trigger] ig[i])
}

/// `size` lies over the limit, where there is one.
pub open spec fn too_large(size: u64, limit: Option<u64>) -> bool {
    match limit {
        Some(m) => size > m,
        None => false,
    }
}

/// A file that the rules `ig` and `limit` let into a snapshot.
pub open spec fn admits_file(f: File, ig: Seq<Seq<char>>, limit: Option<u64>) -> bool {
    !ignored_name(f.name@, ig) && !too_large(f.size, limit)
}

/// `p` is `base` or lies below it, component by component.
pub open spec fn within(p: Seq<char>, base: Seq<char>) -> bool {
    p.len() >= base.len() && p.subrange(0, base.len() as int) == base && (p.len() == base.len()
        || base.len() == 0 || base.last() == '/' || p[base.len() as int] == '/')
}

/// The first file of `fs` whose path is `p`, or `fs.len()`.
pub open spec fn first_file_at(fs: Seq<File>, p: Seq<char>, i: int) -> int
    decreases fs.len() - i,
{
    if 0 <= i < fs.len() && fs[i].path@ != p {
        first_file_at(fs, p, i + 1)
    } else {
        i
    }
}

/// The first directory of `ds` that `p` lies within, or `ds.len()`.
pub open spec fn first_dir_within(ds: Seq<Dir>, p: Seq<char>, i: int) -> int
    decreases ds.len() - i,
{
    if 0 <= i < ds.len() && !within(p, ds[i].path@) {
        first_dir_within(ds, p, i + 1)
    } else {
        i
    }
}

/// `g` is `f` as read again, with `parent` as the directory that holds it.
pub open spec fn placed(g: File, f: File, parent: String) -> bool {
    g.name == f.name && g.path == f.path && g.data_line == f.data_line && g.size == f.size
        && g.parent_dir == Some(parent)
}

/// The entry line of a listing: `prefix`, a connector and `name`.
pub open spec fn entry_line(prefix: Seq<char>, last: bool, name: Seq<char>) -> Seq<char> {
    prefix + (if last { "└─ "@ } else { "├─ "@ }) + name + "\n"@
}

/// The prefix under an entry: it carries the entry's vertical bar on.
pub open spec fn deeper(prefix: Seq<char>, last: bool) -> Seq<char> {
    prefix + (if last { "   "@ } else { "│  "@ })
}

impl Dir {
    /// The ignore patterns as texts.
    pub open spec fn ignore_view(&self) -> Seq<Seq<char>> {
        texts_of(self.ignore@)
    }

    /// Every file and sub-directory in the tree passes the rules `ig` and
    /// `limit`, at every depth.
    pub open spec fn filtered_by(&self, ig: Seq<Seq<char>>, limit: Option<u64>) -> bool
        decreases *self,
    {
        &&& forall|i: int| 0 <= i < self.files@.len() ==> admits_file(#[trigger] self.files@[i], ig, limit)
        &&& forall|i: int| 0 <= i < self.subdirs@.len() ==> {
            &&& !ignored_name((#[trigger] self.subdirs@[i]).name@, ig)
            &&& self.subdirs@[i].filtered_by(ig, limit)
        }
    }

    /// The snapshot obeys its own ignore rules.
    pub open spec fn wf(&self) -> bool {
        self.filtered_by(self.ignore_view(), self.ignore_size)
    }

    /// `f` is a file of the tree, at any depth.
    pub open spec fn contains_file(&self, f: File) -> bool
        decreases *self,
    {
        ||| exists|i: int| 0 <= i < self.files@.len() && #[trigger] self.files@[i] == f
        ||| exists|i: int| 0 <= i < self.subdirs@.len() && (#[trigger] self.subdirs@[i]).contains_file(f)
    }

    /// The number of files in the tree.
    pub open spec fn file_count(&self) -> nat
        decreases *self, 1nat, 0nat,
    {
        self.files@.len() + self.sub_file_count(self.subdirs@.len() as int)
    }

    /// The number of files in the first `k` sub-directories.
    pub open spec fn sub_file_count(&self, k: int) -> nat
        decreases *self, 0nat, k,
    {
        if k <= 0 || k > self.subdirs@.len() {
            0
        } else {
            self.sub_file_count(k - 1) + self.subdirs@[k - 1].file_count()
        }
    }

    /// The sum of the sizes of the files in the tree.
    pub open spec fn size_sum(&self) -> nat
        decreases *self, 1nat, 0nat,
    {
        files_size(self.files@, self.files@.len() as int) + self.sub_size_sum(self.subdirs@.len() as int)
    }

    /// The sum of the sizes in the first `k` sub-directories.
    pub open spec fn sub_size_sum(&self, k: int) -> nat
        decreases *self, 0nat, k,
    {
        if k <= 0 || k > self.subdirs@.len() {
            0
        } else {
            self.sub_size_sum(k - 1) + self.subdirs@[k - 1].size_sum()
        }
    }

    /// The listing below this directory, each entry after `prefix`.
    pub open spec fn listing(&self, prefix: Seq<char>) -> Seq<char>
        decreases *self, 1nat, 0nat,
    {
        self.sub_listing(prefix, self.subdirs@.len() as int) + files_listing(
            self.files@,
            prefix,
            self.files@.len() as int,
            self.subdirs@.len() + self.files@.len(),
            self.subdirs@.len() as int,
        )
    }

    /// The listing of the first `k` sub-directories, each entry after `prefix`.
    pub open spec fn sub_listing(&self, prefix: Seq<char>, k: int) -> Seq<char>
        decreases *self, 0nat, k,
    {
        if k <= 0 || k > self.subdirs@.len() {
            Seq::empty()
        } else {
            let last = k == self.subdirs@.len() + self.files@.len();
            self.sub_listing(prefix, k - 1) + entry_line(prefix, last, self.subdirs@[k - 1].name@)
                + self.subdirs@[k - 1].listing(deeper(prefix, last))
        }
    }

    /// The whole listing: a title, the root's name, then the tree below it.
    pub open spec fn printed(&self) -> Seq<char> {
        "Filesystem:\n"@ + self.name@ + "\n"@ + self.listing(Seq::empty())
    }

    /// `b` is the tree after the file at path `p` is replaced with `fresh`:
    /// looked for first among the files of a directory, then in the first
    /// sub-directory that `p` lies within. A fresh file that the rules `ig` and
    /// `limit` no longer let in leaves the tree.
    pub open spec fn refreshed(&self, b: Dir, p: Seq<char>, fresh: File, ig: Seq<Seq<char>>, limit: Option<u64>) -> bool
        decreases *self,
    {
        &&& b.name == self.name
        &&& b.path == self.path
        &&& b.ignore == self.ignore
        &&& b.ignore_size == self.ignore_size
        &&& {
            let i = first_file_at(self.files@, p, 0);
            if i < self.files@.len() {
                &&& b.subdirs@ == self.subdirs@
                &&& if admits_file(fresh, ig, limit) {
                    &&& b.files@.len() == self.files@.len()
                    &&& forall|j: int| 0 <= j < self.files@.len() && j != i ==> b.files@[j] == self.files@[j]
                    &&& placed(b.files@[i], fresh, self.path)
                } else {
                    b.files@ == self.files@.remove(i)
                }
            } else {
                let k = first_dir_within(self.subdirs@, p, 0);
                &&& b.files@ == self.files@
                &&& b.subdirs@.len() == self.subdirs@.len()
                &&& forall|j: int| 0 <= j < self.subdirs@.len() && j != k ==> b.subdirs@[j] == self.subdirs@[j]
                &&& 0 <= k < self.subdirs@.len() ==> self.subdirs@[k].refreshed(b.subdirs@[k], p, fresh, ig, limit)
            }
        }
    }

    /// The file at path `p` lies where `refreshed` looks for it.
    pub open spec fn finds(&self, p: Seq<char>) -> bool
        decreases *self,
    {
        let i = first_file_at(self.files@, p, 0);
        let k = first_dir_within(self.subdirs@, p, 0);
        i < self.files@.len() || (0 <= k < self.subdirs@.len() && self.subdirs@[k].finds(p))
    }
}

/// The sum of the sizes of the first `k` files.
pub open spec fn files_size(fs: Seq<File>, k: int) -> nat
    decreases k,
{
    if k <= 0 || k > fs.len() {
        0
    } else {
        files_size(fs, k - 1) + fs[k - 1].size as nat
    }
}

/// The entry lines of the first `k` files, after `before` sub-directories, of
/// `total` entries.
pub open spec fn files_listing(fs: Seq<File>, prefix: Seq<char>, k: int, total: nat, before: int) -> Seq<char>
    decreases k,
{
    if k <= 0 || k > fs.len() {
        Seq::empty()
    } else {
        files_listing(fs, prefix, k - 1, total, before) + entry_line(prefix, before + k == total, fs[k - 1].name@)
    }
}

/// A file of a snapshot passes the snapshot's ignore rules, however deep it
/// lies: its name holds no ignore pattern and its size is within the limit.
pub proof fn lemma_snapshot_excludes_ignored(d: Dir, f: File)
    requires
        d.wf(),
        d.contains_file(f),
    ensures
        !ignored_name(f.name@, d.ignore_view()),
        !too_large(f.size, d.ignore_size),
{
    lemma_filtered_excludes(d, f, d.ignore_view(), d.ignore_size);
}

proof fn lemma_filtered_excludes(d: Dir, f: File, ig: Seq<Seq<char>>, limit: Option<u64>)
    requires
        d.filtered_by(ig, limit),
        d.contains_file(f),
    ensures
        admits_file(f, ig, limit),
    decreases d,
{
    if exists|i: int| 0 <= i < d.files@.len() && #[trigger] d.files@[i] == f {
        let i = choose|i: int| 0 <= i < d.files@.len() && #[trigger] d.files@[i] == f;
        assert(admits_file(d.files@[i], ig, limit));
    } else {
        let i = choose|i: int| 0 <= i < d.subdirs@.len() && (#[trigger] d.subdirs@[i]).contains_file(f);
        assert(d.subdirs@[i].filtered_by(ig, limit));
        lemma_filtered_excludes(d.subdirs@[i], f, ig, limit);
    }
}

/// Whether `name` holds one of `ig`.
fn name_ignored(name: &str, ig: &Vec<String>) -> (r: bool)
    ensures
        r == ignored_name(name@, texts_of(ig@)),
{
    let mut i: usize = 0;
    while i < ig.len()
        invariant
            0 <= i <= ig@.len(),
            forall|j: int| 0 <= j < i ==> !has_infix(name@, #[trigger] texts_of(ig@)[j]),
        decreases ig@.len() - i,
    {
        if contains_text(name, ig[i].as_str()) {
            assert(has_infix(name@, texts_of(ig@)[i as int]));
            return true;
        }
        i = i + 1;
    }
    false
}

fn is_within(p: &str, base: &str) -> (r: bool)
    ensures
        r == within(p@, base@),
{
    let pc = crate::text::chars_of(p);
    let bc = crate::text::chars_of(base);
    if pc.len() < bc.len() {
        return false;
    }
    let mut i: usize = 0;
    while i < bc.len()
        invariant
            pc@ == p@,
            bc@ == base@,
            bc@.len() <= pc@.len(),
            0 <= i <= bc@.len(),
            forall|j: int| 0 <= j < i ==> pc@[j] == bc@[j],
        decreases bc@.len() - i,
    {
        if pc[i] != bc[i] {
            assert(p@.subrange(0, base@.len() as int)[i as int] != base@[i as int]);
            return false;
        }
        i = i + 1;
    }
    assert(p@.subrange(0, base@.len() as int) =~= base@);
    pc.len() == bc.len() || bc.len() == 0 || bc[bc.len() - 1] == '/' || pc[bc.len()] == '/'
}

impl Dir {
    /// An empty directory node with the given ignore rules.
    pub fn new(name: String, path: String, ignore: Vec<String>, ignore_size: Option<u64>) -> (d: Dir)
        ensures
            d.wf(),
            d.name == name,
            d.path == path,
            d.ignore == ignore,
            d.ignore_size == ignore_size,
            d.files@.len() == 0,
            d.subdirs@.len() == 0,
    {
        Dir { name, path, files: Vec::new(), subdirs: Vec::new(), ignore, ignore_size }
    }

    /// Whether an entry named `name` is kept out by the ignore patterns.
    pub fn ignores_name(&self, name: &str) -> (r: bool)
        ensures
            r == ignored_name(name@, self.ignore_view()),
    {
        name_ignored(name, &self.ignore)
    }

    /// Whether a file of `size` bytes is kept out by the size limit.
    pub fn ignores_size(&self, size: u64) -> (r: bool)
        ensures
            r == too_large(size, self.ignore_size),
    {
        match self.ignore_size {
            Some(m) => size > m,
            None => false,
        }
    }

    /// Adds `f` to this directory's files where the rules let it in; says
    /// whether it did.
    pub fn add_file(&mut self, f: File) -> (r: bool)
        requires
            old(self).wf(),
        ensures
            final(self).wf(),
            r == admits_file(f, old(self).ignore_view(), old(self).ignore_size),
            r ==> final(self).files@ == old(self).files@.push(f),
            !r ==> final(self).files@ == old(self).files@,
            final(self).subdirs == old(self).subdirs,
            final(self).name == old(self).name,
            final(self).path == old(self).path,
            final(self).ignore == old(self).ignore,
            final(self).ignore_size == old(self).ignore_size,
    {
        if self.ignores_name(f.name.as_str()) || self.ignores_size(f.size) {
            return false;
        }
        self.files.push(f);
        true
    }

    /// Adds `d`, built under the same rules, to this directory's
    /// sub-directories where its name is not ignored; says whether it did.
    pub fn add_subdir(&mut self, d: Dir) -> (r: bool)
        requires
            old(self).wf(),
            d.filtered_by(old(self).ignore_view(), old(self).ignore_size),
        ensures
            final(self).wf(),
            r == !ignored_name(d.name@, old(self).ignore_view()),
            r ==> final(self).subdirs@ == old(self).subdirs@.push(d),
            !r ==> final(self).subdirs@ == old(self).subdirs@,
            final(self).files == old(self).files,
            final(self).name == old(self).name,
            final(self).path == old(self).path,
            final(self).ignore == old(self).ignore,
            final(self).ignore_size == old(self).ignore_size,
    {
        if self.ignores_name(d.name.as_str()) {
            return false;
        }
        self.subdirs.push(d);
        true
    }
}

fn listing_text(d: &Dir, prefix: &str) -> (r: String)
    ensures
        r@ == d.listing(prefix@),
    decreases d,
{
    let ns = d.subdirs.len();
    let nf = d.files.len();
    let mut out = String::new();
    let mut i: usize = 0;
    while i < ns
        invariant
            ns == d.subdirs@.len(),
            nf == d.files@.len(),
            0 <= i <= ns,
            out@ == d.sub_listing(prefix@, i as int),
        decreases ns - i,
    {
        let last = i + 1 == ns && nf == 0;
        assert(last == (i + 1 == d.subdirs@.len() + d.files@.len()));
        let ghost before = out@;
        out.append(prefix);
        out.append(if last { "└─ " } else { "├─ " });
        out.append(d.subdirs[i].name.as_str());
        out.append("\n");
        let mut inner = String::from_str(prefix);
        inner.append(if last { "   " } else { "│  " });
        let sub = listing_text(&d.subdirs[i], inner.as_str());
        out.append(sub.as_str());
        i = i + 1;
        assert(out@ =~= d.sub_listing(prefix@, i as int));
    }
    let mut j: usize = 0;
    while j < nf
        invariant
            ns == d.subdirs@.len(),
            nf == d.files@.len(),
            0 <= j <= nf,
            out@ == d.sub_listing(prefix@, ns as int) + files_listing(
                d.files@,
                prefix@,
                j as int,
                d.subdirs@.len() + d.files@.len(),
                ns as int,
            ),
        decreases nf - j,
    {
        let last = j + 1 == nf;
        out.append(prefix);
        out.append(if last { "└─ " } else { "├─ " });
        out.append(d.files[j].name.as_str());
        out.append("\n");
        j = j + 1;
        assert(out@ =~= d.sub_listing(prefix@, ns as int) + files_listing(
            d.files@,
            prefix@,
            j as int,
            d.subdirs@.len() + d.files@.len(),
            ns as int,
        ));
    }
    out
}

proof fn lemma_sub_file_count_grows(d: Dir, i: int, j: int)
    requires
        0 <= i <= j <= d.subdirs@.len(),
    ensures
        d.sub_file_count(i) <= d.sub_file_count(j),
    decreases j - i,
{
    if i < j {
        lemma_sub_file_count_grows(d, i, j - 1);
    }
}

proof fn lemma_sub_size_sum_grows(d: Dir, i: int, j: int)
    requires
        0 <= i <= j <= d.subdirs@.len(),
    ensures
        d.sub_size_sum(i) <= d.sub_size_sum(j),
    decreases j - i,
{
    if i < j {
        lemma_sub_size_sum_grows(d, i, j - 1);
    }
}

proof fn lemma_files_size_grows(fs: Seq<File>, i: int, j: int)
    requires
        0 <= i <= j <= fs.len(),
    ensures
        files_size(fs, i) <= files_size(fs, j),
    decreases j - i,
{
    if i < j {
        lemma_files_size_grows(fs, i, j - 1);
    }
}

impl Dir {
    /// The directory as an indented tree: a title line, the root's name
    /// unprefixed, then each entry below it after box-drawing connectors.
    pub fn pretty_print(&self) -> (r: String)
        ensures
            r@ == self.printed(),
    {
        let mut out = String::from_str("Filesystem:\n");
        out.append(self.name.as_str());
        out.append("\n");
        let rest = listing_text(self, "");
        proof {
            reveal_strlit("");
            assert(""@ =~= Seq::<char>::empty());
        }
        out.append(rest.as_str());
        assert(out@ =~= self.printed());
        out
    }

    /// The number of files in the tree, at every depth.
    pub fn total_files_count(&self) -> (r: usize)
        requires
            self.file_count() <= usize::MAX,
        ensures
            r == self.file_count(),
        decreases self,
    {
        let ns = self.subdirs.len();
        let mut count = self.files.len();
        let mut i: usize = 0;
        while i < ns
            invariant
                ns == self.subdirs@.len(),
                0 <= i <= ns,
                self.file_count() <= usize::MAX,
                count == self.files@.len() + self.sub_file_count(i as int),
            decreases ns - i,
        {
            proof {
                lemma_sub_file_count_grows(*self, i + 1, ns as int);
                assert(self.sub_file_count(i + 1) == self.sub_file_count(i as int) + self.subdirs@[i as int].file_count());
            }
            let c = self.subdirs[i].total_files_count();
            count = count + c;
            i = i + 1;
        }
        count
    }

    /// The sum of the sizes of the files in the tree, at every depth.
    pub fn total_size(&self) -> (r: u64)
        requires
            self.size_sum() <= u64::MAX,
        ensures
            r == self.size_sum(),
        decreases self,
    {
        let nf = self.files.len();
        let ns = self.subdirs.len();
        let mut size: u64 = 0;
        let mut j: usize = 0;
        proof {
            lemma_sub_size_sum_grows(*self, 0, ns as int);
        }
        while j < nf
            invariant
                nf == self.files@.len(),
                0 <= j <= nf,
                self.size_sum() <= u64::MAX,
                size == files_size(self.files@, j as int),
            decreases nf - j,
        {
            proof {
                lemma_files_size_grows(self.files@, j + 1, nf as int);
            }
            size = size + self.files[j].size;
            j = j + 1;
        }
        let mut i: usize = 0;
        while i < ns
            invariant
                ns == self.subdirs@.len(),
                nf == self.files@.len(),
                0 <= i <= ns,
                self.size_sum() <= u64::MAX,
                size == files_size(self.files@, nf as int) + self.sub_size_sum(i as int),
            decreases ns - i,
        {
            proof {
                lemma_sub_size_sum_grows(*self, i + 1, ns as int);
                assert(self.sub_size_sum(i + 1) == self.sub_size_sum(i as int) + self.subdirs@[i as int].size_sum());
            }
            let c = self.subdirs[i].total_size();
            size = size + c;
            i = i + 1;
        }
        size
    }

    /// Puts `fresh`, the file at `file_path` as read again from disk, in place
    /// of its stale copy in the tree, and says whether one was found. Only
    /// that node changes; where the ignore rules no longer let the file in,
    /// it leaves the tree.
    pub fn refresh_file(&mut self, file_path: &str, fresh: File) -> (r: bool)
        ensures
            old(self).refreshed(*final(self), file_path@, fresh, old(self).ignore_view(), old(self).ignore_size),
            r == old(self).finds(file_path@),
            old(self).wf() ==> final(self).wf(),
    {
        let ig = self.ignore.clone();
        let limit = self.ignore_size;
        proof {
            assert(texts_of(ig@) =~= self.ignore_view());
        }
        self.refresh_under(file_path, fresh, &ig, limit)
    }

    fn refresh_under(&mut self, file_path: &str, fresh: File, ig: &Vec<String>, limit: Option<u64>) -> (r: bool)
        ensures
            old(self).refreshed(*final(self), file_path@, fresh, texts_of(ig@), limit),
            r == old(self).finds(file_path@),
            old(self).filtered_by(texts_of(ig@), limit) ==> final(self).filtered_by(texts_of(ig@), limit),
        decreases *old(self),
    {
        let target = String::from_str(file_path);
        let nf = self.files.len();
        let mut i: usize = 0;
        while i < nf && self.files[i].path != target
            invariant
                nf == self.files@.len(),
                0 <= i <= nf,
                target@ == file_path@,
                first_file_at(self.files@, file_path@, i as int) == first_file_at(self.files@, file_path@, 0),
            decreases nf - i,
        {
            i = i + 1;
        }
        if i < nf {
            let mut g = fresh;
            g.parent_dir = Some(self.path.clone());
            let ghost before = self.files@;
            if name_ignored(g.name.as_str(), ig) || match limit { Some(m) => g.size > m, None => false } {
                let _gone = self.files.remove(i);
            } else {
                self.files[i] = g;
            }
            proof {
                if old(self).filtered_by(texts_of(ig@), limit) {
                    assert forall|j: int| 0 <= j < self.files@.len() implies admits_file(#[trigger] self.files@[j], texts_of(ig@), limit) by {
                        if self.files@.len() < before.len() {
                            assert(self.files@[j] == before[if j < i { j } else { j + 1 }]);
                        } else if j != i {
                            assert(self.files@[j] == before[j]);
                        }
                    }
                }
            }
            return true;
        }
        let ns = self.subdirs.len();
        let mut k: usize = 0;
        while k < ns && !is_within(file_path, self.subdirs[k].path.as_str())
            invariant
                ns == self.subdirs@.len(),
                0 <= k <= ns,
                first_dir_within(self.subdirs@, file_path@, k as int) == first_dir_within(self.subdirs@, file_path@, 0),
            decreases ns - k,
        {
            k = k + 1;
        }
        if k < ns {
            let ghost before = self.subdirs@;
            let mut sub = self.subdirs.remove(k);
            assert(sub == before[k as int]);
            let r = sub.refresh_under(file_path, fresh, ig, limit);
            self.subdirs.insert(k, sub);
            proof {
                assert forall|j: int| 0 <= j < before.len() && j != k implies self.subdirs@[j] == before[j] by {
                    if j < k {
                        assert(self.subdirs@[j] == before[j]);
                    } else {
                        assert(self.subdirs@[j] == before[j]);
                    }
                }
                if old(self).filtered_by(texts_of(ig@), limit) {
                    assert(before[k as int].filtered_by(texts_of(ig@), limit));
                    assert forall|j: int| 0 <= j < self.subdirs@.len() implies {
                        &&& !ignored_name((#[trigger] self.subdirs@[j]).name@, texts_of(ig@))
                        &&& self.subdirs@[j].filtered_by(texts_of(ig@), limit)
                    } by {
                        if j != k {
                            assert(self.subdirs@[j] == before[j]);
                        }
                    }
                }
            }
            return r;
        }
        false
    }

    /// Takes `ignore` as the ignore patterns. The tree is emptied, to be
    /// built again from disk under the new rules.
    pub fn set_ignore(&mut self, ignore: Vec<String>)
        ensures
            final(self).wf(),
            final(self).ignore == ignore,
            final(self).ignore_size == old(self).ignore_size,
            final(self).name == old(self).name,
            final(self).path == old(self).path,
            final(self).files@.len() == 0,
            final(self).subdirs@.len() == 0,
    {
        self.ignore = ignore;
        self.files = Vec::new();
        self.subdirs = Vec::new();
    }

    /// Adds `pattern` to the ignore patterns where it is not one yet, and then
    /// empties the tree, to be built again from disk; says whether it did.
    pub fn add_ignore(&mut self, pattern: String) -> (r: bool)
        requires
            old(self).wf(),
        ensures
            final(self).wf(),
            r == !old(self).ignore_view().contains(pattern@),
            r ==> final(self).ignore@ == old(self).ignore@.push(pattern),
            r ==> final(self).files@.len() == 0 && final(self).subdirs@.len() == 0,
            !r ==> *final(self) == *old(self),
            final(self).ignore_size == old(self).ignore_size,
            final(self).name == old(self).name,
            final(self).path == old(self).path,
    {
        let n = self.ignore.len();
        let mut i: usize = 0;
        while i < n
            invariant
                n == self.ignore@.len(),
                0 <= i <= n,
                *self == *old(self),
                old(self).wf(),
                forall|j: int| 0 <= j < i ==> self.ignore_view()[j] != pattern@,
            decreases n - i,
        {
            if self.ignore[i] == pattern {
                assert(self.ignore_view()[i as int] == pattern@);
                return false;
            }
            i = i + 1;
        }
        self.ignore.push(pattern);
        self.files = Vec::new();
        self.subdirs = Vec::new();
        true
    }

    /// Takes `max_size` as the size limit. The tree is emptied, to be built
    /// again from disk under the new rules.
    pub fn set_ignore_size(&mut self, max_size: Option<u64>)
        ensures
            final(self).wf(),
            final(self).ignore_size == max_size,
            final(self).ignore == old(self).ignore,
            final(self).name == old(self).name,
            final(self).path == old(self).path,
            final(self).files@.len() == 0,
            final(self).subdirs@.len() == 0,
    {
        self.ignore_size = max_size;
        self.files = Vec::new();
        self.subdirs = Vec::new();
    }
}

} // verus!
