use vstd::prelude::*;
use vstd::string::*;

use crate::text::chars_of;

verus! {

/// The kind of a script command.
#[derive(Debug, Clone, Copy, PartialEq, Eq, Structural)]
pub enum CommandType {
    Comments,
    Create,
    Open,
    Edit,
    Delete,
    Insert,
    Callback,
    Run,
    Unknown,
}

/// Whether a command targets a file or a directory.
#[derive(Debug, Clone, Copy, PartialEq, Eq, Structural)]
pub enum CreateType {
    File,
    Dir,
}

/// One parsed line of a script.
pub struct Command {
    pub command_type: CommandType,
    pub body: String,
    pub create_type: Option<CreateType>,
    pub file: Option<String>,
    pub line: Option<usize>,
    pub content: Option<String>,
    pub subcommands: Vec<Command>,
}

/// What a parsed command holds, with its texts as character sequences.
pub struct CommandView {
    pub kind: CommandType,
    pub body: Seq<char>,
    pub create_type: Option<CreateType>,
    pub file: Option<Seq<char>>,
    pub line: Option<usize>,
    pub content: Option<Seq<char>>,
}

/// The text of an optional string.
pub open spec fn text_view(o: Option<String>) -> Option<Seq<char>> {
    match o {
        Some(s) => Some(s@),
        None => None,
    }
}

impl View for Command {
    type V = CommandView;

    open spec fn view(&self) -> CommandView {
        CommandView {
            kind: self.command_type,
            body: self.body@,
            create_type: self.create_type,
            file: text_view(self.file),
            line: self.line,
            content: text_view(self.content),
        }
    }
}

/// The view of an optional command.
pub open spec fn command_view_of(o: Option<Command>) -> Option<CommandView> {
    match o {
        Some(c) => Some(c@),
        None => None,
    }
}

// ---------------------------------------------------------------------------
// The grammar, over the characters of a line.
// ---------------------------------------------------------------------------

/// White space, as Unicode's White_Space property lists it.
pub open spec fn white(c: char) -> bool {
    c == ' ' || c == '\t' || c == '\n' || c == '\x0B' || c == '\x0C' || c == '\r'
        || c == '\u{85}' || c == '\u{A0}' || c == '\u{1680}' || c == '\u{2000}'
        || c == '\u{2001}' || c == '\u{2002}' || c == '\u{2003}' || c == '\u{2004}'
        || c == '\u{2005}' || c == '\u{2006}' || c == '\u{2007}' || c == '\u{2008}'
        || c == '\u{2009}' || c == '\u{200A}' || c == '\u{2028}' || c == '\u{2029}'
        || c == '\u{202F}' || c == '\u{205F}' || c == '\u{3000}'
}

/// An ASCII decimal digit.
pub open spec fn is_digit(c: char) -> bool {
    48 <= (c as u32) <= 57
}

/// The first index at or after `i` that holds no white space.
pub open spec fn skip_white(t: Seq<char>, i: int) -> int
    decreases t.len() - i,
{
    if 0 <= i < t.len() && white(t[i]) {
        skip_white(t, i + 1)
    } else {
        i
    }
}

/// The end of `t.subrange(lo, e)` once trailing white space is dropped.
pub open spec fn back_white(t: Seq<char>, lo: int, e: int) -> int
    decreases e - lo,
{
    if lo < e && e <= t.len() && white(t[e - 1]) {
        back_white(t, lo, e - 1)
    } else {
        e
    }
}

/// `s` without leading and trailing white space.
pub open spec fn trimmed(s: Seq<char>) -> Seq<char> {
    let lo = skip_white(s, 0);
    s.subrange(lo, back_white(s, lo, s.len() as int))
}

/// The first newline at or after `i`, or the end of `t`.
pub open spec fn line_end(t: Seq<char>, i: int) -> int
    decreases t.len() - i,
{
    if 0 <= i < t.len() && t[i] != '\n' {
        line_end(t, i + 1)
    } else {
        i
    }
}

/// The first quote in `t.subrange(i, e)`, or `e` where there is none.
pub open spec fn first_quote(t: Seq<char>, i: int, e: int) -> int
    decreases e - i,
{
    if 0 <= i < e && e <= t.len() && t[i] != '"' {
        first_quote(t, i + 1, e)
    } else {
        i
    }
}

/// The last quote in `t.subrange(i, e)`, or `i - 1` where there is none.
pub open spec fn last_quote(t: Seq<char>, i: int, e: int) -> int
    decreases e - i,
{
    if 0 <= i < e && e <= t.len() && t[e - 1] != '"' {
        last_quote(t, i, e - 1)
    } else {
        e - 1
    }
}

/// The first index at or after `i` that holds no digit.
pub open spec fn digits_end(t: Seq<char>, i: int) -> int
    decreases t.len() - i,
{
    if 0 <= i < t.len() && is_digit(t[i]) {
        digits_end(t, i + 1)
    } else {
        i
    }
}

/// The value of a run of decimal digits.
pub open spec fn digits_value(d: Seq<char>) -> nat
    decreases d.len(),
{
    if d.len() == 0 {
        0
    } else {
        digits_value(d.drop_last()) * 10 + ((d.last() as u32) - 48) as nat
    }
}

/// `w` stands in `t` at `i`.
pub open spec fn has_word(t: Seq<char>, i: int, w: Seq<char>) -> bool {
    0 <= i && i + w.len() <= t.len() && t.subrange(i, i + w.len()) == w
}

/// At least one white space at `i`: the index after the run.
pub open spec fn spaced(t: Seq<char>, i: int) -> Option<int> {
    if 0 <= i < t.len() && white(t[i]) {
        Some(skip_white(t, i))
    } else {
        None
    }
}

/// The word `w` at `i`, then white space: the index after it.
pub open spec fn keyword(t: Seq<char>, i: int, w: Seq<char>) -> Option<int> {
    if has_word(t, i, w) {
        spaced(t, i + w.len())
    } else {
        None
    }
}

/// A quoted string at `i` that ends at the first closing quote of the line:
/// its text and the index after the closing quote.
pub open spec fn quoted(t: Seq<char>, i: int) -> Option<(Seq<char>, int)> {
    if 0 <= i < t.len() && t[i] == '"' {
        let e = line_end(t, i + 1);
        let q = first_quote(t, i + 1, e);
        if q < e {
            Some((t.subrange(i + 1, q), q + 1))
        } else {
            None
        }
    } else {
        None
    }
}

/// A quoted string at `i` that ends at the last quote of the line: its text.
pub open spec fn tail_quoted(t: Seq<char>, i: int) -> Option<Seq<char>> {
    if 0 <= i < t.len() && t[i] == '"' {
        let e = line_end(t, i + 1);
        let q = last_quote(t, i + 1, e);
        if q >= i + 1 {
            Some(t.subrange(i + 1, q))
        } else {
            None
        }
    } else {
        None
    }
}

/// A line number at `i`: its value (0 where it does not fit a `usize`) and the
/// index after its digits.
pub open spec fn number(t: Seq<char>, i: int) -> Option<(usize, int)> {
    let j = digits_end(t, i);
    if j > i {
        let v = digits_value(t.subrange(i, j));
        Some((if v <= usize::MAX { v as usize } else { 0usize }, j))
    } else {
        None
    }
}

/// `DIR` or `FILE` at `i`, then white space.
pub open spec fn kind_arg(t: Seq<char>, i: int) -> Option<(CreateType, int)> {
    match keyword(t, i, "DIR"@) {
        Some(j) => Some((CreateType::Dir, j)),
        None => match keyword(t, i, "FILE"@) {
            Some(j) => Some((CreateType::File, j)),
            None => None,
        },
    }
}

/// A quoted path at `i`, then white space.
pub open spec fn path_arg(t: Seq<char>, i: int) -> Option<(Seq<char>, int)> {
    match quoted(t, i) {
        Some((p, j)) => match spaced(t, j) {
            Some(k) => Some((p, k)),
            None => None,
        },
        None => None,
    }
}

/// `LINE`, white space and a line number at `i`.
pub open spec fn line_arg(t: Seq<char>, i: int) -> Option<(usize, int)> {
    match keyword(t, i, "LINE"@) {
        Some(j) => number(t, j),
        None => None,
    }
}

/// A command view from its parts.
pub open spec fn make_view(
    kind: CommandType,
    body: Seq<char>,
    create_type: Option<CreateType>,
    file: Option<Seq<char>>,
    line: Option<usize>,
    content: Option<Seq<char>>,
) -> CommandView {
    CommandView { kind, body, create_type, file, line, content }
}

/// `WORD "text"`, for a command that carries one free text.
pub open spec fn text_form(t: Seq<char>, w: Seq<char>, kind: CommandType) -> Option<CommandView> {
    match keyword(t, 0, w) {
        Some(i) => match tail_quoted(t, i) {
            Some(b) => Some(make_view(kind, b, None, None, None, None)),
            None => None,
        },
        None => None,
    }
}

/// `WORD (DIR|FILE) "path"`.
pub open spec fn entry_form(t: Seq<char>, w: Seq<char>, kind: CommandType) -> Option<CommandView> {
    match keyword(t, 0, w) {
        Some(i) => match kind_arg(t, i) {
            Some((ct, j)) => match tail_quoted(t, j) {
                Some(p) => Some(make_view(kind, t, Some(ct), Some(p), None, None)),
                None => None,
            },
            None => None,
        },
        None => None,
    }
}

/// `INSERT FILE "path" LINE n INSERT "text"`.
pub open spec fn insert_form(t: Seq<char>) -> Option<CommandView> {
    match keyword(t, 0, "INSERT"@) {
        Some(i) => match keyword(t, i, "FILE"@) {
            Some(j) => match path_arg(t, j) {
                Some((p, k)) => match line_arg(t, k) {
                    Some((n, m)) => match spaced(t, m) {
                        Some(m2) => match keyword(t, m2, "INSERT"@) {
                            Some(m3) => match tail_quoted(t, m3) {
                                Some(c) => Some(make_view(CommandType::Insert, t,
                                    Some(CreateType::File), Some(p), Some(n), Some(c))),
                                None => None,
                            },
                            None => None,
                        },
                        None => None,
                    },
                    None => None,
                },
                None => None,
            },
            None => None,
        },
        None => None,
    }
}

/// `DELETE FILE "path" LINE n`.
pub open spec fn delete_form(t: Seq<char>) -> Option<CommandView> {
    match keyword(t, 0, "DELETE"@) {
        Some(i) => match keyword(t, i, "FILE"@) {
            Some(j) => match path_arg(t, j) {
                Some((p, k)) => match line_arg(t, k) {
                    Some((n, m)) => Some(make_view(CommandType::Delete, t,
                        Some(CreateType::File), Some(p), Some(n), None)),
                    None => None,
                },
                None => None,
            },
            None => None,
        },
        None => None,
    }
}

/// `EDIT (DIR|FILE) "path" LINE n PUT "text"`.
pub open spec fn edit_form(t: Seq<char>) -> Option<CommandView> {
    match keyword(t, 0, "EDIT"@) {
        Some(i) => match kind_arg(t, i) {
            Some((ct, j)) => match path_arg(t, j) {
                Some((p, k)) => match line_arg(t, k) {
                    Some((n, m)) => match spaced(t, m) {
                        Some(m2) => match keyword(t, m2, "PUT"@) {
                            Some(m3) => match tail_quoted(t, m3) {
                                Some(c) => Some(make_view(CommandType::Edit, t,
                                    Some(ct), Some(p), Some(n), Some(c))),
                                None => None,
                            },
                            None => None,
                        },
                        None => None,
                    },
                    None => None,
                },
                None => None,
            },
            None => None,
        },
        None => None,
    }
}

/// The command that an already trimmed line `t` stands for: the first form that
/// matches, in the order below, else an unknown command holding `t`.
pub open spec fn parsed_trimmed(t: Seq<char>) -> CommandView {
    if let Some(c) = text_form(t, "COMMENTS"@, CommandType::Comments) {
        c
    } else if let Some(c) = entry_form(t, "CREATE"@, CommandType::Create) {
        c
    } else if let Some(c) = entry_form(t, "OPEN"@, CommandType::Open) {
        c
    } else if let Some(c) = insert_form(t) {
        c
    } else if let Some(c) = delete_form(t) {
        c
    } else if let Some(c) = edit_form(t) {
        c
    } else if let Some(c) = text_form(t, "RUN"@, CommandType::Run) {
        c
    } else if let Some(c) = text_form(t, "CALLBACK"@, CommandType::Callback) {
        c
    } else {
        make_view(CommandType::Unknown, t, None, None, None, None)
    }
}

/// The command that the line `s` stands for.
pub open spec fn parsed(s: Seq<char>) -> CommandView {
    parsed_trimmed(trimmed(s))
}

/// A line whose text holds no quote parses as an unknown command that keeps
/// the trimmed line: every form needs a quoted argument.
pub proof fn lemma_unquoted_is_unknown(s: Seq<char>)
    requires
        forall|i: int| 0 <= i < trimmed(s).len() ==> #[trigger] trimmed(s)[i] != '"',
    ensures
        parsed(s).kind == CommandType::Unknown,
        parsed(s).body == trimmed(s),
{
    let t = trimmed(s);
    assert forall|i: int| #[trigger] tail_quoted(t, i) is None by {
        if 0 <= i < t.len() {
            assert(t[i] != '"');
        }
    }
    assert forall|i: int| #[trigger] quoted(t, i) is None by {
        if 0 <= i < t.len() {
            assert(t[i] != '"');
        }
    }
    assert forall|i: int| #[trigger] path_arg(t, i) is None by {
        assert(quoted(t, i) is None);
    }
}

/// The commands of the script `s` from index `i` on: one for each line that
/// holds more than white space, lines being separated by newlines.
pub open spec fn script_from(s: Seq<char>, i: int) -> Seq<CommandView>
    decreases s.len() - i,
{
    if i < 0 || i > s.len() {
        Seq::empty()
    } else {
        let e = line_end(s, i);
        let l = s.subrange(i, e);
        let head = if trimmed(l).len() > 0 { seq![parsed(l)] } else { Seq::empty() };
        if e < i || e >= s.len() {
            head
        } else {
            head + script_from(s, e + 1)
        }
    }
}

/// The commands of the script `s`.
pub open spec fn script(s: Seq<char>) -> Seq<CommandView> {
    script_from(s, 0)
}

/// The views of a list of commands.
pub open spec fn command_views(cs: Seq<Command>) -> Seq<CommandView> {
    cs.map_values(|c: Command| c@)
}

// ---------------------------------------------------------------------------
// The scanner.
// ---------------------------------------------------------------------------

fn is_white(c: char) -> (r: bool)
    ensures
        r == white(c),
{
    c == ' ' || c == '\t' || c == '\n' || c == '\x0B' || c == '\x0C' || c == '\r'
        || c == '\u{85}' || c == '\u{A0}' || c == '\u{1680}' || c == '\u{2000}'
        || c == '\u{2001}' || c == '\u{2002}' || c == '\u{2003}' || c == '\u{2004}'
        || c == '\u{2005}' || c == '\u{2006}' || c == '\u{2007}' || c == '\u{2008}'
        || c == '\u{2009}' || c == '\u{200A}' || c == '\u{2028}' || c == '\u{2029}'
        || c == '\u{202F}' || c == '\u{205F}' || c == '\u{3000}'
}

fn skip_white_at(v: &Vec<char>, i: usize) -> (r: usize)
    requires
        i <= v@.len(),
    ensures
        r as int == skip_white(v@, i as int),
        i <= r <= v@.len(),
{
    let mut k = i;
    while k < v.len() && is_white(v[k])
        invariant
            i <= k <= v@.len(),
            skip_white(v@, k as int) == skip_white(v@, i as int),
        decreases v@.len() - k,
    {
        k = k + 1;
    }
    k
}

fn back_white_at(v: &Vec<char>, lo: usize, e: usize) -> (r: usize)
    requires
        lo <= e <= v@.len(),
    ensures
        r as int == back_white(v@, lo as int, e as int),
        lo <= r <= e,
{
    let mut k = e;
    while lo < k && is_white(v[k - 1])
        invariant
            lo <= k <= e,
            e <= v@.len(),
            back_white(v@, lo as int, k as int) == back_white(v@, lo as int, e as int),
        decreases k,
    {
        k = k - 1;
    }
    k
}

fn line_end_at(v: &Vec<char>, i: usize) -> (r: usize)
    requires
        i <= v@.len(),
    ensures
        r as int == line_end(v@, i as int),
        i <= r <= v@.len(),
{
    let mut k = i;
    while k < v.len() && v[k] != '\n'
        invariant
            i <= k <= v@.len(),
            line_end(v@, k as int) == line_end(v@, i as int),
        decreases v@.len() - k,
    {
        k = k + 1;
    }
    k
}

fn first_quote_at(v: &Vec<char>, i: usize, e: usize) -> (r: usize)
    requires
        i <= e <= v@.len(),
    ensures
        r as int == first_quote(v@, i as int, e as int),
        i <= r <= e,
{
    let mut k = i;
    while k < e && v[k] != '"'
        invariant
            i <= k <= e,
            e <= v@.len(),
            first_quote(v@, k as int, e as int) == first_quote(v@, i as int, e as int),
        decreases e - k,
    {
        k = k + 1;
    }
    k
}

/// The index after the last quote in `v[i..e]`, or `i` where there is none.
fn last_quote_at(v: &Vec<char>, i: usize, e: usize) -> (r: usize)
    requires
        1 <= i <= e <= v@.len(),
    ensures
        r as int == last_quote(v@, i as int, e as int) + 1,
        i <= r <= e,
{
    let mut k = e;
    while i < k && v[k - 1] != '"'
        invariant
            1 <= i <= k <= e,
            e <= v@.len(),
            last_quote(v@, i as int, k as int) == last_quote(v@, i as int, e as int),
        decreases k,
    {
        k = k - 1;
    }
    k
}

fn digits_end_at(v: &Vec<char>, i: usize) -> (r: usize)
    requires
        i <= v@.len(),
    ensures
        r as int == digits_end(v@, i as int),
        i <= r <= v@.len(),
{
    let mut k = i;
    while k < v.len() && (v[k] as u32) >= 48 && (v[k] as u32) <= 57
        invariant
            i <= k <= v@.len(),
            digits_end(v@, k as int) == digits_end(v@, i as int),
        decreases v@.len() - k,
    {
        k = k + 1;
    }
    k
}

fn word_at(v: &Vec<char>, i: usize, w: &str) -> (r: bool)
    requires
        i <= v@.len(),
    ensures
        r == has_word(v@, i as int, w@),
{
    let wc = chars_of(w);
    let n = v.len();
    if wc.len() > n - i {
        return false;
    }
    let mut m: usize = 0;
    while m < wc.len()
        invariant
            wc@ == w@,
            n == v@.len(),
            i + wc@.len() <= v@.len(),
            0 <= m <= wc@.len(),
            forall|x: int| 0 <= x < m ==> v@[i + x] == wc@[x],
        decreases wc@.len() - m,
    {
        if v[i + m] != wc[m] {
            assert(v@.subrange(i as int, i + w@.len())[m as int] != w@[m as int]);
            return false;
        }
        m = m + 1;
    }
    assert(v@.subrange(i as int, i + w@.len()) =~= w@);
    true
}

fn spaced_at(v: &Vec<char>, i: usize) -> (r: Option<usize>)
    requires
        i <= v@.len(),
    ensures
        match r {
            Some(k) => spaced(v@, i as int) == Some(k as int) && k <= v@.len(),
            None => spaced(v@, i as int) is None,
        },
{
    if i < v.len() && is_white(v[i]) {
        Some(skip_white_at(v, i))
    } else {
        None
    }
}

fn keyword_at(v: &Vec<char>, i: usize, w: &str) -> (r: Option<usize>)
    requires
        i <= v@.len(),
    ensures
        match r {
            Some(k) => keyword(v@, i as int, w@) == Some(k as int) && k <= v@.len(),
            None => keyword(v@, i as int, w@) is None,
        },
{
    let n = v.len();
    if word_at(v, i, w) {
        assert(i + w@.len() <= n);
        spaced_at(v, i + w.unicode_len())
    } else {
        None
    }
}

/// Copies `tr@.subrange(a, b)` into a new string.
fn slice_text(tr: &str, a: usize, b: usize) -> (r: String)
    requires
        a <= b <= tr@.len(),
    ensures
        r@ == tr@.subrange(a as int, b as int),
{
    String::from_str(tr.substring_char(a, b))
}

fn quoted_at(v: &Vec<char>, tr: &str, i: usize) -> (r: Option<(String, usize)>)
    requires
        v@ == tr@,
        i <= v@.len(),
    ensures
        match r {
            Some((s, k)) => quoted(v@, i as int) == Some((s@, k as int)) && k <= v@.len(),
            None => quoted(v@, i as int) is None,
        },
{
    if i < v.len() && v[i] == '"' {
        let e = line_end_at(v, i + 1);
        let q = first_quote_at(v, i + 1, e);
        if q < e {
            Some((slice_text(tr, i + 1, q), q + 1))
        } else {
            None
        }
    } else {
        None
    }
}

fn tail_quoted_at(v: &Vec<char>, tr: &str, i: usize) -> (r: Option<String>)
    requires
        v@ == tr@,
        i <= v@.len(),
    ensures
        text_view(r) == tail_quoted(v@, i as int),
{
    if i < v.len() && v[i] == '"' {
        let e = line_end_at(v, i + 1);
        let q = last_quote_at(v, i + 1, e);
        if q > i + 1 {
            Some(slice_text(tr, i + 1, q - 1))
        } else {
            None
        }
    } else {
        None
    }
}

proof fn lemma_digits_value_push(d: Seq<char>, c: char)
    ensures
        digits_value(d.push(c)) == digits_value(d) * 10 + ((c as u32) - 48) as nat,
{
    assert(d.push(c).drop_last() =~= d);
}

fn number_at(v: &Vec<char>, i: usize) -> (r: Option<(usize, usize)>)
    requires
        i <= v@.len(),
    ensures
        match r {
            Some((n, k)) => number(v@, i as int) == Some((n, k as int)) && k <= v@.len(),
            None => number(v@, i as int) is None,
        },
{
    let j = digits_end_at(v, i);
    if j == i {
        return None;
    }
    let mut k = i;
    let mut value: usize = 0;
    let mut fits = true;
    while k < j
        invariant
            i <= k <= j,
            j as int == digits_end(v@, i as int),
            j <= v@.len(),
            fits ==> value as nat == digits_value(v@.subrange(i as int, k as int)),
            !fits ==> digits_value(v@.subrange(i as int, k as int)) > usize::MAX,
        decreases j - k,
    {
        proof {
            lemma_digits_end_digit(v@, i as int, k as int);
            lemma_digits_value_push(v@.subrange(i as int, k as int), v@[k as int]);
            assert(v@.subrange(i as int, k + 1) =~= v@.subrange(i as int, k as int).push(v@[k as int]));
        }
        let d = (v[k] as u32 - 48) as usize;
        if fits {
            if value > (usize::MAX - d) / 10 {
                fits = false;
            } else {
                value = value * 10 + d;
            }
        }
        k = k + 1;
    }
    if fits {
        Some((value, j))
    } else {
        Some((0, j))
    }
}

proof fn lemma_digits_end_digit(t: Seq<char>, i: int, k: int)
    requires
        0 <= i <= k < digits_end(t, i),
    ensures
        k < t.len(),
        is_digit(t[k]),
    decreases k - i,
{
    if i < k {
        lemma_digits_end_digit(t, i + 1, k);
    }
}

fn kind_at(v: &Vec<char>, i: usize) -> (r: Option<(CreateType, usize)>)
    requires
        i <= v@.len(),
    ensures
        match r {
            Some((ct, k)) => kind_arg(v@, i as int) == Some((ct, k as int)) && k <= v@.len(),
            None => kind_arg(v@, i as int) is None,
        },
{
    match keyword_at(v, i, "DIR") {
        Some(j) => Some((CreateType::Dir, j)),
        None => match keyword_at(v, i, "FILE") {
            Some(j) => Some((CreateType::File, j)),
            None => None,
        },
    }
}

fn path_at(v: &Vec<char>, tr: &str, i: usize) -> (r: Option<(String, usize)>)
    requires
        v@ == tr@,
        i <= v@.len(),
    ensures
        match r {
            Some((s, k)) => path_arg(v@, i as int) == Some((s@, k as int)) && k <= v@.len(),
            None => path_arg(v@, i as int) is None,
        },
{
    match quoted_at(v, tr, i) {
        Some((p, j)) => match spaced_at(v, j) {
            Some(k) => Some((p, k)),
            None => None,
        },
        None => None,
    }
}

fn line_at(v: &Vec<char>, i: usize) -> (r: Option<(usize, usize)>)
    requires
        i <= v@.len(),
    ensures
        match r {
            Some((n, k)) => line_arg(v@, i as int) == Some((n, k as int)) && k <= v@.len(),
            None => line_arg(v@, i as int) is None,
        },
{
    match keyword_at(v, i, "LINE") {
        Some(j) => number_at(v, j),
        None => None,
    }
}

fn make_command(
    command_type: CommandType,
    body: String,
    create_type: Option<CreateType>,
    file: Option<String>,
    line: Option<usize>,
    content: Option<String>,
) -> (c: Command)
    ensures
        c@ == make_view(command_type, body@, create_type, text_view(file), line, text_view(content)),
        c.subcommands@.len() == 0,
{
    Command { command_type, body, create_type, file, line, content, subcommands: Vec::new() }
}

fn text_form_at(v: &Vec<char>, tr: &str, w: &str, kind: CommandType) -> (r: Option<Command>)
    requires
        v@ == tr@,
    ensures
        command_view_of(r) == text_form(v@, w@, kind),
        r is Some ==> r->0.subcommands@.len() == 0,
{
    match keyword_at(v, 0, w) {
        Some(i) => match tail_quoted_at(v, tr, i) {
            Some(b) => Some(make_command(kind, b, None, None, None, None)),
            None => None,
        },
        None => None,
    }
}

fn entry_form_at(v: &Vec<char>, tr: &str, w: &str, kind: CommandType) -> (r: Option<Command>)
    requires
        v@ == tr@,
    ensures
        command_view_of(r) == entry_form(v@, w@, kind),
        r is Some ==> r->0.subcommands@.len() == 0,
{
    match keyword_at(v, 0, w) {
        Some(i) => match kind_at(v, i) {
            Some((ct, j)) => match tail_quoted_at(v, tr, j) {
                Some(p) => Some(make_command(kind, String::from_str(tr), Some(ct), Some(p), None, None)),
                None => None,
            },
            None => None,
        },
        None => None,
    }
}

fn insert_form_at(v: &Vec<char>, tr: &str) -> (r: Option<Command>)
    requires
        v@ == tr@,
    ensures
        command_view_of(r) == insert_form(v@),
        r is Some ==> r->0.subcommands@.len() == 0,
{
    let i = match keyword_at(v, 0, "INSERT") { Some(i) => i, None => return None };
    let j = match keyword_at(v, i, "FILE") { Some(j) => j, None => return None };
    let (p, k) = match path_at(v, tr, j) { Some(x) => x, None => return None };
    let (n, m) = match line_at(v, k) { Some(x) => x, None => return None };
    let m2 = match spaced_at(v, m) { Some(x) => x, None => return None };
    let m3 = match keyword_at(v, m2, "INSERT") { Some(x) => x, None => return None };
    let c = match tail_quoted_at(v, tr, m3) { Some(x) => x, None => return None };
    Some(make_command(CommandType::Insert, String::from_str(tr), Some(CreateType::File), Some(p), Some(n), Some(c)))
}

fn delete_form_at(v: &Vec<char>, tr: &str) -> (r: Option<Command>)
    requires
        v@ == tr@,
    ensures
        command_view_of(r) == delete_form(v@),
        r is Some ==> r->0.subcommands@.len() == 0,
{
    let i = match keyword_at(v, 0, "DELETE") { Some(i) => i, None => return None };
    let j = match keyword_at(v, i, "FILE") { Some(j) => j, None => return None };
    let (p, k) = match path_at(v, tr, j) { Some(x) => x, None => return None };
    let (n, _m) = match line_at(v, k) { Some(x) => x, None => return None };
    Some(make_command(CommandType::Delete, String::from_str(tr), Some(CreateType::File), Some(p), Some(n), None))
}

fn edit_form_at(v: &Vec<char>, tr: &str) -> (r: Option<Command>)
    requires
        v@ == tr@,
    ensures
        command_view_of(r) == edit_form(v@),
        r is Some ==> r->0.subcommands@.len() == 0,
{
    let i = match keyword_at(v, 0, "EDIT") { Some(i) => i, None => return None };
    let (ct, j) = match kind_at(v, i) { Some(x) => x, None => return None };
    let (p, k) = match path_at(v, tr, j) { Some(x) => x, None => return None };
    let (n, m) = match line_at(v, k) { Some(x) => x, None => return None };
    let m2 = match spaced_at(v, m) { Some(x) => x, None => return None };
    let m3 = match keyword_at(v, m2, "PUT") { Some(x) => x, None => return None };
    let c = match tail_quoted_at(v, tr, m3) { Some(x) => x, None => return None };
    Some(make_command(CommandType::Edit, String::from_str(tr), Some(ct), Some(p), Some(n), Some(c)))
}

/// `s` without leading and trailing white space.
pub fn trim_text(s: &str) -> (r: String)
    ensures
        r@ == trimmed(s@),
{
    let sc = chars_of(s);
    let lo = skip_white_at(&sc, 0);
    let hi = back_white_at(&sc, lo, sc.len());
    String::from_str(s.substring_char(lo, hi))
}

/// Whether `s` holds nothing but white space.
fn is_blank(s: &str) -> (r: bool)
    ensures
        r == (trimmed(s@).len() == 0),
{
    let sc = chars_of(s);
    let lo = skip_white_at(&sc, 0);
    let hi = back_white_at(&sc, lo, sc.len());
    lo == hi
}

/// Parses a script: one command for each line that holds more than white
/// space, in order.
pub fn parse_script(script: &str) -> (r: Vec<Command>)
    ensures
        command_views(r@) == self::script(script@),
        forall|i: int| 0 <= i < r@.len() ==> (#[trigger] r@[i]).subcommands@.len() == 0,
{
    let v = chars_of(script);
    let n = v.len();
    let mut out: Vec<Command> = Vec::new();
    let mut start: usize = 0;
    loop
        invariant
            v@ == script@,
            n == v@.len(),
            start <= n,
            command_views(out@) + script_from(v@, start as int) == script_from(v@, 0),
            forall|i: int| 0 <= i < out@.len() ==> (#[trigger] out@[i]).subcommands@.len() == 0,
        decreases n - start,
    {
        let e = line_end_at(&v, start);
        let seg = script.substring_char(start, e);
        let ghost before = out@;
        if !is_blank(seg) {
            let c = parse_command(seg);
            out.push(c);
        }
        assert(command_views(out@) =~= command_views(before) + (if trimmed(seg@).len() > 0 {
            seq![parsed(seg@)]
        } else {
            Seq::<CommandView>::empty()
        }));
        if e >= n {
            assert(command_views(out@) == script_from(v@, 0));
            return out;
        }
        start = e + 1;
    }
}

/// Parses one line of a script. Every line gives exactly one command: a line
/// that matches no form becomes an unknown command holding the trimmed line.
pub fn parse_command(line: &str) -> (r: Command)
    ensures
        r@ == parsed(line@),
        r.subcommands@.len() == 0,
{
    let sc = chars_of(line);
    let lo = skip_white_at(&sc, 0);
    let hi = back_white_at(&sc, lo, sc.len());
    let tr = line.substring_char(lo, hi);
    let v = chars_of(tr);
    assert(v@ == trimmed(line@));
    if let Some(c) = text_form_at(&v, tr, "COMMENTS", CommandType::Comments) {
        return c;
    }
    if let Some(c) = entry_form_at(&v, tr, "CREATE", CommandType::Create) {
        return c;
    }
    if let Some(c) = entry_form_at(&v, tr, "OPEN", CommandType::Open) {
        return c;
    }
    if let Some(c) = insert_form_at(&v, tr) {
        return c;
    }
    if let Some(c) = delete_form_at(&v, tr) {
        return c;
    }
    if let Some(c) = edit_form_at(&v, tr) {
        return c;
    }
    if let Some(c) = text_form_at(&v, tr, "RUN", CommandType::Run) {
        return c;
    }
    if let Some(c) = text_form_at(&v, tr, "CALLBACK", CommandType::Callback) {
        return c;
    }
    make_command(CommandType::Unknown, String::from_str(tr), None, None, None, None)
}

} // verus!
