//! Process-name based client detection. A title alone also fits browser tabs
//! and chat channels; the executable's name does not.
use vstd::prelude::*;
use crate::numerals;
use crate::text;

verus! {

/// What follows the last path separator, either kind.
pub open spec fn basename(path: Seq<char>) -> Seq<char> {
    text::split(path, |c: char| c == '\\' || c == '/').last()
}

/// Whether the file that `path` names is `exefile.exe`, whatever the case of
/// its letters.
pub fn path_basename_is_eve_exe(path: &str) -> (r: bool)
    ensures
        r == text::same_but_case(basename(path@), "exefile.exe"@),
{
    let cs: Vec<char> = text::chars_of(path);
    let ghost sep = |c: char| c == '\\' || c == '/';
    let mut cur: String = String::new();
    let mut i: usize = 0;
    while i < cs.len()
        invariant
            i <= cs.len(),
            cs@ == path@,
            sep == (|c: char| c == '\\' || c == '/'),
            cur@ == text::split(path@.take(i as int), sep).last(),
            text::split(path@.take(i as int), sep).len() > 0,
        decreases cs.len() - i,
    {
        let c: char = cs[i];
        assert(path@.take(i + 1).drop_last() == path@.take(i as int));
        assert(path@.take(i + 1).last() == c);
        if c == '\\' || c == '/' {
            cur = String::new();
        } else {
            cur.push(c);
        }
        i = i + 1;
    }
    assert(path@.take(i as int) == path@);
    text::eq_ignore_ascii_case(cur.as_str(), "exefile.exe")
}

/// What reading a process's short name gave.
pub enum CommRead {
    /// The contents.
    Read(String),
    /// There is no such process.
    NotFound,
    /// It could not be read.
    Failed,
}

/// Whether a process's short name, as read, is the client's.
pub open spec fn comm_is_eve(comm: Seq<char>) -> bool {
    text::trimmed(comm) == "exefile.exe"@
}

pub fn comm_is_eve_client(comm: &str) -> (r: bool)
    ensures
        r == comm_is_eve(comm@),
{
    text::same(text::trim(comm).as_str(), "exefile.exe")
}

/// Whether a process is a client. A process that the host does not know is
/// taken for one if any client runs: in a sandbox of its own, the number that
/// a window reports has no meaning outside.
pub fn pid_is_eve_client(comm: CommRead, any_client_running: bool) -> (r: bool)
    ensures
        r == (match comm {
            CommRead::Read(s) => comm_is_eve(s@),
            CommRead::NotFound => any_client_running,
            CommRead::Failed => false,
        }),
{
    match comm {
        CommRead::Read(s) => comm_is_eve_client(s.as_str()),
        CommRead::NotFound => any_client_running,
        CommRead::Failed => false,
    }
}

/// Only ASCII digits.
pub open spec fn digits_only(name: Seq<char>) -> bool {
    forall|i: int| 0 <= i < name.len() ==> '0' <= #[trigger] name[i] <= '9'
}

/// Whether a directory entry is named like a process: by digits alone.
pub fn is_process_entry(name: &str) -> (r: bool)
    ensures
        r == digits_only(name@),
{
    let cs: Vec<char> = text::chars_of(name);
    let mut i: usize = 0;
    while i < cs.len()
        invariant
            i <= cs.len(),
            cs@ == name@,
            forall|k: int| 0 <= k < i ==> '0' <= #[trigger] name@[k] <= '9',
        decreases cs.len() - i,
    {
        let c: char = cs[i];
        if !('0' <= c && c <= '9') {
            assert(!('0' <= name@[i as int] <= '9'));
            return false;
        }
        i = i + 1;
    }
    true
}

/// A process listed by the system: the name of its entry and its short name,
/// where that could be read.
pub struct ProcessEntry {
    pub entry: String,
    pub comm: Option<String>,
}

pub open spec fn entry_is_client(p: ProcessEntry) -> bool {
    digits_only(p.entry@) && (p.comm matches Some(c) && comm_is_eve(c@))
}

/// Whether any of the listed processes is a client.
pub fn any_exefile_process_running(entries: &Vec<ProcessEntry>) -> (r: bool)
    ensures
        r == (exists|i: int| 0 <= i < entries@.len() && entry_is_client(#[trigger] entries@[i])),
{
    let mut i: usize = 0;
    while i < entries.len()
        invariant
            i <= entries.len(),
            forall|k: int| 0 <= k < i ==> !entry_is_client(#[trigger] entries@[k]),
        decreases entries.len() - i,
    {
        let e: &ProcessEntry = &entries[i];
        if is_process_entry(e.entry.as_str()) {
            if let Some(c) = &e.comm {
                if comm_is_eve_client(c.as_str()) {
                    assert(entry_is_client(entries@[i as int]));
                    return true;
                }
            }
        }
        i = i + 1;
    }
    false
}

/// The last name of a path stands behind its last slash, of either kind.
pub proof fn law_basename_stands_behind_the_last_slash(
    directory: Seq<char>,
    slash: char,
    name: Seq<char>,
)
    requires
        slash == '/' || slash == '\\',
        !name.contains('/'),
        !name.contains('\\'),
    ensures
        basename(directory + seq![slash] + name) == name,
        basename(name) == name,
{
    let sep = |c: char| c == '\\' || c == '/';
    assert forall|i: int| 0 <= i < name.len() implies !sep(#[trigger] name[i]) by {
        assert(name.contains(name[i]));
    }
    text::law_last_piece_stands_behind_the_separator(directory, slash, name, sep);
}

/// A process is a client where its name is `exefile.exe`, whatever white space
/// stands around it.
pub proof fn law_client_has_the_name(comm: Seq<char>, from: int, to: int)
    ensures
        0 <= from <= to <= comm.len() && comm.subrange(from, to) == "exefile.exe"@ && (forall|i: int|
            (0 <= i < from || to <= i < comm.len()) ==> text::is_white_space(#[trigger] comm[i]))
            ==> comm_is_eve(comm),
        comm_is_eve(comm) ==> text::has_substring(comm, "exefile.exe"@),
{
    reveal_strlit("exefile.exe");
    let cut = text::law_trimming_cuts_the_ends(comm);
    if 0 <= from <= to <= comm.len() && comm.subrange(from, to) == "exefile.exe"@ && (forall|i: int|
        (0 <= i < from || to <= i < comm.len()) ==> text::is_white_space(#[trigger] comm[i])) {
        assert(comm.subrange(from, to).len() == to - from);
        assert("exefile.exe"@.len() == 11);
        assert(comm.subrange(from, to)[0] == comm[from]);
        assert(comm.subrange(from, to)[10] == comm[from + 10]);
        assert(!text::is_white_space(comm[from]));
        assert(!text::is_white_space(comm[to - 1]));
        assert(cut.0 <= from);
        assert(cut.1 >= to);
        assert(!text::is_white_space(comm[cut.0]));
        assert(!text::is_white_space(comm[cut.1 - 1]));
        assert(cut.0 == from && cut.1 == to);
    }
    if comm_is_eve(comm) {
        assert(cut.1 == cut.0 + "exefile.exe"@.len());
    }
}

/// An entry is a process where its name is a number, and a client's where the
/// process has the client's name too.
pub proof fn law_process_entries_are_numbers(n: nat, name: Seq<char>, i: int, p: ProcessEntry)
    ensures
        digits_only(numerals::decimal(n)),
        0 <= i < name.len() && !('0' <= name[i] && name[i] <= '9') ==> !digits_only(name),
        entry_is_client(p) ==> digits_only(p.entry@) && p.comm is Some,
        p.comm is None ==> !entry_is_client(p),
        p.entry@ == numerals::decimal(n) && (p.comm matches Some(c) && comm_is_eve(c@))
            ==> entry_is_client(p),
        (p.comm matches Some(c) && !comm_is_eve(c@)) ==> !entry_is_client(p),
{
    numerals::law_decimal_has_digits_only(n);
}

} // verus!
