//! Panic actions: which processes to kill and which sounds to mute.
use vstd::prelude::*;
use crate::config::Platform;
use crate::eve_match::ProcessEntry;
use crate::json;
use crate::json::{Json, JsonTree};
use crate::numerals;
use crate::text;

verus! {

/// A running process: its number and the name of its executable.
#[derive(Debug)]
pub struct Process {
    pub pid: u32,
    pub name: String,
}

/// What a listing entry says of a process, where it says it.
pub open spec fn process_of_entry(e: ProcessEntry) -> Option<(u32, Seq<char>)> {
    match numerals::unsigned_to(e.entry@, 10, u32::MAX as nat) {
        Some(pid) => match e.comm {
            Some(c) => Some((pid as u32, text::trimmed(c@))),
            None => None,
        },
        None => None,
    }
}

/// The processes of a listing, in listing order.
pub open spec fn listed_processes(entries: Seq<ProcessEntry>) -> Seq<(u32, Seq<char>)>
    decreases entries.len(),
{
    if entries.len() == 0 {
        Seq::empty()
    } else {
        let front = listed_processes(entries.drop_last());
        match process_of_entry(entries.last()) {
            Some(p) => front.push(p),
            None => front,
        }
    }
}

/// Numbers and names of processes.
pub open spec fn process_view(ps: Seq<Process>) -> Seq<(u32, Seq<char>)> {
    Seq::new(ps.len(), |i: int| (ps[i].pid, ps[i].name@))
}

/// Reads a listing: an entry named by a process number, with the short name
/// beside it.
pub fn processes(entries: &Vec<ProcessEntry>) -> (r: Vec<Process>)
    ensures
        process_view(r@) == listed_processes(entries@),
{
    let mut out: Vec<Process> = Vec::new();
    let mut i: usize = 0;
    while i < entries.len()
        invariant
            i <= entries.len(),
            process_view(out@) == listed_processes(entries@.take(i as int)),
        decreases entries.len() - i,
    {
        assert(entries@.take(i + 1).drop_last() == entries@.take(i as int));
        assert(entries@.take(i + 1).last() == entries@[i as int]);
        let e: &ProcessEntry = &entries[i];
        if let Some(pid) = numerals::parse_u32(e.entry.as_str()) {
            if let Some(c) = &e.comm {
                let ghost before = process_view(out@);
                out.push(Process { pid, name: text::trim(c.as_str()) });
                assert(process_view(out@) == before.push((out@.last().pid, out@.last().name@)));
            }
        }
        i = i + 1;
    }
    assert(entries@.take(i as int) == entries@);
    out
}

/// Whether an executable is the client.
pub open spec fn is_client_name(platform: Platform, name: Seq<char>) -> bool {
    match platform {
        Platform::Unix => name == "exefile.exe"@,
        Platform::Windows => text::same_but_case(name, "exefile.exe"@),
    }
}

/// Whether an executable is this program.
pub open spec fn is_own_name(platform: Platform, name: Seq<char>) -> bool {
    match platform {
        Platform::Unix => text::same_but_case(name, "nicotine"@),
        Platform::Windows => text::same_but_case(name, "nicotine.exe"@),
    }
}

/// The numbers of the processes that satisfy `pick`, in order.
pub open spec fn picked(ps: Seq<Process>, pick: spec_fn(Seq<char>) -> bool) -> Seq<u32>
    decreases ps.len(),
{
    if ps.len() == 0 {
        Seq::empty()
    } else {
        let front = picked(ps.drop_last(), pick);
        if pick(ps.last().name@) {
            front.push(ps.last().pid)
        } else {
            front
        }
    }
}

/// All running clients.
pub open spec fn clients_among(platform: Platform, ps: Seq<Process>) -> Seq<u32> {
    picked(ps, |name: Seq<char>| is_client_name(platform, name))
}

/// All running processes of this program.
pub open spec fn own_among(platform: Platform, ps: Seq<Process>) -> Seq<u32> {
    picked(ps, |name: Seq<char>| is_own_name(platform, name))
}

pub fn eve_client_pids(platform: Platform, ps: &Vec<Process>) -> (r: Vec<u32>)
    ensures
        r@ == clients_among(platform, ps@),
{
    let mut out: Vec<u32> = Vec::new();
    let mut i: usize = 0;
    while i < ps.len()
        invariant
            i <= ps.len(),
            out@ == clients_among(platform, ps@.take(i as int)),
        decreases ps.len() - i,
    {
        assert(ps@.take(i + 1).drop_last() == ps@.take(i as int));
        assert(ps@.take(i + 1).last() == ps@[i as int]);
        let name: &str = ps[i].name.as_str();
        let hit: bool = match platform {
            Platform::Unix => text::same(name, "exefile.exe"),
            Platform::Windows => text::eq_ignore_ascii_case(name, "exefile.exe"),
        };
        if hit {
            out.push(ps[i].pid);
        }
        i = i + 1;
    }
    assert(ps@.take(i as int) == ps@);
    out
}

pub fn nicotine_pids(platform: Platform, ps: &Vec<Process>) -> (r: Vec<u32>)
    ensures
        r@ == own_among(platform, ps@),
{
    let mut out: Vec<u32> = Vec::new();
    let mut i: usize = 0;
    while i < ps.len()
        invariant
            i <= ps.len(),
            out@ == own_among(platform, ps@.take(i as int)),
        decreases ps.len() - i,
    {
        assert(ps@.take(i + 1).drop_last() == ps@.take(i as int));
        assert(ps@.take(i + 1).last() == ps@[i as int]);
        let name: &str = ps[i].name.as_str();
        let hit: bool = match platform {
            Platform::Unix => text::eq_ignore_ascii_case(name, "nicotine"),
            Platform::Windows => text::eq_ignore_ascii_case(name, "nicotine.exe"),
        };
        if hit {
            out.push(ps[i].pid);
        }
        i = i + 1;
    }
    assert(ps@.take(i as int) == ps@);
    out
}

/// `pids` without `own`.
pub open spec fn others_than(pids: Seq<u32>, own: u32) -> Seq<u32>
    decreases pids.len(),
{
    if pids.len() == 0 {
        Seq::empty()
    } else {
        let front = others_than(pids.drop_last(), own);
        if pids.last() != own {
            front.push(pids.last())
        } else {
            front
        }
    }
}

/// Which processes are killed, in which order: the clients, then those of
/// this program. The calling process is left out; it exits last by itself.
pub fn kill_all(platform: Platform, ps: &Vec<Process>, self_pid: u32) -> (r: Vec<u32>)
    ensures
        r@ == others_than(clients_among(platform, ps@) + own_among(platform, ps@), self_pid),
{
    let mut targets: Vec<u32> = eve_client_pids(platform, ps);
    let mut own: Vec<u32> = nicotine_pids(platform, ps);
    targets.append(&mut own);
    let ghost all = clients_among(platform, ps@) + own_among(platform, ps@);
    assert(targets@ == all);
    let mut out: Vec<u32> = Vec::new();
    let mut i: usize = 0;
    while i < targets.len()
        invariant
            i <= targets.len(),
            targets@ == all,
            out@ == others_than(all.take(i as int), self_pid),
        decreases targets.len() - i,
    {
        assert(all.take(i + 1).drop_last() == all.take(i as int));
        assert(all.take(i + 1).last() == all[i as int]);
        if targets[i] != self_pid {
            out.push(targets[i]);
        }
        i = i + 1;
    }
    assert(all.take(i as int) == all);
    out
}

/// The calling process is never among those that it kills.
pub proof fn law_self_is_spared(pids: Seq<u32>, own: u32)
    ensures
        !others_than(pids, own).contains(own),
    decreases pids.len(),
{
    if pids.len() > 0 {
        law_self_is_spared(pids.drop_last(), own);
        let front = others_than(pids.drop_last(), own);
        let all = others_than(pids, own);
        assert forall|i: int| 0 <= i < all.len() implies all[i] != own by {
            if i < front.len() {
                assert(front[i] == all[i]);
                assert(front.contains(front[i]));
            }
        }
    }
}

/// The process that a sound stream belongs to, where it says so.
pub open spec fn stream_pid(t: JsonTree) -> Option<nat> {
    match json::member(t, "properties"@) {
        Some(p) => match json::text_member(p, "application.process.id"@) {
            Some(s) => numerals::unsigned_to(s, 10, u32::MAX as nat),
            None => None,
        },
        None => None,
    }
}

/// The stream to mute, where this one is to be muted: one of a client's
/// process, with an index.
pub open spec fn stream_to_mute(t: JsonTree, pids: Seq<u32>) -> Option<u64> {
    match (stream_pid(t), json::number_member(t, "index"@)) {
        (Some(pid), Some(index)) => if pids.contains(pid as u32) {
            Some(index)
        } else {
            None
        },
        _ => None,
    }
}

/// The streams to mute, in order.
pub open spec fn streams_to_mute(ts: Seq<JsonTree>, pids: Seq<u32>) -> Seq<u64>
    decreases ts.len(),
{
    if ts.len() == 0 {
        Seq::empty()
    } else {
        let front = streams_to_mute(ts.drop_last(), pids);
        match stream_to_mute(ts.last(), pids) {
            Some(i) => front.push(i),
            None => front,
        }
    }
}

fn has_pid(pids: &Vec<u32>, pid: u32) -> (r: bool)
    ensures
        r == pids@.contains(pid),
{
    let mut i: usize = 0;
    while i < pids.len()
        invariant
            i <= pids.len(),
            forall|k: int| 0 <= k < i ==> pids@[k] != pid,
        decreases pids.len() - i,
    {
        if pids[i] == pid {
            assert(pids@[i as int] == pid);
            return true;
        }
        i = i + 1;
    }
    false
}

/// The streams of the clients in a list of sound streams; none where the
/// document is no list.
pub fn client_streams(streams: &Json, eve_pids: &Vec<u32>) -> (r: Vec<u64>)
    ensures
        r@ == (match streams.tree() {
            JsonTree::Array(a) => streams_to_mute(a, eve_pids@),
            _ => Seq::empty(),
        }),
{
    let mut out: Vec<u64> = Vec::new();
    match streams {
        Json::Array(inputs) => {
            let ghost all = streams.tree()->Array_0;
            let mut i: usize = 0;
            assert(all.len() == inputs@.len());
            assert(all.take(0) == Seq::<JsonTree>::empty());
            while i < inputs.len()
                invariant
                    i <= inputs.len(),
                    *streams == Json::Array(*inputs),
                    streams.tree() == JsonTree::Array(all),
                    all.len() == inputs@.len(),
                    out@ == streams_to_mute(all.take(i as int), eve_pids@),
                decreases inputs.len() - i,
            {
                assert(all[i as int] == inputs@[i as int].tree());
                assert(all.take(i + 1).drop_last() == all.take(i as int));
                assert(all.take(i + 1).last() == all[i as int]);
                let input: &Json = &inputs[i];
                let pid: Option<u32> = match input.get("properties") {
                    Some(p) => match p.text_of("application.process.id") {
                        Some(s) => numerals::parse_u32(s.as_str()),
                        None => None,
                    },
                    None => None,
                };
                if let Some(pid) = pid {
                    if let Some(index) = input.number_of("index") {
                        if has_pid(eve_pids, pid) {
                            out.push(index);
                        }
                    }
                }
                i = i + 1;
            }
            assert(all.take(i as int) == all);
        },
        _ => {},
    }
    out
}

/// The sound streams of the clients by the audio server's report; none where
/// the report cannot be read.
pub fn mute_eve(report: &[u8], eve_pids: &Vec<u32>) -> (r: Vec<u64>)
    ensures
        r@ == (match json::parsed_json(report@) {
            Some(JsonTree::Array(a)) => streams_to_mute(a, eve_pids@),
            _ => Seq::empty(),
        }),
{
    match json::parse_json(report) {
        Some(doc) => client_streams(&doc, eve_pids),
        None => Vec::new(),
    }
}

/// The audio server's command that mutes a stream, or lets it sound again.
pub fn mute_command(index: u64, mute: bool) -> (r: Vec<String>)
    ensures
        text::views(r@) == seq![
            "set-sink-input-mute"@,
            numerals::decimal(index as nat),
            if mute {
                "1"@
            } else {
                "0"@
            },
        ],
{
    let mut out: Vec<String> = Vec::new();
    out.push("set-sink-input-mute".to_owned());
    out.push(numerals::write_decimal(index));
    if mute {
        out.push("1".to_owned());
    } else {
        out.push("0".to_owned());
    }
    out
}

/// The commands for the streams, in order.
pub open spec fn unmute_commands(sink_inputs: Seq<u64>) -> Seq<Seq<Seq<char>>> {
    Seq::new(
        sink_inputs.len(),
        |i: int|
            seq!["set-sink-input-mute"@, numerals::decimal(sink_inputs[i] as nat), "0"@],
    )
}

/// The audio server's commands that let the streams sound again which were
/// muted.
pub fn unmute(sink_inputs: &Vec<u64>) -> (r: Vec<Vec<String>>)
    ensures
        r@.len() == sink_inputs@.len(),
        forall|i: int|
            0 <= i < r@.len() ==> text::views((#[trigger] r@[i])@) == unmute_commands(
                sink_inputs@,
            )[i],
{
    let mut out: Vec<Vec<String>> = Vec::new();
    let mut i: usize = 0;
    while i < sink_inputs.len()
        invariant
            i <= sink_inputs.len(),
            out@.len() == i,
            forall|k: int|
                0 <= k < i ==> text::views((#[trigger] out@[k])@) == unmute_commands(
                    sink_inputs@,
                )[k],
        decreases sink_inputs.len() - i,
    {
        out.push(mute_command(sink_inputs[i], false));
        i = i + 1;
    }
    out
}

/// A process is listed under its number and its trimmed name, where it has
/// both; other entries are no processes.
pub proof fn law_listed_processes_are_the_numbered(entries: Seq<ProcessEntry>) -> (at: Seq<int>)
    ensures
        crate::search::positions(at, entries.len()),
        listed_processes(entries).len() == at.len(),
        forall|i: int|
            0 <= i < at.len() ==> {
                &&& entries[#[trigger] at[i]].comm matches Some(c) && listed_processes(entries)[i].1
                    == text::trimmed(c@)
                &&& numerals::unsigned_to(entries[at[i]].entry@, 10, u32::MAX as nat) == Some(
                    listed_processes(entries)[i].0 as nat,
                )
            },
        forall|i: int|
            0 <= i < entries.len() && (#[trigger] entries[i]).comm is Some
                && numerals::unsigned_to(entries[i].entry@, 10, u32::MAX as nat) is Some
                ==> at.contains(i),
    decreases entries.len(),
{
    if entries.len() == 0 {
        Seq::empty()
    } else {
        let n = (entries.len() - 1) as nat;
        let before = entries.drop_last();
        let front = law_listed_processes_are_the_numbered(before);
        crate::search::lemma_next_position(front, n);
        assert forall|i: int| 0 <= i < n implies before[i] == #[trigger] entries[i] by {}
        if process_of_entry(entries.last()) is Some {
            front.push(n as int)
        } else {
            front
        }
    }
}

proof fn lemma_picked(ps: Seq<Process>, pick: spec_fn(Seq<char>) -> bool) -> (at: Seq<int>)
    ensures
        crate::search::positions(at, ps.len()),
        picked(ps, pick).len() == at.len(),
        forall|i: int|
            0 <= i < at.len() ==> pick(ps[#[trigger] at[i]].name@) && picked(ps, pick)[i]
                == ps[at[i]].pid,
        forall|i: int| 0 <= i < ps.len() && pick((#[trigger] ps[i]).name@) ==> at.contains(i),
    decreases ps.len(),
{
    if ps.len() == 0 {
        Seq::empty()
    } else {
        let n = (ps.len() - 1) as nat;
        let before = ps.drop_last();
        let front = lemma_picked(before, pick);
        crate::search::lemma_next_position(front, n);
        assert forall|i: int| 0 <= i < n implies before[i] == #[trigger] ps[i] by {}
        if pick(ps.last().name@) {
            front.push(n as int)
        } else {
            front
        }
    }
}

/// The clients are the processes named `exefile.exe`, on Windows in any case
/// of the letters, in their order.
pub proof fn law_clients_are_the_exefile_processes(
    platform: Platform,
    ps: Seq<Process>,
) -> (at: Seq<int>)
    ensures
        crate::search::positions(at, ps.len()),
        clients_among(platform, ps).len() == at.len(),
        forall|i: int|
            0 <= i < at.len() ==> clients_among(platform, ps)[i] == ps[#[trigger] at[i]].pid
                && text::same_but_case(ps[at[i]].name@, "exefile.exe"@) && (platform
                == Platform::Unix ==> ps[at[i]].name@ == "exefile.exe"@),
        forall|i: int|
            0 <= i < ps.len() && ((#[trigger] ps[i]).name@ == "exefile.exe"@ || (platform
                == Platform::Windows && text::same_but_case(ps[i].name@, "exefile.exe"@)))
                ==> at.contains(i),
{
    let at = lemma_picked(ps, |name: Seq<char>| is_client_name(platform, name));
    at
}

/// The program's own processes are those named `nicotine`, on Windows
/// `nicotine.exe`, in any case of the letters, in their order.
pub proof fn law_own_processes_are_the_nicotine_ones(
    platform: Platform,
    ps: Seq<Process>,
) -> (at: Seq<int>)
    ensures
        crate::search::positions(at, ps.len()),
        own_among(platform, ps).len() == at.len(),
        forall|i: int|
            0 <= i < at.len() ==> own_among(platform, ps)[i] == ps[#[trigger] at[i]].pid
                && text::same_but_case(
                ps[at[i]].name@,
                if platform == Platform::Windows {
                    "nicotine.exe"@
                } else {
                    "nicotine"@
                },
            ),
        forall|i: int|
            0 <= i < ps.len() && text::same_but_case(
                (#[trigger] ps[i]).name@,
                if platform == Platform::Windows {
                    "nicotine.exe"@
                } else {
                    "nicotine"@
                },
            ) ==> at.contains(i),
{
    let at = lemma_picked(ps, |name: Seq<char>| is_own_name(platform, name));
    at
}

/// Every other process on the list is killed, as often as it is listed.
pub proof fn law_all_others_are_killed(pids: Seq<u32>, own: u32) -> (at: Seq<int>)
    ensures
        crate::search::positions(at, pids.len()),
        others_than(pids, own).len() == at.len(),
        forall|i: int|
            0 <= i < at.len() ==> pids[#[trigger] at[i]] != own && others_than(pids, own)[i]
                == pids[at[i]],
        forall|i: int| 0 <= i < pids.len() && #[trigger] pids[i] != own ==> at.contains(i),
    decreases pids.len(),
{
    if pids.len() == 0 {
        Seq::empty()
    } else {
        let n = (pids.len() - 1) as nat;
        let before = pids.drop_last();
        let front = law_all_others_are_killed(before, own);
        crate::search::lemma_next_position(front, n);
        assert forall|i: int| 0 <= i < n implies before[i] == #[trigger] pids[i] by {}
        if pids.last() != own {
            front.push(n as int)
        } else {
            front
        }
    }
}

/// The streams that are muted are exactly those whose process is one of the
/// clients, by their own index, in their order.
pub proof fn law_streams_of_the_clients_are_muted(
    ts: Seq<JsonTree>,
    pids: Seq<u32>,
) -> (at: Seq<int>)
    ensures
        crate::search::positions(at, ts.len()),
        streams_to_mute(ts, pids).len() == at.len(),
        forall|i: int|
            0 <= i < at.len() ==> {
                &&& json::number_member(ts[#[trigger] at[i]], "index"@) == Some(
                    streams_to_mute(ts, pids)[i],
                )
                &&& stream_pid(ts[at[i]]) matches Some(pid) && pids.contains(pid as u32)
            },
        forall|i: int|
            0 <= i < ts.len() && json::number_member(#[trigger] ts[i], "index"@) is Some && (
            stream_pid(ts[i]) matches Some(pid) && pids.contains(pid as u32)) ==> at.contains(i),
    decreases ts.len(),
{
    if ts.len() == 0 {
        Seq::empty()
    } else {
        let n = (ts.len() - 1) as nat;
        let before = ts.drop_last();
        let front = law_streams_of_the_clients_are_muted(before, pids);
        crate::search::lemma_next_position(front, n);
        assert forall|i: int| 0 <= i < n implies before[i] == #[trigger] ts[i] by {}
        if stream_to_mute(ts.last(), pids) is Some {
            front.push(n as int)
        } else {
            front
        }
    }
}

/// A stream belongs to the process whose number its properties give.
pub proof fn law_stream_has_its_process(t: JsonTree, p: JsonTree, pid: u32)
    requires
        json::member(t, "properties"@) == Some(p),
    ensures
        json::text_member(p, "application.process.id"@) == Some(numerals::decimal(pid as nat))
            ==> stream_pid(t) == Some(pid as nat),
        json::text_member(p, "application.process.id"@) is None ==> stream_pid(t) is None,
{
    numerals::law_written_number_reads_back(pid as nat, 10, false, u32::MAX as nat);
}

/// What was muted is unmuted: one command for each stream, by its index, with
/// a zero.
pub proof fn law_each_stream_is_unmuted(sink_inputs: Seq<u64>, i: int)
    requires
        0 <= i < sink_inputs.len(),
    ensures
        unmute_commands(sink_inputs).len() == sink_inputs.len(),
        unmute_commands(sink_inputs)[i].len() == 3,
        unmute_commands(sink_inputs)[i][0] == "set-sink-input-mute"@,
        unmute_commands(sink_inputs)[i][1] == numerals::decimal(sink_inputs[i] as nat),
        unmute_commands(sink_inputs)[i][2] == "0"@,
{
}

} // verus!
