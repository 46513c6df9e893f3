//! What the compositors' own tools report, and what they are told.
use vstd::prelude::*;
use crate::json;
use crate::json::{Json, JsonTree};
use crate::numerals;
use crate::text;
use crate::window_manager;
use crate::window_manager::{Candidate, EveWindow, StackGeometry, WindowId, WmError};

verus! {

/// Why a tool's report gives no answer.
#[derive(Debug, Clone, Copy, PartialEq, Eq, Structural)]
pub enum ReportError {
    /// The report cannot be read.
    Unreadable,
    /// No window has the focus.
    NoActiveWindow,
}

// ---------------------------------------------------------------------
// wmctrl (KWin)
// ---------------------------------------------------------------------

/// A line of `wmctrl -lp`: window, process and title. The columns are
/// identifier, desktop, process, host and title; the host may be missing.
pub open spec fn wmctrl_line(line: Seq<char>) -> Option<(Seq<char>, u32, Seq<char>)> {
    let parts = text::words(line);
    if parts.len() < 4 {
        None
    } else {
        let pid = match numerals::unsigned_to(parts[2], 10, u32::MAX as nat) {
            Some(n) => n as u32,
            None => 0,
        };
        let title_start: int = if parts.len() >= 5 {
            4
        } else {
            3
        };
        Some((parts[0], pid, text::joined_with(parts.skip(title_start), " "@)))
    }
}

/// A window identifier as `wmctrl` writes it, hexadecimal after `0x` and
/// decimal else; 0 where it cannot be read.
pub open spec fn wmctrl_id(s: Seq<char>) -> WindowId {
    let n = match text::after_prefix(s, "0x"@) {
        Some(hex) => numerals::unsigned_to(hex, 16, u32::MAX as nat),
        None => numerals::unsigned_to(s, 10, u32::MAX as nat),
    };
    match n {
        Some(v) => v as u64,
        None => 0,
    }
}

/// The candidate on a line of `wmctrl -lp`.
pub open spec fn wmctrl_candidate(line: Seq<char>) -> Option<(u32, WindowId, Seq<char>)> {
    match wmctrl_line(line) {
        Some((id, pid, title)) => if wmctrl_id(id) != 0 {
            window_manager::candidate_of(wmctrl_id(id), title, pid)
        } else {
            None
        },
        None => None,
    }
}

/// The candidates on the lines, in order.
pub open spec fn wmctrl_candidates_on(lines: Seq<Seq<char>>) -> Seq<(u32, WindowId, Seq<char>)>
    decreases lines.len(),
{
    if lines.len() == 0 {
        Seq::empty()
    } else {
        let front = wmctrl_candidates_on(lines.drop_last());
        match wmctrl_candidate(lines.last()) {
            Some(c) => front.push(c),
            None => front,
        }
    }
}

fn read_wmctrl_id(s: &str) -> (r: WindowId)
    ensures
        r == wmctrl_id(s@),
{
    let n: Option<u64> = match text::strip_prefix(s, "0x") {
        Some(hex) => numerals::parse_unsigned(hex.as_str(), 16, u32::MAX as u64),
        None => numerals::parse_unsigned(s, 10, u32::MAX as u64),
    };
    match n {
        Some(v) => v,
        None => 0,
    }
}

/// Reads one line of `wmctrl -lp`.
pub fn parse_wmctrl_line(line: &str) -> (r: Option<(String, u32, String)>)
    ensures
        r matches Some((id, pid, title)) ==> wmctrl_line(line@) == Some((id@, pid, title@)),
        r is None ==> wmctrl_line(line@) is None,
{
    let parts: Vec<String> = text::split_whitespace(line);
    assert(text::views(parts@).len() == parts@.len());
    if parts.len() < 4 {
        return None;
    }
    assert(text::views(parts@)[0] == parts@[0]@);
    assert(text::views(parts@)[2] == parts@[2]@);
    let pid: u32 = match numerals::parse_u32(parts[2].as_str()) {
        Some(n) => n,
        None => 0,
    };
    let title_start: usize = if parts.len() >= 5 {
        4
    } else {
        3
    };
    let title: String = text::join_from(&parts, title_start, " ");
    Some((parts[0].clone(), pid, title))
}

/// The candidates in a `wmctrl -lp` listing. Windows whose identifier cannot
/// be read are left out.
pub fn wmctrl_candidates(listing: &str) -> (r: Vec<Candidate>)
    ensures
        window_manager::candidate_views(r@) == wmctrl_candidates_on(text::lines_of(listing@)),
{
    let ls: Vec<String> = text::lines(listing);
    let ghost all = text::lines_of(listing@);
    let mut out: Vec<Candidate> = Vec::new();
    let mut i: usize = 0;
    assert(all.take(0) == Seq::<Seq<char>>::empty());
    while i < ls.len()
        invariant
            i <= ls.len(),
            text::views(ls@) == all,
            window_manager::candidate_views(out@) == wmctrl_candidates_on(all.take(i as int)),
        decreases ls.len() - i,
    {
        assert(all.take(i + 1).drop_last() == all.take(i as int));
        assert(all.take(i + 1).last() == ls@[i as int]@);
        if let Some((id_text, pid, title)) = parse_wmctrl_line(ls[i].as_str()) {
            let id: WindowId = read_wmctrl_id(id_text.as_str());
            if id != 0 {
                if let Some(c) = window_manager::client_candidate(id, title.as_str(), pid) {
                    let ghost before = window_manager::candidate_views(out@);
                    out.push(c);
                    assert(window_manager::candidate_views(out@) == before.push(
                        window_manager::candidate_view(out@.last()),
                    ));
                }
            }
        }
        i = i + 1;
    }
    assert(all.take(i as int) == all);
    out
}

/// The candidates by what `wmctrl -lp` printed.
pub fn wmctrl_report_candidates(printed: &[u8]) -> (r: Vec<Candidate>)
    ensures
        window_manager::candidate_views(r@) == wmctrl_candidates_on(
            text::lines_of(text::lossy_text(printed@)),
        ),
{
    let listing: String = text::from_utf8_lossy(printed);
    wmctrl_candidates(listing.as_str())
}

/// The title of the first listed window whose line begins with `hex_id`.
pub open spec fn wmctrl_title(lines: Seq<Seq<char>>, hex_id: Seq<char>) -> Option<Seq<char>>
    decreases lines.len(),
{
    if lines.len() == 0 {
        None
    } else if text::starts(lines[0], hex_id) {
        match wmctrl_line(lines[0]) {
            Some((_, _, title)) => Some(title),
            None => None,
        }
    } else {
        wmctrl_title(lines.skip(1), hex_id)
    }
}

pub fn get_window_title_by_id(listing: &str, hex_id: &str) -> (r: Option<String>)
    ensures
        r matches Some(t) ==> wmctrl_title(text::lines_of(listing@), hex_id@) == Some(t@),
        r is None ==> wmctrl_title(text::lines_of(listing@), hex_id@) is None,
{
    let ls: Vec<String> = text::lines(listing);
    let ghost all = text::lines_of(listing@);
    let mut i: usize = 0;
    assert(all.skip(0) == all);
    while i < ls.len()
        invariant
            i <= ls.len(),
            text::views(ls@) == all,
            all == text::lines_of(listing@),
            wmctrl_title(all, hex_id@) == wmctrl_title(all.skip(i as int), hex_id@),
        decreases ls.len() - i,
    {
        assert(all[i as int] == ls@[i as int]@);
        assert(all.skip(i as int)[0] == all[i as int]);
        assert(all.skip(i as int).skip(1) == all.skip(i + 1));
        if text::starts_with(ls[i].as_str(), hex_id) {
            return match parse_wmctrl_line(ls[i].as_str()) {
                Some((_, _, title)) => Some(title),
                None => None,
            };
        }
        i = i + 1;
    }
    None
}

/// A window identifier as the X11 tools take it.
pub open spec fn hex_id_text(id: WindowId) -> Seq<char> {
    "0x"@ + numerals::padded(id as nat, 16, false, 8)
}

pub fn hex_id(id: WindowId) -> (r: String)
    ensures
        r@ == hex_id_text(id),
{
    text::joined("0x", numerals::write_unsigned(id, 16, false, 8).as_str())
}

/// An X11 identifier that is written is read back.
pub proof fn law_wmctrl_id_reads_back(id: WindowId)
    requires
        id <= u32::MAX,
    ensures
        wmctrl_id(hex_id_text(id)) == id,
{
    reveal_strlit("0x");
    let d = numerals::padded(id as nat, 16, false, 8);
    let s = hex_id_text(id);
    assert(s.take(2) == "0x"@);
    assert(s.skip(2) == d);
    numerals::law_padded_number_reads_back(id as nat, 16, false, 8, u32::MAX as nat);
}

/// The geometry argument of `wmctrl -e`.
pub open spec fn wmctrl_geometry_text(g: StackGeometry) -> Seq<char> {
    "0,"@ + numerals::signed_decimal(g.x as int) + ","@ + numerals::signed_decimal(g.y as int)
        + ","@ + numerals::decimal(g.width as nat) + ","@ + numerals::decimal(g.height as nat)
}

pub fn wmctrl_geometry(g: &StackGeometry) -> (r: String)
    ensures
        r@ == wmctrl_geometry_text(*g),
{
    let a: String = text::joined("0,", numerals::write_signed(g.x as i64).as_str());
    let b: String = text::joined(a.as_str(), ",");
    let c: String = text::joined(b.as_str(), numerals::write_signed(g.y as i64).as_str());
    let d: String = text::joined(c.as_str(), ",");
    let e: String = text::joined(d.as_str(), numerals::write_decimal(g.width as u64).as_str());
    let f: String = text::joined(e.as_str(), ",");
    text::joined(f.as_str(), numerals::write_decimal(g.height as u64).as_str())
}

// ---------------------------------------------------------------------
// Sway
// ---------------------------------------------------------------------

/// Whether a container of the tree is an application's window: a container
/// with an application identifier or, where it has no such member, with
/// window properties.
pub open spec fn is_sway_window(t: JsonTree) -> bool {
    let kind = json::text_member(t, "type"@);
    (kind == Some("con"@) || kind == Some("floating_con"@)) && match json::member(t, "app_id"@) {
        Some(a) => !(a is Null),
        None => match json::member(t, "window_properties"@) {
            Some(p) => !(p is Null),
            None => false,
        },
    }
}

pub proof fn lemma_elements_are_smaller(t: JsonTree, name: Seq<char>)
    ensures
        json::array_member(t, name).len() > 0 ==> decreases_to!(t => json::array_member(t, name)),
{
    if json::array_member(t, name).len() > 0 {
        let m = t->Object_0;
        let i = json::lemma_named_is_there(m, name);
        assert(decreases_to!(t => m));
        assert(decreases_to!(m => m[i]));
        assert(decreases_to!(m[i] => m[i].1));
        assert(decreases_to!(m[i].1 => m[i].1->Array_0));
    }
}

/// The application windows of a tree, a container before those inside it,
/// tiled ones before floating ones.
pub open spec fn sway_windows(t: JsonTree) -> Seq<JsonTree>
    decreases t,
{
    proof {
        lemma_elements_are_smaller(t, "nodes"@);
        lemma_elements_are_smaller(t, "floating_nodes"@);
    }
    let own = if is_sway_window(t) {
        seq![t]
    } else {
        Seq::empty()
    };
    let tiled = if json::array_member(t, "nodes"@).len() > 0 {
        sway_windows_among(json::array_member(t, "nodes"@))
    } else {
        Seq::empty()
    };
    let floating = if json::array_member(t, "floating_nodes"@).len() > 0 {
        sway_windows_among(json::array_member(t, "floating_nodes"@))
    } else {
        Seq::empty()
    };
    own + tiled + floating
}

/// The application windows of several containers, one container after the
/// other.
pub open spec fn sway_windows_among(ts: Seq<JsonTree>) -> Seq<JsonTree>
    decreases ts,
{
    if ts.len() == 0 {
        Seq::empty()
    } else {
        sway_windows_among(ts.drop_last()) + sway_windows(ts.last())
    }
}

pub open spec fn trees(v: Seq<&Json>) -> Seq<JsonTree> {
    Seq::new(v.len(), |i: int| v[i].tree())
}

fn is_window(node: &Json) -> (r: bool)
    ensures
        r == is_sway_window(node.tree()),
{
    let kind_fits: bool = match node.text_of("type") {
        Some(kind) => text::same(kind.as_str(), "con") || text::same(
            kind.as_str(),
            "floating_con",
        ),
        None => false,
    };
    if !kind_fits {
        return false;
    }
    match node.get("app_id") {
        Some(a) => !a.is_null(),
        None => match node.get("window_properties") {
            Some(p) => !p.is_null(),
            None => false,
        },
    }
}

fn extract_below<'a>(node: &'a Json, name: &str, out: &mut Vec<&'a Json>)
    ensures
        trees(final(out)@) == trees(old(out)@) + sway_windows_among(
            json::array_member(node.tree(), name@),
        ),
    decreases *node, 0nat,
{
    let ghost before = trees(out@);
    let ghost elements = json::array_member(node.tree(), name@);
    if let Some(v) = node.get(name) {
        if let Json::Array(a) = v {
            let mut i: usize = 0;
            assert(elements.take(0) == Seq::<JsonTree>::empty());
            assert(elements.len() == a@.len());
            while i < a.len()
                invariant
                    i <= a.len(),
                    *v == Json::Array(*a),
                    decreases_to!(*node => *v),
                    v.tree() == JsonTree::Array(elements),
                    elements.len() == a@.len(),
                    trees(out@) == before + sway_windows_among(elements.take(i as int)),
                decreases a.len() - i,
            {
                assert(elements[i as int] == a@[i as int].tree());
                assert(elements.take(i + 1).drop_last() == elements.take(i as int));
                assert(elements.take(i + 1).last() == elements[i as int]);
                assert(decreases_to!(*v => a@[i as int]));
                extract_windows(&a[i], out);
                assert(trees(out@) == before + sway_windows_among(elements.take(i + 1)));
                i = i + 1;
            }
            assert(elements.take(i as int) == elements);
        }
    }
    assert(trees(out@) == before + sway_windows_among(elements));
}

/// Collects the application windows of a tree.
pub fn extract_windows<'a>(node: &'a Json, out: &mut Vec<&'a Json>)
    ensures
        trees(final(out)@) == trees(old(out)@) + sway_windows(node.tree()),
    decreases *node, 1nat,
{
    let ghost before = trees(out@);
    let ghost t = node.tree();
    if is_window(node) {
        out.push(node);
        assert(trees(out@) == before.push(t));
    }
    let ghost own = trees(out@);
    extract_below(node, "nodes", out);
    let ghost tiled = trees(out@);
    extract_below(node, "floating_nodes", out);
    proof {
        assert(own == before + (if is_sway_window(t) {
            seq![t]
        } else {
            Seq::empty()
        }));
        assert(trees(out@) == before + sway_windows(t));
    }
}

/// The candidate that a window of the tree is. Without a title, a process or
/// an identifier it is none.
pub open spec fn sway_candidate(t: JsonTree) -> Option<(u32, WindowId, Seq<char>)> {
    match (
        json::text_member(t, "name"@),
        json::number_member(t, "pid"@),
        json::number_member(t, "id"@),
    ) {
        (Some(title), Some(pid), Some(id)) => match window_manager::character_of_title(title) {
            Some(name) => Some((pid as u32, id, name)),
            None => None,
        },
        _ => None,
    }
}

/// The candidates among windows, in order.
pub open spec fn sway_candidates_among(ts: Seq<JsonTree>) -> Seq<(u32, WindowId, Seq<char>)>
    decreases ts.len(),
{
    if ts.len() == 0 {
        Seq::empty()
    } else {
        let front = sway_candidates_among(ts.drop_last());
        match sway_candidate(ts.last()) {
            Some(c) => front.push(c),
            None => front,
        }
    }
}

/// The candidates in a window tree.
pub fn sway_candidates(tree: &Json) -> (r: Vec<Candidate>)
    ensures
        window_manager::candidate_views(r@) == sway_candidates_among(sway_windows(tree.tree())),
{
    let mut ws: Vec<&Json> = Vec::new();
    extract_windows(tree, &mut ws);
    let ghost all = sway_windows(tree.tree());
    assert(trees(ws@) == all);
    let mut out: Vec<Candidate> = Vec::new();
    let mut i: usize = 0;
    while i < ws.len()
        invariant
            i <= ws.len(),
            trees(ws@) == all,
            window_manager::candidate_views(out@) == sway_candidates_among(all.take(i as int)),
        decreases ws.len() - i,
    {
        assert(all[i as int] == ws@[i as int].tree());
        assert(all.take(i + 1).drop_last() == all.take(i as int));
        assert(all.take(i + 1).last() == all[i as int]);
        let w: &Json = ws[i];
        if let Some(title) = w.text_of("name") {
            if let Some(name) = window_manager::character_name(title.as_str()) {
                if let Some(pid) = w.number_of("pid") {
                    if let Some(id) = w.number_of("id") {
                        let ghost before = window_manager::candidate_views(out@);
                        out.push(
                            Candidate {
                                pid: #[verifier::truncate]
                                (pid as u32),
                                window: EveWindow { id, title: name },
                            },
                        );
                        assert(window_manager::candidate_views(out@) == before.push(
                            window_manager::candidate_view(out@.last()),
                        ));
                    }
                }
            }
        }
        i = i + 1;
    }
    assert(all.take(i as int) == all);
    out
}

/// The candidates that Sway's tree report names.
pub fn sway_report_candidates(report: &[u8]) -> (r: Result<Vec<Candidate>, ReportError>)
    ensures
        match json::parsed_json(report@) {
            Some(t) => r matches Ok(v) && window_manager::candidate_views(v@)
                == sway_candidates_among(sway_windows(t)),
            None => r == Err::<Vec<Candidate>, ReportError>(ReportError::Unreadable),
        },
{
    match json::parse_json(report) {
        Some(tree) => Ok(sway_candidates(&tree)),
        None => Err(ReportError::Unreadable),
    }
}

/// Whether a window of the tree has the focus and an identifier.
pub open spec fn sway_focused_id(t: JsonTree) -> Option<WindowId> {
    if json::member(t, "focused"@) == Some(JsonTree::Bool(true)) {
        json::number_member(t, "id"@)
    } else {
        None
    }
}

/// The first window that has the focus and an identifier.
pub open spec fn first_focused(ts: Seq<JsonTree>) -> Option<WindowId>
    decreases ts.len(),
{
    if ts.len() == 0 {
        None
    } else {
        match first_focused(ts.drop_last()) {
            Some(id) => Some(id),
            None => sway_focused_id(ts.last()),
        }
    }
}

proof fn lemma_first_focused_stays(ts: Seq<JsonTree>, k: int)
    requires
        0 <= k <= ts.len(),
        first_focused(ts.take(k)) is Some,
    ensures
        first_focused(ts) == first_focused(ts.take(k)),
    decreases ts.len() - k,
{
    if k == ts.len() {
        assert(ts.take(k) == ts);
    } else {
        assert(ts.take(k + 1).drop_last() == ts.take(k));
        lemma_first_focused_stays(ts, k + 1);
    }
}

/// The window that has the focus, in a window tree.
pub fn sway_active(tree: &Json) -> (r: Result<WindowId, ReportError>)
    ensures
        r == (match first_focused(sway_windows(tree.tree())) {
            Some(id) => Ok::<WindowId, ReportError>(id),
            None => Err::<WindowId, ReportError>(ReportError::NoActiveWindow),
        }),
{
    let mut ws: Vec<&Json> = Vec::new();
    extract_windows(tree, &mut ws);
    let ghost all = sway_windows(tree.tree());
    assert(trees(ws@) == all);
    let mut i: usize = 0;
    while i < ws.len()
        invariant
            i <= ws.len(),
            trees(ws@) == all,
            all == sway_windows(tree.tree()),
            first_focused(all.take(i as int)) is None,
        decreases ws.len() - i,
    {
        assert(all[i as int] == ws@[i as int].tree());
        assert(all.take(i + 1).drop_last() == all.take(i as int));
        assert(all.take(i + 1).last() == all[i as int]);
        let w: &Json = ws[i];
        let focused: bool = match w.get("focused") {
            Some(f) => match f.as_bool() {
                Some(b) => b,
                None => false,
            },
            None => false,
        };
        if focused {
            if let Some(id) = w.number_of("id") {
                proof {
                    lemma_first_focused_stays(all, i + 1);
                }
                return Ok(id);
            }
        }
        i = i + 1;
    }
    assert(all.take(i as int) == all);
    Err(ReportError::NoActiveWindow)
}

/// The window that has the focus by Sway's tree report.
pub fn sway_report_active(report: &[u8]) -> (r: Result<WindowId, ReportError>)
    ensures
        r == (match json::parsed_json(report@) {
            Some(t) => match first_focused(sway_windows(t)) {
                Some(id) => Ok::<WindowId, ReportError>(id),
                None => Err::<WindowId, ReportError>(ReportError::NoActiveWindow),
            },
            None => Err::<WindowId, ReportError>(ReportError::Unreadable),
        }),
{
    match json::parse_json(report) {
        Some(tree) => sway_active(&tree),
        None => Err(ReportError::Unreadable),
    }
}

/// A command about one container.
pub open spec fn sway_command_text(id: WindowId, what: Seq<char>) -> Seq<char> {
    "[con_id="@ + numerals::decimal(id as nat) + "] "@ + what
}

fn sway_command(id: WindowId, what: &str) -> (r: String)
    ensures
        r@ == sway_command_text(id, what@),
{
    let a: String = text::joined("[con_id=", numerals::write_decimal(id).as_str());
    let b: String = text::joined(a.as_str(), "] ");
    text::joined(b.as_str(), what)
}

pub fn sway_focus(id: WindowId) -> (r: String)
    ensures
        r@ == sway_command_text(id, "focus"@),
{
    sway_command(id, "focus")
}

pub fn sway_minimize(id: WindowId) -> (r: String)
    ensures
        r@ == sway_command_text(id, "move scratchpad"@),
{
    sway_command(id, "move scratchpad")
}

pub fn sway_restore(id: WindowId) -> (r: String)
    ensures
        r@ == sway_command_text(id, "scratchpad show"@),
{
    sway_command(id, "scratchpad show")
}

fn two_numbers(before: &str, a: i32, b: i32) -> (r: String)
    ensures
        r@ == before@ + numerals::signed_decimal(a as int) + " "@ + numerals::signed_decimal(
            b as int,
        ),
{
    let s: String = text::joined(before, numerals::write_signed(a as i64).as_str());
    let t: String = text::joined(s.as_str(), " ");
    text::joined(t.as_str(), numerals::write_signed(b as i64).as_str())
}

/// What stacks a window: float it, move it, then resize it.
pub fn sway_stack(id: WindowId, g: &StackGeometry) -> (r: Vec<String>)
    ensures
        text::views(r@) == seq![
            sway_command_text(id, "floating enable"@),
            sway_command_text(
                id,
                "move position "@ + numerals::signed_decimal(g.x as int) + " "@
                    + numerals::signed_decimal(g.y as int),
            ),
            sway_command_text(
                id,
                "resize set "@ + numerals::signed_decimal((g.width as i32) as int) + " "@
                    + numerals::signed_decimal((g.height as i32) as int),
            ),
        ],
{
    let mut out: Vec<String> = Vec::new();
    out.push(sway_command(id, "floating enable"));
    out.push(sway_command(id, two_numbers("move position ", g.x, g.y).as_str()));
    let w: i32 = #[verifier::truncate]
    (g.width as i32);
    let h: i32 = #[verifier::truncate]
    (g.height as i32);
    out.push(sway_command(id, two_numbers("resize set ", w, h).as_str()));
    out
}

// ---------------------------------------------------------------------
// Hyprland
// ---------------------------------------------------------------------

/// A window address as Hyprland writes it, hexadecimal after `0x`; 0 where
/// it cannot be read.
pub open spec fn hyprland_id(address: Seq<char>) -> WindowId {
    match text::after_prefix(address, "0x"@) {
        Some(hex) => match numerals::unsigned_to(hex, 16, u64::MAX as nat) {
            Some(v) => v as u64,
            None => 0,
        },
        None => 0,
    }
}

fn read_address(address: &str) -> (r: WindowId)
    ensures
        r == hyprland_id(address@),
{
    match text::strip_prefix(address, "0x") {
        Some(hex) => match numerals::parse_unsigned(hex.as_str(), 16, u64::MAX) {
            Some(v) => v,
            None => 0,
        },
        None => 0,
    }
}

/// A window address in the form that Hyprland takes.
pub open spec fn hyprland_address_text(id: WindowId) -> Seq<char> {
    "0x"@ + numerals::digits(id as nat, 16, false)
}

/// Every window address that is written is read back whole.
pub proof fn law_hyprland_address_reads_back(id: WindowId)
    ensures
        hyprland_id(hyprland_address_text(id)) == id,
{
    reveal_strlit("0x");
    let d = numerals::digits(id as nat, 16, false);
    let s = hyprland_address_text(id);
    assert(s.take(2) == "0x"@);
    assert(s.skip(2) == d);
    numerals::law_written_number_reads_back(id as nat, 16, false, u64::MAX as nat);
}

/// The candidate that a reported client is.
pub open spec fn hyprland_candidate(t: JsonTree) -> Option<(u32, WindowId, Seq<char>)> {
    match (json::text_member(t, "title"@), json::text_member(t, "address"@)) {
        (Some(title), Some(address)) => {
            let pid = match json::number_member(t, "pid"@) {
                Some(p) => p as u32,
                None => 0,
            };
            window_manager::candidate_of(hyprland_id(address), title, pid)
        },
        _ => None,
    }
}

/// The candidates among reported clients, in order.
pub open spec fn hyprland_candidates_among(ts: Seq<JsonTree>) -> Seq<(u32, WindowId, Seq<char>)>
    decreases ts.len(),
{
    if ts.len() == 0 {
        Seq::empty()
    } else {
        let front = hyprland_candidates_among(ts.drop_last());
        match hyprland_candidate(ts.last()) {
            Some(c) => front.push(c),
            None => front,
        }
    }
}

/// The candidates in a client list; a document that is no list cannot be
/// read as one.
pub fn hyprland_candidates(clients: &Json) -> (r: Result<Vec<Candidate>, ReportError>)
    ensures
        match clients.tree() {
            JsonTree::Array(a) => r matches Ok(v) && window_manager::candidate_views(v@)
                == hyprland_candidates_among(a),
            _ => r == Err::<Vec<Candidate>, ReportError>(ReportError::Unreadable),
        },
{
    match clients {
        Json::Array(ws) => {
            let ghost all = clients.tree()->Array_0;
            let mut out: Vec<Candidate> = Vec::new();
            let mut i: usize = 0;
            assert(all.len() == ws@.len());
            assert(all.take(0) == Seq::<JsonTree>::empty());
            while i < ws.len()
                invariant
                    i <= ws.len(),
                    *clients == Json::Array(*ws),
                    clients.tree() == JsonTree::Array(all),
                    all.len() == ws@.len(),
                    window_manager::candidate_views(out@) == hyprland_candidates_among(
                        all.take(i as int),
                    ),
                decreases ws.len() - i,
            {
                assert(all[i as int] == ws@[i as int].tree());
                assert(all.take(i + 1).drop_last() == all.take(i as int));
                assert(all.take(i + 1).last() == all[i as int]);
                let w: &Json = &ws[i];
                if let Some(title) = w.text_of("title") {
                    if let Some(address) = w.text_of("address") {
                        let pid: u32 = match w.number_of("pid") {
                            Some(p) => #[verifier::truncate]
                            (p as u32),
                            None => 0,
                        };
                        let id: WindowId = read_address(address.as_str());
                        if let Some(c) = window_manager::client_candidate(
                            id,
                            title.as_str(),
                            pid,
                        ) {
                            let ghost before = window_manager::candidate_views(out@);
                            out.push(c);
                            assert(window_manager::candidate_views(out@) == before.push(
                                window_manager::candidate_view(out@.last()),
                            ));
                        }
                    }
                }
                i = i + 1;
            }
            assert(all.take(i as int) == all);
            Ok(out)
        },
        _ => Err(ReportError::Unreadable),
    }
}

/// The candidates that Hyprland's client report names.
pub fn hyprland_report_candidates(report: &[u8]) -> (r: Result<Vec<Candidate>, ReportError>)
    ensures
        match json::parsed_json(report@) {
            Some(JsonTree::Array(a)) => r matches Ok(v) && window_manager::candidate_views(v@)
                == hyprland_candidates_among(a),
            _ => r == Err::<Vec<Candidate>, ReportError>(ReportError::Unreadable),
        },
{
    match json::parse_json(report) {
        Some(doc) => hyprland_candidates(&doc),
        None => Err(ReportError::Unreadable),
    }
}

/// The window that a report of the focused window names.
pub fn hyprland_active(window: &Json) -> (r: Result<WindowId, ReportError>)
    ensures
        r == (match json::text_member(window.tree(), "address"@) {
            Some(a) => Ok::<WindowId, ReportError>(hyprland_id(a)),
            None => Err::<WindowId, ReportError>(ReportError::NoActiveWindow),
        }),
{
    match window.text_of("address") {
        Some(a) => Ok(read_address(a.as_str())),
        None => Err(ReportError::NoActiveWindow),
    }
}

/// The window that has the focus by Hyprland's report.
pub fn hyprland_report_active(report: &[u8]) -> (r: Result<WindowId, ReportError>)
    ensures
        r == (match json::parsed_json(report@) {
            Some(t) => match json::text_member(t, "address"@) {
                Some(a) => Ok::<WindowId, ReportError>(hyprland_id(a)),
                None => Err::<WindowId, ReportError>(ReportError::NoActiveWindow),
            },
            None => Err::<WindowId, ReportError>(ReportError::Unreadable),
        }),
{
    match json::parse_json(report) {
        Some(doc) => hyprland_active(&doc),
        None => Err(ReportError::Unreadable),
    }
}

/// The argument that names a window to a dispatcher, after `before`.
pub open spec fn hyprland_argument_text(before: Seq<char>, id: WindowId) -> Seq<char> {
    before + "address:"@ + hyprland_address_text(id)
}

fn hyprland_argument(before: &str, id: WindowId) -> (r: String)
    ensures
        r@ == hyprland_argument_text(before@, id),
{
    let mut address: String = text::joined(
        "0x",
        numerals::write_unsigned(id, 16, false, 0).as_str(),
    );
    assert(address@ == hyprland_address_text(id));
    let a: String = text::joined(before, "address:");
    text::joined(a.as_str(), address.as_str())
}

/// The argument of `focuswindow` and `togglefloating`.
pub fn hyprland_focus(id: WindowId) -> (r: String)
    ensures
        r@ == hyprland_argument_text(""@, id),
{
    hyprland_argument("", id)
}

/// The argument of `movetoworkspacesilent` that minimizes a window.
pub fn hyprland_minimize(id: WindowId) -> (r: String)
    ensures
        r@ == hyprland_argument_text("special,"@, id),
{
    hyprland_argument("special,", id)
}

/// The argument of `movetoworkspace` that restores a window.
pub fn hyprland_restore(id: WindowId) -> (r: String)
    ensures
        r@ == hyprland_argument_text("e+0,"@, id),
{
    hyprland_argument("e+0,", id)
}

/// What stacks a window: dispatchers with their arguments, in order.
pub fn hyprland_stack(id: WindowId, g: &StackGeometry) -> (r: Vec<(String, String)>)
    ensures
        r@.len() == 3,
        r@[0].0@ == "togglefloating"@,
        r@[0].1@ == hyprland_argument_text(""@, id),
        r@[1].0@ == "movewindowpixel"@,
        r@[1].1@ == hyprland_argument_text(
            "exact "@ + numerals::signed_decimal(g.x as int) + " "@ + numerals::signed_decimal(
                g.y as int,
            ) + ","@,
            id,
        ),
        r@[2].0@ == "resizewindowpixel"@,
        r@[2].1@ == hyprland_argument_text(
            "exact "@ + numerals::signed_decimal((g.width as i32) as int) + " "@
                + numerals::signed_decimal((g.height as i32) as int) + ","@,
            id,
        ),
{
    let w: i32 = #[verifier::truncate]
    (g.width as i32);
    let h: i32 = #[verifier::truncate]
    (g.height as i32);
    let place: String = text::joined(two_numbers("exact ", g.x, g.y).as_str(), ",");
    let size: String = text::joined(two_numbers("exact ", w, h).as_str(), ",");
    let mut out: Vec<(String, String)> = Vec::new();
    out.push(("togglefloating".to_owned(), hyprland_focus(id)));
    out.push(("movewindowpixel".to_owned(), hyprland_argument(place.as_str(), id)));
    out.push(("resizewindowpixel".to_owned(), hyprland_argument(size.as_str(), id)));
    out
}

// ---------------------------------------------------------------------
// The managers
// ---------------------------------------------------------------------

/// Drives KDE Plasma through `wmctrl`.
#[derive(Debug, Clone, Copy, PartialEq, Eq, Structural)]
pub struct KWinManager;

/// Drives Sway through `swaymsg`.
#[derive(Debug, Clone, Copy, PartialEq, Eq, Structural)]
pub struct SwayManager;

/// Drives Hyprland through `hyprctl`.
#[derive(Debug, Clone, Copy, PartialEq, Eq, Structural)]
pub struct HyprlandManager;

impl KWinManager {
    /// The manager, where its tool could be run.
    pub fn new(tool_found: bool) -> (r: Result<Self, WmError>)
        ensures
            r is Ok == tool_found,
            r matches Err(e) ==> e.message@ == "wmctrl not found. Install wmctrl package"@,
    {
        if tool_found {
            Ok(KWinManager)
        } else {
            Err(WmError { message: "wmctrl not found. Install wmctrl package".to_owned() })
        }
    }
}

impl SwayManager {
    /// The manager, where its tool could be run.
    pub fn new(tool_found: bool) -> (r: Result<Self, WmError>)
        ensures
            r is Ok == tool_found,
            r matches Err(e) ==> e.message@
                == "swaymsg not found. Make sure you're running Sway"@,
    {
        if tool_found {
            Ok(SwayManager)
        } else {
            Err(
                WmError {
                    message: "swaymsg not found. Make sure you're running Sway".to_owned(),
                },
            )
        }
    }
}

impl HyprlandManager {
    /// The manager, where its tool could be run.
    pub fn new(tool_found: bool) -> (r: Result<Self, WmError>)
        ensures
            r is Ok == tool_found,
            r matches Err(e) ==> e.message@
                == "hyprctl not found. Make sure you're running Hyprland"@,
    {
        if tool_found {
            Ok(HyprlandManager)
        } else {
            Err(
                WmError {
                    message: "hyprctl not found. Make sure you're running Hyprland".to_owned(),
                },
            )
        }
    }
}

/// Whether a tool did what it was asked: otherwise what it printed, after
/// `what` failed.
pub fn tool_result(what: &str, success: bool, stderr: &Vec<u8>) -> (r: Result<(), WmError>)
    ensures
        r is Ok == success,
        r matches Err(e) ==> e.message@ == what@ + ": "@ + text::lossy_text(stderr@),
{
    if success {
        return Ok(());
    }
    let printed: String = text::from_utf8_lossy(stderr);
    let front: String = text::joined(what, ": ");
    Err(WmError { message: text::joined(front.as_str(), printed.as_str()) })
}

// ---------------------------------------------------------------------
// What the reports say
// ---------------------------------------------------------------------

/// A line of the listing holds a window's identifier, its desktop, its
/// process, its host and its title. The window of a client is found under its
/// identifier, its process and its character's name.
pub proof fn law_listed_client_is_a_candidate(
    line: Seq<char>,
    id: u32,
    desktop: Seq<char>,
    pid: u32,
    host: Seq<char>,
    name: Seq<char>,
)
    requires
        id != 0,
        pid != 0,
        !text::starts(name, "EVE - "@),
        text::words(line) == seq![
            hex_id_text(id as u64),
            desktop,
            numerals::decimal(pid as nat),
            host,
            "EVE"@,
            "-"@,
            name,
        ],
    ensures
        wmctrl_candidate(line) == Some((pid, id as u64, name)),
{
    reveal_strlit("EVE");
    reveal_strlit("-");
    reveal_strlit(" ");
    reveal_strlit("EVE - ");
    let parts = text::words(line);
    let title = parts.skip(4);
    assert(title =~= seq!["EVE"@, "-"@].push(name));
    assert(seq!["EVE"@].push("-"@) =~= seq!["EVE"@, "-"@]);
    text::law_parts_are_joined_by_the_separator(seq!["EVE"@, "-"@], name, " "@);
    text::law_parts_are_joined_by_the_separator(seq!["EVE"@], "-"@, " "@);
    text::law_parts_are_joined_by_the_separator(seq!["EVE"@], "EVE"@, " "@);
    assert(text::joined_with(title, " "@) =~= "EVE - "@ + name);
    numerals::law_written_number_reads_back(pid as nat, 10, false, u32::MAX as nat);
    law_wmctrl_id_reads_back(id as u64);
    window_manager::law_candidate_is_the_window(id as u64, name, pid, name);
}

/// A line with fewer than four words is none of a window, and an identifier
/// that cannot be read gives no candidate.
pub proof fn law_short_lines_are_no_windows(line: Seq<char>)
    ensures
        text::words(line).len() < 4 ==> wmctrl_line(line) is None && wmctrl_candidate(line) is None,
        text::words(line).len() >= 4 ==> (wmctrl_line(line) matches Some(l) && l.0 == text::words(
            line,
        )[0] && (numerals::unsigned_to(text::words(line)[2], 10, u32::MAX as nat) matches Some(n)
            ==> l.1 == n) && (numerals::unsigned_to(text::words(line)[2], 10, u32::MAX as nat)
            is None ==> l.1 == 0)),
        text::words(line).len() == 4 ==> (wmctrl_line(line) matches Some(l) && l.2 == text::words(
            line,
        )[3]),
        text::words(line).len() == 5 ==> (wmctrl_line(line) matches Some(l) && l.2 == text::words(
            line,
        )[4]),
        text::words(line).len() > 5 ==> (wmctrl_line(line) matches Some(l) && l.2
            == text::joined_with(text::words(line).skip(4), seq![' '])),
{
    reveal_strlit(" ");
    assert(" "@ =~= seq![' ']);
}

/// The candidates are those of the lines that give one, in their order.
pub proof fn law_each_line_gives_its_candidate(lines: Seq<Seq<char>>) -> (at: Seq<int>)
    ensures
        crate::search::positions(at, lines.len()),
        wmctrl_candidates_on(lines).len() == at.len(),
        forall|i: int|
            0 <= i < at.len() ==> wmctrl_candidate(lines[#[trigger] at[i]]) == Some(
                wmctrl_candidates_on(lines)[i],
            ),
        forall|i: int|
            0 <= i < lines.len() && wmctrl_candidate(#[trigger] lines[i]) is Some ==> at.contains(
                i,
            ),
    decreases lines.len(),
{
    if lines.len() == 0 {
        Seq::empty()
    } else {
        let n = (lines.len() - 1) as nat;
        let before = lines.drop_last();
        let front = law_each_line_gives_its_candidate(before);
        crate::search::lemma_next_position(front, n);
        assert forall|i: int| 0 <= i < n implies before[i] == #[trigger] lines[i] by {}
        if wmctrl_candidate(lines.last()) is Some {
            front.push(n as int)
        } else {
            front
        }
    }
}

/// The title is that of the first line that begins with the identifier.
pub proof fn law_title_is_that_of_the_first_line(
    lines: Seq<Seq<char>>,
    hex_id: Seq<char>,
    i: int,
)
    requires
        forall|k: int| 0 <= k < lines.len() && k < i ==> !text::starts(#[trigger] lines[k], hex_id),
        i < lines.len() ==> 0 <= i && text::starts(lines[i], hex_id),
    ensures
        wmctrl_title(lines, hex_id) == (if i < lines.len() {
            match wmctrl_line(lines[i]) {
                Some(l) => Some(l.2),
                None => None,
            }
        } else {
            None
        }),
    decreases lines.len(),
{
    if lines.len() > 0 && i != 0 {
        assert(!text::starts(lines[0], hex_id));
        let rest = lines.skip(1);
        assert forall|k: int| 0 <= k < rest.len() && k < i - 1 implies !text::starts(
            #[trigger] rest[k],
            hex_id,
        ) by {
            assert(rest[k] == lines[k + 1]);
        }
        law_title_is_that_of_the_first_line(rest, hex_id, i - 1);
    }
}

/// The identifier is written as `0x` and eight hexadecimal digits, and the
/// geometry as the gravity and the four numbers in the tool's order.
pub proof fn law_tool_is_told_the_numbers(id: WindowId, g: StackGeometry)
    ensures
        text::starts(hex_id_text(id), "0x"@),
        hex_id_text(id).len() >= 10,
        id <= u32::MAX ==> wmctrl_id(hex_id_text(id)) == id,
        g.x >= 0 && g.y >= 0 ==> text::split_on(wmctrl_geometry_text(g), ',') == seq![
            seq!['0'],
            numerals::decimal(g.x as nat),
            numerals::decimal(g.y as nat),
            numerals::decimal(g.width as nat),
            numerals::decimal(g.height as nat),
        ],
{
    reveal_strlit("0x");
    reveal_strlit("0,");
    reveal_strlit(",");
    text::law_rest_stands_behind_the_prefix(
        "0x"@,
        numerals::padded(id as nat, 16, false, 8),
        hex_id_text(id),
    );
    numerals::law_width_and_sign(id as nat, 16, false, 8);
    if id <= u32::MAX {
        law_wmctrl_id_reads_back(id);
    }
    if g.x >= 0 && g.y >= 0 {
        let z = seq!['0'];
        let x = numerals::decimal(g.x as nat);
        let y = numerals::decimal(g.y as nat);
        let w = numerals::decimal(g.width as nat);
        let h = numerals::decimal(g.height as nat);
        let c = seq![','];
        numerals::law_decimal_has_digits_only(g.x as nat);
        numerals::law_decimal_has_digits_only(g.y as nat);
        numerals::law_decimal_has_digits_only(g.width as nat);
        numerals::law_decimal_has_digits_only(g.height as nat);
        text::law_first_piece_goes_to_the_separator(h, ',', h);
        text::law_first_piece_goes_to_the_separator(w, ',', h);
        text::law_first_piece_goes_to_the_separator(y, ',', w + c + h);
        text::law_first_piece_goes_to_the_separator(x, ',', y + c + (w + c + h));
        text::law_first_piece_goes_to_the_separator(z, ',', x + c + (y + c + (w + c + h)));
        assert(wmctrl_geometry_text(g) =~= z + c + (x + c + (y + c + (w + c + h))));
        assert(seq![z] + (seq![x] + (seq![y] + (seq![w] + seq![h]))) =~= seq![z, x, y, w, h]);
    }
}

/// A node of the tree is a window where it is a container, tiled or floating,
/// of an application; its own windows come first, then the tiled ones below
/// it, then the floating ones. Every one of them is a window.
pub proof fn law_windows_below_are_found(t: JsonTree, i: int)
    ensures
        is_sway_window(t) ==> sway_windows(t).len() > 0 && sway_windows(t)[0] == t,
        0 <= i < json::array_member(t, "nodes"@).len() ==> forall|w: JsonTree|
            sway_windows(json::array_member(t, "nodes"@)[i]).contains(w) ==> #[trigger] sway_windows(
                t,
            ).contains(w),
        0 <= i < json::array_member(t, "floating_nodes"@).len() ==> forall|w: JsonTree|
            sway_windows(json::array_member(t, "floating_nodes"@)[i]).contains(w)
                ==> #[trigger] sway_windows(t).contains(w),
        !is_sway_window(t) && json::array_member(t, "nodes"@).len() == 0 && json::array_member(
            t,
            "floating_nodes"@,
        ).len() == 0 ==> sway_windows(t).len() == 0,
{
    let own = if is_sway_window(t) {
        seq![t]
    } else {
        Seq::empty()
    };
    let nodes = json::array_member(t, "nodes"@);
    let floats = json::array_member(t, "floating_nodes"@);
    let tiled = if nodes.len() > 0 {
        sway_windows_among(nodes)
    } else {
        Seq::empty()
    };
    let floating = if floats.len() > 0 {
        sway_windows_among(floats)
    } else {
        Seq::empty()
    };
    let all = sway_windows(t);
    assert(all == own + tiled + floating);
    if 0 <= i < nodes.len() {
        assert forall|w: JsonTree| sway_windows(nodes[i]).contains(w) implies #[trigger] all.contains(
            w,
        ) by {
            lemma_windows_among(nodes, i, w);
            let k = choose|k: int| 0 <= k < tiled.len() && tiled[k] == w;
            assert(all[own.len() + k] == w);
        }
    }
    if 0 <= i < floats.len() {
        assert forall|w: JsonTree| sway_windows(floats[i]).contains(w) implies #[trigger] all.contains(
            w,
        ) by {
            lemma_windows_among(floats, i, w);
            let k = choose|k: int| 0 <= k < floating.len() && floating[k] == w;
            assert(all[own.len() + tiled.len() + k] == w);
        }
    }
}

proof fn lemma_windows_among(ts: Seq<JsonTree>, i: int, w: JsonTree)
    requires
        0 <= i < ts.len(),
        sway_windows(ts[i]).contains(w),
    ensures
        sway_windows_among(ts).contains(w),
    decreases ts.len(),
{
    let front = sway_windows_among(ts.drop_last());
    let last = sway_windows(ts.last());
    let all = sway_windows_among(ts);
    assert(all == front + last);
    if i < ts.len() - 1 {
        assert(ts.drop_last()[i] == ts[i]);
        lemma_windows_among(ts.drop_last(), i, w);
        let k = choose|k: int| 0 <= k < front.len() && front[k] == w;
        assert(all[k] == w);
    } else {
        let k = choose|k: int| 0 <= k < last.len() && last[k] == w;
        assert(all[front.len() + k] == w);
    }
}

/// Containers of an application are windows, by its Wayland name or by the
/// properties of an X11 window. Workspaces and outputs are none.
pub proof fn law_containers_of_applications_are_windows(t: JsonTree, s: Seq<char>)
    ensures
        (json::text_member(t, "type"@) == Some("con"@) || json::text_member(t, "type"@) == Some(
            "floating_con"@,
        )) && json::text_member(t, "app_id"@) == Some(s) ==> is_sway_window(t),
        (json::text_member(t, "type"@) == Some("con"@) || json::text_member(t, "type"@) == Some(
            "floating_con"@,
        )) && json::member(t, "app_id"@) is None && (json::member(
            t,
            "window_properties"@,
        ) matches Some(p) && p is Object) ==> is_sway_window(t),
        json::text_member(t, "type"@) is None ==> !is_sway_window(t),
        json::text_member(t, "type"@) == Some(s) && s != "con"@ && s != "floating_con"@
            ==> !is_sway_window(t),
        json::member(t, "app_id"@) == Some(JsonTree::Null) ==> !is_sway_window(t),
        json::member(t, "app_id"@) is None && json::member(t, "window_properties"@) is None
            ==> !is_sway_window(t),
{
}

/// A client's node is found under its own process, identifier and name; a node
/// that lacks one of the three is no client's.
pub proof fn law_node_of_a_client_is_a_candidate(t: JsonTree, name: Seq<char>, pid: u32, id: u64)
    ensures
        !text::starts(name, "EVE - "@) && json::text_member(t, "name"@) == Some("EVE - "@ + name)
            && json::number_member(t, "pid"@) == Some(pid as u64) && json::number_member(t, "id"@)
            == Some(id) ==> sway_candidate(t) == Some((pid, id, name)),
        json::text_member(t, "name"@) is None || json::number_member(t, "pid"@) is None
            || json::number_member(t, "id"@) is None ==> sway_candidate(t) is None,
        (json::text_member(t, "name"@) matches Some(s) && !text::starts(s, "EVE - "@))
            ==> sway_candidate(t) is None,
{
    window_manager::law_title_names_the_character(name, name);
}

/// The candidates of a tree are those of its windows that give one, in order.
pub proof fn law_each_node_gives_its_candidate(ts: Seq<JsonTree>) -> (at: Seq<int>)
    ensures
        crate::search::positions(at, ts.len()),
        sway_candidates_among(ts).len() == at.len(),
        forall|i: int|
            0 <= i < at.len() ==> sway_candidate(ts[#[trigger] at[i]]) == Some(
                sway_candidates_among(ts)[i],
            ),
        forall|i: int|
            0 <= i < ts.len() && sway_candidate(#[trigger] ts[i]) is Some ==> at.contains(i),
    decreases ts.len(),
{
    if ts.len() == 0 {
        Seq::empty()
    } else {
        let n = (ts.len() - 1) as nat;
        let before = ts.drop_last();
        let front = law_each_node_gives_its_candidate(before);
        crate::search::lemma_next_position(front, n);
        assert forall|i: int| 0 <= i < n implies before[i] == #[trigger] ts[i] by {}
        if sway_candidate(ts.last()) is Some {
            front.push(n as int)
        } else {
            front
        }
    }
}

/// The active window is the first that is focused and has an identifier.
pub proof fn law_first_focused_node_is_active(ts: Seq<JsonTree>, i: int, id: u64)
    requires
        forall|k: int|
            0 <= k < ts.len() && k < i ==> json::member(#[trigger] ts[k], "focused"@) != Some(
                JsonTree::Bool(true),
            ),
        i < ts.len() ==> 0 <= i && json::member(ts[i], "focused"@) == Some(JsonTree::Bool(true))
            && json::number_member(ts[i], "id"@) == Some(id),
    ensures
        first_focused(ts) == (if i < ts.len() {
            Some(id)
        } else {
            None
        }),
    decreases ts.len(),
{
    if ts.len() > 0 {
        let front = ts.drop_last();
        assert forall|k: int| 0 <= k < front.len() && k < i implies json::member(
            #[trigger] front[k],
            "focused"@,
        ) != Some(JsonTree::Bool(true)) by {
            assert(front[k] == ts[k]);
        }
        law_first_focused_node_is_active(front, i, id);
    }
}

/// A command to Sway names the window by its identifier, then says what to do.
pub proof fn law_command_names_the_window(id: WindowId, what: Seq<char>)
    ensures
        ({
            let n = numerals::decimal(id as nat).len() as int;
            let s = sway_command_text(id, what);
            &&& s.take(8) == "[con_id="@
            &&& s.subrange(8, 8 + n) == numerals::decimal(id as nat)
            &&& s.subrange(8 + n, 10 + n) == "] "@
            &&& s.skip(10 + n) == what
        }),
{
    reveal_strlit("[con_id=");
    reveal_strlit("] ");
    let n = numerals::decimal(id as nat).len() as int;
    let s = sway_command_text(id, what);
    assert(s.take(8) =~= "[con_id="@);
    assert(s.subrange(8, 8 + n) =~= numerals::decimal(id as nat));
    assert(s.subrange(8 + n, 10 + n) =~= "] "@);
    assert(s.skip(10 + n) =~= what);
}

/// A client of Hyprland is found under its process, its address and its
/// character's name; one without a title or an address is none.
pub proof fn law_hyprland_client_is_a_candidate(t: JsonTree, name: Seq<char>, pid: u32, id: u64)
    ensures
        !text::starts(name, "EVE - "@) && pid != 0 && json::text_member(t, "title"@) == Some(
            "EVE - "@ + name,
        ) && json::text_member(t, "address"@) == Some(hyprland_address_text(id))
            && json::number_member(t, "pid"@) == Some(pid as u64) ==> hyprland_candidate(t) == Some(
            (pid, id, name),
        ),
        json::text_member(t, "title"@) is None || json::text_member(t, "address"@) is None
            ==> hyprland_candidate(t) is None,
        json::number_member(t, "pid"@) is None ==> hyprland_candidate(t) is None,
{
    window_manager::law_candidate_is_the_window(id, name, pid, name);
    law_hyprland_address_reads_back(id);
}

/// The candidates of the list are those of its clients that give one, in
/// order.
pub proof fn law_each_client_gives_its_candidate(ts: Seq<JsonTree>) -> (at: Seq<int>)
    ensures
        crate::search::positions(at, ts.len()),
        hyprland_candidates_among(ts).len() == at.len(),
        forall|i: int|
            0 <= i < at.len() ==> hyprland_candidate(ts[#[trigger] at[i]]) == Some(
                hyprland_candidates_among(ts)[i],
            ),
        forall|i: int|
            0 <= i < ts.len() && hyprland_candidate(#[trigger] ts[i]) is Some ==> at.contains(i),
    decreases ts.len(),
{
    if ts.len() == 0 {
        Seq::empty()
    } else {
        let n = (ts.len() - 1) as nat;
        let before = ts.drop_last();
        let front = law_each_client_gives_its_candidate(before);
        crate::search::lemma_next_position(front, n);
        assert forall|i: int| 0 <= i < n implies before[i] == #[trigger] ts[i] by {}
        if hyprland_candidate(ts.last()) is Some {
            front.push(n as int)
        } else {
            front
        }
    }
}

/// What is handed to Hyprland ends in the window's address: `address:0x` and
/// its hexadecimal digits.
pub proof fn law_argument_ends_in_the_address(before: Seq<char>, id: WindowId)
    ensures
        ({
            let s = hyprland_argument_text(before, id);
            let n = before.len() as int;
            &&& s.take(n) == before
            &&& s.subrange(n, n + 8) == "address:"@
            &&& s.subrange(n + 8, n + 10) == "0x"@
            &&& s.skip(n + 10) == numerals::digits(id as nat, 16, false)
        }),
{
    reveal_strlit("address:");
    reveal_strlit("0x");
    let s = hyprland_argument_text(before, id);
    let n = before.len() as int;
    assert(s.take(n) =~= before);
    assert(s.subrange(n, n + 8) =~= "address:"@);
    assert(s.subrange(n + 8, n + 10) =~= "0x"@);
    assert(s.skip(n + 10) =~= numerals::digits(id as nat, 16, false));
}

/// An address without `0x`, or with what is no hexadecimal number behind it,
/// stands for no window; neither does such an identifier on wmctrl's list.
pub proof fn law_unreadable_ids_are_zero(s: Seq<char>)
    ensures
        !text::starts(s, "0x"@) ==> hyprland_id(s) == 0,
        numerals::unsigned_to(s, 16, u64::MAX as nat) is None ==> hyprland_id("0x"@ + s) == 0,
        numerals::unsigned_to(s, 16, u32::MAX as nat) is None ==> wmctrl_id("0x"@ + s) == 0,
        !text::starts(s, "0x"@) ==> wmctrl_id(s) == (match numerals::unsigned_to(
            s,
            10,
            u32::MAX as nat,
        ) {
            Some(n) => n as u64,
            None => 0,
        }),
{
    text::law_rest_stands_behind_the_prefix("0x"@, s, s);
}

} // verus!
