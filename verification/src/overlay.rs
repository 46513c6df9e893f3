//! The overlay: a small window that lists the clients.
use vstd::prelude::*;
use crate::cycle_state::CycleState;
use crate::text;
use crate::window_manager::EveWindow;

verus! {

/// How often the overlay looks the clients up.
pub const SYNC_INTERVAL_MS: u128 = 500;

pub const OVERLAY_WIDTH: u64 = 220;

pub const BASE_HEIGHT: u64 = 320;

/// Added to the height for each client above `MIN_CLIENTS`.
pub const PER_CLIENT: u64 = 20;

pub const MIN_CLIENTS: u64 = 10;

/// Titles are cut after this many bytes.
pub const TITLE_BYTES: usize = 20;

/// The overlay's state.
#[derive(Debug, Clone, Copy, PartialEq, Eq, Structural)]
pub struct OverlayApp {
    /// The index that was read last.
    pub last_index: usize,
}

/// The bytes of a character in UTF-8.
pub open spec fn utf8_len(c: char) -> nat {
    if (c as u32) < 0x80 {
        1
    } else if (c as u32) < 0x800 {
        2
    } else if (c as u32) < 0x10000 {
        3
    } else {
        4
    }
}

/// The bytes of a text in UTF-8.
pub open spec fn byte_len(s: Seq<char>) -> nat
    decreases s.len(),
{
    if s.len() == 0 {
        0
    } else {
        byte_len(s.drop_last()) + utf8_len(s.last())
    }
}

/// A text can be cut after `n` bytes: no character is cut in two.
pub open spec fn cuts_at(s: Seq<char>, n: nat) -> bool {
    exists|k: int| 0 <= k <= s.len() && #[trigger] byte_len(s.take(k)) == n
}

/// The number of bytes of a title that are shown.
pub open spec fn shown_bytes(title: Seq<char>) -> nat {
    if byte_len(title) <= TITLE_BYTES {
        byte_len(title)
    } else {
        TITLE_BYTES as nat
    }
}

proof fn lemma_byte_len_grows(s: Seq<char>, a: int, b: int)
    requires
        0 <= a <= b <= s.len(),
    ensures
        byte_len(s.take(a)) + (b - a) <= byte_len(s.take(b)),
    decreases b - a,
{
    if a < b {
        lemma_byte_len_grows(s, a, b - 1);
        assert(s.take(b).drop_last() =~= s.take(b - 1));
    }
}

/// The beginning of a title that is shown.
pub fn display_title(title: &str) -> (r: String)
    requires
        cuts_at(title@, shown_bytes(title@)),
    ensures
        r@.len() <= title@.len(),
        r@ == title@.take(r@.len() as int),
        byte_len(r@) == shown_bytes(title@),
{
    let chars: Vec<char> = text::chars_of(title);
    let ghost s = title@;
    let ghost cut = choose|k: int| 0 <= k <= s.len() && #[trigger] byte_len(s.take(k)) == shown_bytes(s);
    let mut bytes: usize = 0;
    let mut i: usize = 0;
    assert(s.take(s.len() as int) == s);
    while i < chars.len() && bytes < TITLE_BYTES
        invariant
            i <= chars.len(),
            chars@ == s,
            s == title@,
            bytes == byte_len(s.take(i as int)),
            0 <= cut <= s.len(),
            byte_len(s.take(cut)) == shown_bytes(s),
            s.take(s.len() as int) == s,
            i <= cut,
        decreases chars.len() - i,
    {
        let u: u32 = chars[i] as u32;
        let n: usize = if u < 0x80 {
            1
        } else if u < 0x800 {
            2
        } else if u < 0x10000 {
            3
        } else {
            4
        };
        proof {
            assert(s.take(i + 1).drop_last() =~= s.take(i as int));
            if i == cut {
                lemma_byte_len_grows(s, i + 1, s.len() as int);
            }
            lemma_byte_len_grows(s, i + 1, cut);
        }
        bytes = bytes + n;
        i = i + 1;
    }
    proof {
        lemma_byte_len_grows(s, i as int, cut);
        lemma_byte_len_grows(s, cut, s.len() as int);
    }
    text::string_of(&chars, 0, i)
}

/// The text of a client's row.
pub fn row_text(window: &EveWindow, is_active: bool) -> (r: String)
    requires
        cuts_at(window.title@, shown_bytes(window.title@)),
    ensures
        exists|k: int|
            0 <= k <= window.title@.len() && #[trigger] byte_len(window.title@.take(k))
                == shown_bytes(window.title@) && r@ == (if is_active {
                "▸ "@
            } else {
                "  "@
            }) + window.title@.take(k),
{
    let shown: String = display_title(window.title.as_str());
    assert(byte_len(window.title@.take(shown@.len() as int)) == shown_bytes(window.title@));
    if is_active {
        text::joined("▸ ", shown.as_str())
    } else {
        text::joined("  ", shown.as_str())
    }
}

/// Titles of ASCII characters can be cut anywhere.
pub proof fn law_ascii_titles_are_cut_anywhere(title: Seq<char>)
    requires
        forall|i: int| 0 <= i < title.len() ==> (#[trigger] title[i] as u32) < 0x80,
    ensures
        cuts_at(title, shown_bytes(title)),
{
    lemma_ascii_bytes(title);
    let k: int = if title.len() <= TITLE_BYTES {
        title.len() as int
    } else {
        TITLE_BYTES as int
    };
    lemma_ascii_bytes(title.take(k));
}

proof fn lemma_ascii_bytes(s: Seq<char>)
    requires
        forall|i: int| 0 <= i < s.len() ==> (#[trigger] s[i] as u32) < 0x80,
    ensures
        byte_len(s) == s.len(),
    decreases s.len(),
{
    if s.len() > 0 {
        lemma_ascii_bytes(s.drop_last());
    }
}

/// The height of the overlay for a number of clients.
pub fn target_height(client_count: usize) -> (r: u64)
    requires
        client_count <= 0xffff_ffff,
    ensures
        r == BASE_HEIGHT + PER_CLIENT * (if client_count <= MIN_CLIENTS {
            0
        } else {
            client_count - MIN_CLIENTS
        }),
{
    let n: u64 = client_count as u64;
    if n <= MIN_CLIENTS {
        BASE_HEIGHT
    } else {
        BASE_HEIGHT + PER_CLIENT * (n - MIN_CLIENTS)
    }
}

/// Whether the clients are looked up again, `since_sync` milliseconds after
/// the last time.
pub fn sync_due(since_sync: u128) -> (r: bool)
    ensures
        r == (since_sync >= SYNC_INTERVAL_MS),
{
    since_sync >= SYNC_INTERVAL_MS
}

impl OverlayApp {
    pub fn new() -> (r: Self)
        ensures
            r.last_index == 0,
    {
        OverlayApp { last_index: 0 }
    }

    /// Takes over the index that the daemon wrote, where it is a new one. An
    /// index beyond the clients does not move the cycle.
    pub fn take_index(&mut self, read: Option<usize>, state: &mut CycleState)
        requires
            old(state).wf(),
        ensures
            final(state).wf(),
            final(state).same_clients(old(state)),
            final(state).same_record(old(state)),
            match read {
                Some(i) => final(self).last_index == i && final(state).index() == (if i
                    != old(self).last_index && (i < old(state).clients().len()
                    || old(state).clients().len() == 0) {
                    i as int
                } else {
                    old(state).index()
                }),
                None => *final(self) == *old(self) && final(state).index() == old(state).index(),
            },
    {
        if let Some(i) = read {
            if i != self.last_index {
                self.last_index = i;
                state.set_current_index(i);
            }
        }
    }
}

/// The bytes of a text are those of its parts, one to four for each character
/// by its code.
pub proof fn law_bytes_add_up(a: Seq<char>, b: Seq<char>, c: char)
    ensures
        byte_len(a + b) == byte_len(a) + byte_len(b),
        byte_len(seq![c]) == (if c <= '\u{7f}' {
            1nat
        } else if c <= '\u{7ff}' {
            2
        } else if c <= '\u{ffff}' {
            3
        } else {
            4
        }),
    decreases b.len(),
{
    assert(seq![c].drop_last() =~= Seq::<char>::empty());
    reveal_with_fuel(byte_len, 2);
    if b.len() == 0 {
        assert(a + b =~= a);
    } else {
        assert((a + b).drop_last() =~= a + b.drop_last());
        law_bytes_add_up(a, b.drop_last(), c);
    }
}

/// A title of at most twenty bytes is shown whole, and of a longer one twenty
/// bytes.
pub proof fn law_titles_are_cut_at_twenty_bytes(title: Seq<char>)
    ensures
        byte_len(title) <= 20 ==> shown_bytes(title) == byte_len(title) && cuts_at(
            title,
            shown_bytes(title),
        ),
        byte_len(title) > 20 ==> shown_bytes(title) == 20,
{
    assert(title.take(title.len() as int) =~= title);
}

} // verus!
