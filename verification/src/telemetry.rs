//! The identifier of an installation.
use vstd::prelude::*;
use crate::text;

verus! {

/// A lower-case hexadecimal digit.
pub open spec fn is_lower_hex(c: char) -> bool {
    ('0' <= c && c <= '9') || ('a' <= c && c <= 'f')
}

/// The text of a random identifier: hexadecimal digits in groups of 8, 4, 4,
/// 4 and 12, with the marks of the random kind.
pub open spec fn is_random_id(s: Seq<char>) -> bool {
    &&& s.len() == 36
    &&& forall|i: int|
        0 <= i < 36 ==> if i == 8 || i == 13 || i == 18 || i == 23 {
            #[trigger] s[i] == '-'
        } else {
            is_lower_hex(s[i])
        }
    &&& s[14] == '4'
    &&& s[19] == '8' || s[19] == '9' || s[19] == 'a' || s[19] == 'b'
}

/// `uuid::Uuid::new_v4`, written as text. The identifier is random: its text
/// has the form of a random identifier, and nothing more is claimed. The call
/// panics where the system has no source of random numbers.
#[verifier::external_body]
fn new_random_id() -> (r: String)
    ensures
        is_random_id(r@),
{
    uuid::Uuid::new_v4().to_string()
}

/// The identifier of this installation: the stored one, without white space
/// around it, if there is one. Else a new one, to be stored: then the second
/// component is true.
pub fn get_or_create_device_id(stored: Option<&str>) -> (r: (String, bool))
    ensures
        match stored {
            Some(s) if text::trimmed(s@).len() > 0 => r.0@ == text::trimmed(s@) && !r.1,
            _ => is_random_id(r.0@) && r.1,
        },
{
    match stored {
        Some(s) => {
            let t: String = text::trim(s);
            if t.as_str().unicode_len() > 0 {
                return (t, false);
            }
        },
        None => {},
    }
    (new_random_id(), true)
}

proof fn lemma_hex_is_not_white(c: char)
    requires
        is_lower_hex(c) || c == '-',
    ensures
        !text::is_white_space(c),
{
}

/// An identifier that was stored is found again, unchanged.
pub proof fn law_stored_id_is_kept(id: Seq<char>)
    requires
        is_random_id(id),
    ensures
        text::trimmed(id) == id,
        id.len() > 0,
{
    lemma_hex_is_not_white(id[0]);
    lemma_hex_is_not_white(id[35]);
    assert(text::trim_start(id) == id);
    assert(id.last() == id[35]);
}

} // verus!
