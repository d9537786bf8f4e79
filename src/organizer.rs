//! The organizer of an event and the decoder for its property value.
use vstd::prelude::*;

use crate::text::{occurs_at, matches_at};

verus! {

/// Who organizes an event: a display name and a mail address.
#[derive(Debug)]
pub struct Organizer {
    pub calendar: String,
    pub mail_to: String,
}

/// Model of an `Organizer`.
pub struct OrganizerView {
    pub calendar: Seq<char>,
    pub mail_to: Seq<char>,
}

impl View for Organizer {
    type V = OrganizerView;

    open spec fn view(&self) -> OrganizerView {
        OrganizerView { calendar: self.calendar@, mail_to: self.mail_to@ }
    }
}

/// The organizer used when none was given or none could be read: both fields empty.
pub open spec fn default_organizer() -> OrganizerView {
    OrganizerView { calendar: Seq::empty(), mail_to: Seq::empty() }
}

impl Default for Organizer {
    fn default() -> (r: Organizer)
        ensures
            r@ == default_organizer(),
    {
        Organizer { calendar: String::new(), mail_to: String::new() }
    }
}

/// `i` is the first place where `CN=` occurs in `s`.
pub open spec fn is_first_name_key(s: Seq<char>, i: int) -> bool {
    occurs_at(s, "CN="@, i) && forall|k: int| 0 <= k < i ==> !occurs_at(s, "CN="@, k)
}

/// `:mailto:` occurs at `j`, after a name of at least one character that begins
/// at `n`, and before an address of at least one character.
pub open spec fn is_mail_split(s: Seq<char>, n: int, j: int) -> bool {
    n < j && occurs_at(s, ":mailto:"@, j) && j + 8 < s.len()
}

/// `j` is the last such split.
pub open spec fn is_last_mail_split(s: Seq<char>, n: int, j: int) -> bool {
    is_mail_split(s, n, j) && forall|k: int| j < k ==> !is_mail_split(s, n, k)
}

/// `s` has the shape `<prefix>CN=<name>:mailto:<address>`, with the name
/// starting after the first `CN=` and ending at the last `:mailto:`.
pub open spec fn has_organizer_shape(s: Seq<char>) -> bool {
    exists|i: int, j: int| is_first_name_key(s, i) && #[trigger] is_last_mail_split(s, i + 3, j)
}

/// What an organizer value decodes to: name and address when the value has
/// the expected shape, else the default organizer.
pub open spec fn organizer_of(s: Seq<char>) -> OrganizerView {
    if has_organizer_shape(s) {
        let (i, j) = choose|i: int, j: int|
            is_first_name_key(s, i) && #[trigger] is_last_mail_split(s, i + 3, j);
        OrganizerView { calendar: s.subrange(i + 3, j), mail_to: s.skip(j + 8) }
    } else {
        default_organizer()
    }
}

/// The first place where `CN=` occurs in `s`, if any.
fn find_name_key(s: &str) -> (r: Option<usize>)
    ensures
        r matches Some(i) ==> is_first_name_key(s@, i as int),
        r is None ==> forall|k: int| !occurs_at(s@, "CN="@, k),
{
    let len = s.unicode_len();
    let mut i: usize = 0;
    while i < len
        invariant
            len == s@.len(),
            i <= len,
            forall|k: int| 0 <= k < i ==> !occurs_at(s@, "CN="@, k),
        decreases len - i,
    {
        if matches_at(s, "CN=", i) {
            return Some(i);
        }
        i = i + 1;
    }
    proof {
        reveal_strlit("CN=");
    }
    None
}

/// The last split `j >= n + 1` for `:mailto:` in `s`, if any.
fn find_mail_split(s: &str, n: usize) -> (r: Option<usize>)
    ensures
        r matches Some(j) ==> is_last_mail_split(s@, n as int, j as int),
        r is None ==> forall|k: int| !is_mail_split(s@, n as int, k),
{
    let len = s.unicode_len();
    if len < 9 {
        return None;
    }
    let mut j: usize = len - 9;
    while j > n
        invariant
            len == s@.len(),
            len >= 9,
            j <= len - 9,
            forall|k: int| j < k ==> !is_mail_split(s@, n as int, k),
        decreases j,
    {
        if matches_at(s, ":mailto:", j) {
            proof { reveal_strlit(":mailto:"); }
            return Some(j);
        }
        j = j - 1;
    }
    None
}

/// Decodes an organizer value `<prefix>CN=<name>:mailto:<address>`; a value
/// of another shape gives the default organizer.
pub fn parse_organizer(s: &str) -> (r: Organizer)
    ensures
        r@ == organizer_of(s@),
{
    let len = s.unicode_len();
    proof {
        reveal_strlit("CN=");
        reveal_strlit(":mailto:");
    }
    match find_name_key(s) {
        None => {
            Organizer::default()
        },
        Some(i) => {
            match find_mail_split(s, i + 3) {
                None => {
                    Organizer::default()
                },
                Some(j) => {
                    let calendar = s.substring_char(i + 3, j).to_owned();
                    let mail_to = s.substring_char(j + 8, len).to_owned();
                    Organizer { calendar, mail_to }
                },
            }
        },
    }
}

} // verus!
