//! Guests who register themselves for a public party.

use vstd::prelude::*;
use crate::blocks::{find_first_attendance, first_attendance_id};
use crate::answers::{count_yes, yes_count};
use crate::visibility::{parse_blocks, stored_blocks};

verus! {

/// Why a party refuses a guest who registers themselves.
#[derive(Clone, Copy, PartialEq, Eq, Structural, Debug)]
pub enum RegistrationRefusal {
    /// The party is not public.
    NotPublic,
    /// The party has reached its maximum of guests.
    PartyFull,
}

/// How many guests a party counts against its maximum: those whose answers
/// say yes to its attendance block, or, where it has none, every invited
/// guest.
pub open spec fn counted_guests(blocks: Seq<char>, answers: Seq<String>) -> nat {
    match first_attendance_id(stored_blocks(blocks)) {
        Some(a) => yes_count(answers, a),
        None => answers.len(),
    }
}

/// Whether a party takes a guest who registers themselves: it must be
/// public, and where it has a maximum of guests (above 0) fewer guests than
/// that may be counted.
pub open spec fn registration_verdict(
    public: bool,
    max_guests: i64,
    blocks: Seq<char>,
    answers: Seq<String>,
) -> Option<RegistrationRefusal> {
    if !public {
        Some(RegistrationRefusal::NotPublic)
    } else if max_guests > 0 && counted_guests(blocks, answers) >= max_guests {
        Some(RegistrationRefusal::PartyFull)
    } else {
        None
    }
}

/// Decides on a guest who registers themselves for a party: `blocks_text`
/// holds the party's stored blocks and `answers` the stored answers of every
/// guest invited to it. `None` where the guest is taken.
pub fn review_registration(
    public: bool,
    max_guests: i64,
    blocks_text: &str,
    answers: &Vec<String>,
) -> (r: Option<RegistrationRefusal>)
    ensures
        r == registration_verdict(public, max_guests, blocks_text@, answers@),
{
    if !public {
        return Some(RegistrationRefusal::NotPublic);
    }
    if max_guests > 0 {
        let blocks = parse_blocks(blocks_text);
        let counted = match find_first_attendance(&blocks) {
            Some(a) => count_yes(answers, a.as_str()),
            None => answers.len(),
        };
        if (counted as u64) >= (max_guests as u64) {
            return Some(RegistrationRefusal::PartyFull);
        }
    }
    None
}

} // verus!
