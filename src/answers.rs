//! Saving a guest's answers: when a party refuses them, and what is kept.

use vstd::prelude::*;
use crate::json::{Json, parse_json, parsed_json, field, int_of, entries_of};
use crate::blocks::{BlockIndex, index_blocks, block_ids, attendance_id, text_set};
use crate::datetime::{LocalDateTime, deadline_over, deadline_passed};
use crate::text::{contains_text, opt_text};
use crate::visibility::{parse_blocks, stored_blocks};

verus! {

/// Why a party refuses a guest's answers.
#[derive(Clone, Copy, PartialEq, Eq, Structural, Debug)]
pub enum SaveRefusal {
    /// The party is frozen and takes no more answers.
    Frozen,
    /// The deadline for answering has passed.
    DeadlinePassed,
    /// The answer is a yes and the party has reached its maximum of guests.
    PartyFull,
}

/// The entries whose keys are among `ids`, in order.
pub open spec fn kept_entries(entries: Seq<(String, Json)>, ids: Set<Seq<char>>) -> Seq<(String, Json)>
    decreases entries.len(),
{
    if entries.len() == 0 {
        Seq::empty()
    } else {
        let prev = kept_entries(entries.drop_last(), ids);
        if ids.contains(entries.last().0@) {
            prev.push(entries.last())
        } else {
            prev
        }
    }
}

/// Keeps the answers whose keys are ids of the party's blocks; answers that
/// are not a JSON object keep nothing.
pub fn filter_answers(answers: Json, index: &BlockIndex) -> (r: Json)
    ensures
        r is Object,
        entries_of(r) == kept_entries(entries_of(answers), text_set(index.ids@)),
{
    let ghost all = entries_of(answers);
    let ghost ids = text_set(index.ids@);
    let mut rest: Vec<(String, Json)> = match answers {
        Json::Object(e) => e,
        _ => Vec::new(),
    };
    assert(rest@ == all);
    let ghost n = all.len();
    let mut kept: Vec<(String, Json)> = Vec::new();
    while rest.len() > 0
        invariant
            n == all.len(),
            ids == text_set(index.ids@),
            rest@.len() <= n,
            rest@ == all.subrange(n - rest@.len(), n as int),
            kept@ == kept_entries(all.subrange(0, n - rest@.len()), ids),
        decreases rest@.len(),
    {
        let ghost done = n - rest@.len();
        let ghost old_rest = rest@;
        let entry = rest.remove(0);
        proof {
            assert(old_rest[0] == all[done]);
            assert(rest@ =~= all.subrange(n - rest@.len(), n as int));
            assert(all.subrange(0, done + 1).drop_last() =~= all.subrange(0, done));
            assert(all.subrange(0, done + 1).last() == all[done]);
        }
        if contains_text(&index.ids, entry.0.as_str()) {
            kept.push(entry);
        }
    }
    proof {
        assert(all.subrange(0, n as int) =~= all);
    }
    Json::Object(kept)
}

/// Whether stored answers say yes (the number 0) to the attendance block.
pub open spec fn says_yes(text: Seq<char>, att: Seq<char>) -> bool {
    text.len() > 0 && match parsed_json(text) {
        Some(a) => int_of(field(a, att)) == Some(0i64),
        None => false,
    }
}

/// Whether stored answers say yes to the attendance block (see `says_yes`).
pub fn stored_says_yes(text: &str, att: &str) -> (r: bool)
    ensures
        r == says_yes(text@, att@),
{
    if text.unicode_len() == 0 {
        return false;
    }
    match parse_json(text) {
        Some(a) => match a.get(att) {
            Some(v) => v.as_i64() == Some(0),
            None => false,
        },
        None => false,
    }
}

/// How many of the stored answers say yes to the attendance block.
pub open spec fn yes_count(texts: Seq<String>, att: Seq<char>) -> nat
    decreases texts.len(),
{
    if texts.len() == 0 {
        0
    } else {
        yes_count(texts.drop_last(), att) + if says_yes(texts.last()@, att) { 1nat } else { 0nat }
    }
}

/// Counts the stored answers that say yes to the attendance block; empty
/// or unreadable answers count as no answer.
pub fn count_yes(texts: &Vec<String>, att: &str) -> (r: usize)
    ensures
        r == yes_count(texts@, att@),
{
    let mut count: usize = 0;
    let mut i: usize = 0;
    while i < texts.len()
        invariant
            i <= texts@.len(),
            count <= i,
            count == yes_count(texts@.subrange(0, i as int), att@),
        decreases texts@.len() - i,
    {
        proof {
            assert(texts@.subrange(0, i + 1).drop_last() =~= texts@.subrange(0, i as int));
        }
        if stored_says_yes(texts[i].as_str(), att) {
            count = count + 1;
        }
        i = i + 1;
    }
    proof {
        assert(texts@.subrange(0, texts@.len() as int) =~= texts@);
    }
    count
}

/// Whether a party with room for `max_guests` (none counted where it is 0
/// or less) refuses a yes: the new answers say yes, the guest's stored
/// answers do not, and as many other guests as there is room for already
/// said yes.
pub open spec fn party_full(
    max_guests: i64,
    att: Option<Seq<char>>,
    answers: Json,
    current: Seq<char>,
    others: Seq<String>,
) -> bool {
    max_guests > 0 && match att {
        Some(a) => int_of(field(answers, a)) == Some(0i64) && !says_yes(current, a)
            && yes_count(others, a) >= max_guests,
        None => false,
    }
}

/// Whether the party refuses a yes (see `party_full`).
pub fn refuses_yes(
    max_guests: i64,
    att: &Option<String>,
    answers: &Json,
    current: &str,
    others: &Vec<String>,
) -> (r: bool)
    ensures
        r == party_full(max_guests, opt_text(*att), *answers, current@, others@),
{
    if max_guests <= 0 {
        return false;
    }
    match att {
        None => false,
        Some(a) => {
            let new_yes = match answers.get(a.as_str()) {
                Some(v) => v.as_i64() == Some(0),
                None => false,
            };
            if !new_yes {
                return false;
            }
            if stored_says_yes(current, a.as_str()) {
                return false;
            }
            (count_yes(others, a.as_str()) as u64) >= (max_guests as u64)
        },
    }
}

/// What becomes of answers sent for a party: refused where it is frozen,
/// where its deadline has passed, or where it is full; otherwise the answers
/// to its blocks are kept.
pub open spec fn save_outcome(
    frozen: bool,
    respond_until: Seq<char>,
    now: LocalDateTime,
    blocks: Seq<Json>,
    max_guests: i64,
    answers: Json,
    current: Seq<char>,
    others: Seq<String>,
) -> Result<Seq<(String, Json)>, SaveRefusal> {
    if frozen {
        Err(SaveRefusal::Frozen)
    } else if deadline_over(now, respond_until) {
        Err(SaveRefusal::DeadlinePassed)
    } else if party_full(max_guests, attendance_id(blocks), answers, current, others) {
        Err(SaveRefusal::PartyFull)
    } else {
        Ok(kept_entries(entries_of(answers), block_ids(blocks)))
    }
}

/// Decides on answers a guest sends: `current` holds the guest's stored
/// answers, `others` those of the party's other guests, `blocks_text` the
/// party's stored blocks. Gives the answers to store, or why they are refused.
pub fn review_answers(
    frozen: bool,
    respond_until: &str,
    now: &LocalDateTime,
    blocks_text: &str,
    max_guests: i64,
    answers: Json,
    current: &str,
    others: &Vec<String>,
) -> (r: Result<Json, SaveRefusal>)
    ensures
        match r {
            Ok(kept) => kept is Object && save_outcome(frozen, respond_until@, *now,
                stored_blocks(blocks_text@), max_guests, answers, current@, others@) == Ok::<
                Seq<(String, Json)>, SaveRefusal>(entries_of(kept)),
            Err(e) => save_outcome(frozen, respond_until@, *now, stored_blocks(blocks_text@),
                max_guests, answers, current@, others@) == Err::<Seq<(String, Json)>, SaveRefusal>(e),
        },
{
    if frozen {
        return Err(SaveRefusal::Frozen);
    }
    if deadline_passed(now, respond_until) {
        return Err(SaveRefusal::DeadlinePassed);
    }
    let blocks = parse_blocks(blocks_text);
    let index = index_blocks(&blocks);
    if refuses_yes(max_guests, &index.attendance_id, &answers, current, others) {
        return Err(SaveRefusal::PartyFull);
    }
    Ok(filter_answers(answers, &index))
}

} // verus!
