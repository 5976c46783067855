//! Which of the other guests' answers a viewer of an invitation may see.

use vstd::prelude::*;
use vstd::string::*;
use crate::json::{Json, field, int_of, entries_of, parse_json, parsed_json};
use crate::blocks::{
    BlockIndex, index_blocks, block_list, public_ids, attendance_id, attendance_shown, text_set, lemma_shows_attendance,
};
use crate::text::{contains_text, opt_text, text_eq};

verus! {

/// Another guest's stored answers, with the name shown beside them.
pub struct OtherAnswers {
    pub guest_name: String,
    pub answers: Json,
}

/// One answer shown to the viewer: the block it answers, the value and the
/// name shown beside it.
pub struct VisibleAnswer {
    pub block_id: String,
    pub answer: Json,
    pub guest_name: String,
}

/// An answer as seen in contracts: block id, value, name.
pub type ShownAnswer = (Seq<char>, Json, Seq<char>);

impl VisibleAnswer {
    pub open spec fn view(&self) -> ShownAnswer {
        (self.block_id@, self.answer, self.guest_name@)
    }
}

/// The contract view of other guests' answers: name and answers of each.
pub open spec fn others_view(v: Seq<OtherAnswers>) -> Seq<(Seq<char>, Json)> {
    v.map_values(|o: OtherAnswers| (o.guest_name@, o.answers))
}

/// The contract view of one guest's visible answers.
pub open spec fn entries_view(v: Seq<VisibleAnswer>) -> Seq<ShownAnswer> {
    v.map_values(|a: VisibleAnswer| a@)
}

/// The contract view of the result: each guest's visible answers.
pub open spec fn result_view(v: Seq<Vec<VisibleAnswer>>) -> Seq<Seq<ShownAnswer>> {
    v.map_values(|g: Vec<VisibleAnswer>| entries_view(g@))
}

/// Whether a guest counts as attending: always where the party has no RSVP
/// block or no attendance block is found; otherwise where the guest's answer
/// to the attendance block is the number 0.
pub open spec fn rsvped_yes(answers: Json, att: Option<Seq<char>>, has_rsvp_block: bool) -> bool {
    !has_rsvp_block || match att {
        None => true,
        Some(a) => int_of(field(answers, a)) == Some(0i64),
    }
}

/// The name shown to an organizer beside one answer: " (?)" is appended
/// where the party has an RSVP block, the guest does not count as attending,
/// and the answer is not the attendance answer itself.
pub open spec fn organizer_name(
    name: Seq<char>,
    key: Seq<char>,
    yes: bool,
    att: Option<Seq<char>>,
    has_rsvp_block: bool,
) -> Seq<char> {
    if yes || att == Some(key) || !has_rsvp_block {
        name
    } else {
        name + " (?)"@
    }
}

/// Whether a viewer who is not an organizer sees an answer to block `key`.
/// The attendance answer is seen where `att_shown` holds (see
/// `attendance_shown`), whatever the guest answered; any other answer where
/// its block is public and the party has no RSVP block or the guest counts
/// as attending.
pub open spec fn guest_sees(
    key: Seq<char>,
    yes: bool,
    public: Set<Seq<char>>,
    att: Option<Seq<char>>,
    att_shown: bool,
    has_rsvp_block: bool,
) -> bool {
    if att == Some(key) {
        att_shown
    } else {
        public.contains(key) && (!has_rsvp_block || yes)
    }
}

/// Every answer of one guest, as an organizer sees them.
pub open spec fn organizer_view(
    entries: Seq<(String, Json)>,
    name: Seq<char>,
    yes: bool,
    att: Option<Seq<char>>,
    has_rsvp_block: bool,
) -> Seq<ShownAnswer>
    decreases entries.len(),
{
    if entries.len() == 0 {
        Seq::empty()
    } else {
        let e = entries.last();
        organizer_view(entries.drop_last(), name, yes, att, has_rsvp_block).push(
            (e.0@, e.1, organizer_name(name, e.0@, yes, att, has_rsvp_block)),
        )
    }
}

/// The answers of one guest that a viewer who is not an organizer sees.
pub open spec fn guest_view(
    entries: Seq<(String, Json)>,
    name: Seq<char>,
    yes: bool,
    public: Set<Seq<char>>,
    att: Option<Seq<char>>,
    att_shown: bool,
    has_rsvp_block: bool,
) -> Seq<ShownAnswer>
    decreases entries.len(),
{
    if entries.len() == 0 {
        Seq::empty()
    } else {
        let e = entries.last();
        let prev = guest_view(entries.drop_last(), name, yes, public, att, att_shown, has_rsvp_block);
        if guest_sees(e.0@, yes, public, att, att_shown, has_rsvp_block) {
            prev.push((e.0@, e.1, name))
        } else {
            prev
        }
    }
}

/// What a viewer sees of the other guests' answers, guest by guest in
/// order. An organizer sees every guest; any other viewer sees only the
/// guests of whom at least one answer is visible.
pub open spec fn visible_answers(
    others: Seq<(Seq<char>, Json)>,
    organizer: bool,
    public: Set<Seq<char>>,
    att: Option<Seq<char>>,
    att_shown: bool,
    has_rsvp_block: bool,
) -> Seq<Seq<ShownAnswer>>
    decreases others.len(),
{
    if others.len() == 0 {
        Seq::empty()
    } else {
        let (name, answers) = others.last();
        let prev = visible_answers(others.drop_last(), organizer, public, att, att_shown, has_rsvp_block);
        let yes = rsvped_yes(answers, att, has_rsvp_block);
        if organizer {
            prev.push(organizer_view(entries_of(answers), name, yes, att, has_rsvp_block))
        } else {
            let g = guest_view(entries_of(answers), name, yes, public, att, att_shown, has_rsvp_block);
            if g.len() > 0 {
                prev.push(g)
            } else {
                prev
            }
        }
    }
}

/// Whether a guest counts as attending (see `rsvped_yes`).
pub fn answered_yes(answers: &Json, att: &Option<String>, has_rsvp_block: bool) -> (r: bool)
    ensures
        r == rsvped_yes(*answers, opt_text(*att), has_rsvp_block),
{
    if !has_rsvp_block {
        return true;
    }
    match att {
        None => true,
        Some(a) => match answers.get(a.as_str()) {
            Some(v) => v.as_i64() == Some(0),
            None => false,
        },
    }
}

/// Whether `key` is the attendance block's id.
fn is_attendance_key(key: &String, att: &Option<String>) -> (r: bool)
    ensures
        r == (opt_text(*att) == Some(key@)),
{
    match att {
        Some(a) => text_eq(a.as_str(), key.as_str()),
        None => false,
    }
}

/// One guest's answers, filtered and named for the viewer.
fn view_of_guest(
    index: &BlockIndex,
    att_shown: bool,
    has_rsvp_block: bool,
    organizer: bool,
    guest_name: String,
    answers: Json,
) -> (r: Vec<VisibleAnswer>)
    ensures
        entries_view(r@) == ({
            let yes = rsvped_yes(answers, opt_text(index.attendance_id), has_rsvp_block);
            if organizer {
                organizer_view(entries_of(answers), guest_name@, yes, opt_text(index.attendance_id), has_rsvp_block)
            } else {
                guest_view(entries_of(answers), guest_name@, yes, text_set(index.public_ids@),
                    opt_text(index.attendance_id), att_shown, has_rsvp_block)
            }
        }),
{
    let yes = answered_yes(&answers, &index.attendance_id, has_rsvp_block);
    let ghost all = entries_of(answers);
    let ghost att = opt_text(index.attendance_id);
    let ghost public = text_set(index.public_ids@);
    let mut rest: Vec<(String, Json)> = match answers {
        Json::Object(e) => e,
        _ => Vec::new(),
    };
    assert(rest@ == all);
    let ghost n = all.len();
    let mut out: Vec<VisibleAnswer> = Vec::new();
    while rest.len() > 0
        invariant
            rest@.len() <= n,
            att == opt_text(index.attendance_id),
            public == text_set(index.public_ids@),
            rest@ == all.subrange(n - rest@.len(), n as int),
            n == all.len(),
            entries_view(out@) == if organizer {
                organizer_view(all.subrange(0, n - rest@.len()), guest_name@, yes, att, has_rsvp_block)
            } else {
                guest_view(all.subrange(0, n - rest@.len()), guest_name@, yes, public, att, att_shown, has_rsvp_block)
            },
        decreases rest@.len(),
    {
        let ghost done = n - rest@.len();
        let ghost old_out = out@;
        let ghost old_rest = rest@;
        let (key, value) = rest.remove(0);
        proof {
            assert(old_rest[0] == all[done]);
            assert(key == all[done].0 && value == all[done].1);
            assert(rest@ =~= all.subrange(n - rest@.len(), n as int));
            assert(all.subrange(0, done + 1).drop_last() =~= all.subrange(0, done));
            assert(all.subrange(0, done + 1).last() == all[done]);
        }
        let is_att = is_attendance_key(&key, &index.attendance_id);
        if organizer {
            let shown_name = if yes || is_att || !has_rsvp_block {
                guest_name.clone()
            } else {
                guest_name.clone().concat(" (?)")
            };
            out.push(VisibleAnswer { block_id: key, answer: value, guest_name: shown_name });
            proof {
                assert(entries_view(out@) =~= entries_view(old_out).push(out@.last()@));
            }
        } else {
            let seen = if is_att {
                att_shown
            } else {
                contains_text(&index.public_ids, key.as_str()) && (!has_rsvp_block || yes)
            };
            if seen {
                out.push(VisibleAnswer { block_id: key, answer: value, guest_name: guest_name.clone() });
                proof {
                    assert(entries_view(out@) =~= entries_view(old_out).push(out@.last()@));
                }
            }
        }
    }
    proof {
        assert(all.subrange(0, n as int) =~= all);
    }
    out
}

/// Filters the other guests' answers for a viewer, given the party's block
/// index: an organizer sees every answer of every guest; any other viewer
/// sees the answers that `guest_sees` allows, the attendance answer where
/// the index shows it, and only guests with at least one such answer.
pub fn filter_other_answers(
    index: &BlockIndex,
    has_rsvp_block: bool,
    organizer: bool,
    others: Vec<OtherAnswers>,
) -> (r: Vec<Vec<VisibleAnswer>>)
    ensures
        result_view(r@) == visible_answers(
            others_view(others@),
            organizer,
            text_set(index.public_ids@),
            opt_text(index.attendance_id),
            index.shows_attendance(),
            has_rsvp_block,
        ),
{
    let att_shown = !index.attendance_private && index.public_ids.len() > 0;
    let ghost all = others_view(others@);
    let ghost n = all.len();
    let mut rest = others;
    let mut out: Vec<Vec<VisibleAnswer>> = Vec::new();
    while rest.len() > 0
        invariant
            n == all.len(),
            rest@.len() <= n,
            others_view(rest@) == all.subrange(n - rest@.len(), n as int),
            result_view(out@) == visible_answers(
                all.subrange(0, n - rest@.len()),
                organizer,
                text_set(index.public_ids@),
                opt_text(index.attendance_id),
                att_shown,
                has_rsvp_block,
            ),
            att_shown == index.shows_attendance(),
        decreases rest@.len(),
    {
        let ghost done = n - rest@.len();
        let ghost old_rest = rest@;
        let ghost old_out = out@;
        let item = rest.remove(0);
        proof {
            assert(others_view(old_rest)[0] == all[done]);
            assert(others_view(rest@) =~= others_view(old_rest).drop_first());
            assert(others_view(rest@) =~= all.subrange(n - rest@.len(), n as int));
            assert(all.subrange(0, done + 1).drop_last() =~= all.subrange(0, done));
            assert(all.subrange(0, done + 1).last() == all[done]);
        }
        let OtherAnswers { guest_name, answers } = item;
        let g = view_of_guest(index, att_shown, has_rsvp_block, organizer, guest_name, answers);
        if organizer || g.len() > 0 {
            out.push(g);
            proof {
                assert(result_view(out@) =~= result_view(old_out).push(entries_view(g@)));
            }
        }
    }
    proof {
        assert(all.subrange(0, n as int) =~= all);
    }
    out
}

/// What a viewer of an invitation sees of the other guests' answers, given
/// the party's parsed block list.
pub fn visible_other_answers(
    blocks: &Json,
    has_rsvp_block: bool,
    organizer: bool,
    others: Vec<OtherAnswers>,
) -> (r: Vec<Vec<VisibleAnswer>>)
    ensures
        result_view(r@) == visible_answers(
            others_view(others@),
            organizer,
            public_ids(block_list(*blocks)),
            attendance_id(block_list(*blocks)),
            attendance_shown(block_list(*blocks)),
            has_rsvp_block,
        ),
{
    let index = index_blocks(blocks);
    proof {
        lemma_shows_attendance(index, block_list(*blocks));
    }
    filter_other_answers(&index, has_rsvp_block, organizer, others)
}

/// Another guest's answers as stored: JSON text.
pub struct StoredAnswers {
    pub guest_name: String,
    pub answers_text: String,
}

/// The stored answers that parse, with their guests' names, in order; those
/// that are not valid JSON are left out.
pub open spec fn parsed_others(v: Seq<StoredAnswers>) -> Seq<(Seq<char>, Json)>
    decreases v.len(),
{
    if v.len() == 0 {
        Seq::empty()
    } else {
        let prev = parsed_others(v.drop_last());
        match parsed_json(v.last().answers_text@) {
            Some(a) => prev.push((v.last().guest_name@, a)),
            None => prev,
        }
    }
}

/// A party's blocks as stored: the elements of the JSON array that the text
/// holds; none where it holds anything else or is not valid JSON.
pub open spec fn stored_blocks(text: Seq<char>) -> Seq<Json> {
    match parsed_json(text) {
        Some(j) => block_list(j),
        None => Seq::empty(),
    }
}

/// Parses a party's stored block list; an empty list where it is not valid
/// JSON.
pub fn parse_blocks(text: &str) -> (r: Json)
    ensures
        block_list(r) == stored_blocks(text@),
{
    match parse_json(text) {
        Some(j) => j,
        None => {
            let empty: Vec<Json> = Vec::new();
            Json::Array(empty)
        },
    }
}

/// What a viewer of an invitation sees of the other guests' answers, from
/// the party's stored blocks and the other guests' stored answers.
pub fn other_guests_answers(
    blocks_text: &str,
    has_rsvp_block: bool,
    organizer: bool,
    others: Vec<StoredAnswers>,
) -> (r: Vec<Vec<VisibleAnswer>>)
    ensures
        result_view(r@) == visible_answers(
            parsed_others(others@),
            organizer,
            public_ids(stored_blocks(blocks_text@)),
            attendance_id(stored_blocks(blocks_text@)),
            attendance_shown(stored_blocks(blocks_text@)),
            has_rsvp_block,
        ),
{
    let blocks = parse_blocks(blocks_text);
    let ghost all = others@;
    let ghost n = all.len();
    let mut rest = others;
    let mut parsed: Vec<OtherAnswers> = Vec::new();
    while rest.len() > 0
        invariant
            n == all.len(),
            rest@.len() <= n,
            rest@ == all.subrange(n - rest@.len(), n as int),
            others_view(parsed@) == parsed_others(all.subrange(0, n - rest@.len())),
        decreases rest@.len(),
    {
        let ghost done = n - rest@.len();
        let ghost old_rest = rest@;
        let ghost old_parsed = parsed@;
        let item = rest.remove(0);
        proof {
            assert(old_rest[0] == all[done]);
            assert(rest@ =~= all.subrange(n - rest@.len(), n as int));
            assert(all.subrange(0, done + 1).drop_last() =~= all.subrange(0, done));
            assert(all.subrange(0, done + 1).last() == all[done]);
        }
        let StoredAnswers { guest_name, answers_text } = item;
        if let Some(answers) = parse_json(answers_text.as_str()) {
            parsed.push(OtherAnswers { guest_name, answers });
            proof {
                assert(others_view(parsed@) =~= others_view(old_parsed).push((parsed@.last().guest_name@, parsed@.last().answers)));
            }
        }
    }
    proof {
        assert(all.subrange(0, n as int) =~= all);
    }
    visible_other_answers(&blocks, has_rsvp_block, organizer, parsed)
}

} // verus!
