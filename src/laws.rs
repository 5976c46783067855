//! Properties of what viewers see of the other guests' answers, and of
//! what is kept of saved answers.

use vstd::prelude::*;
use crate::json::{Json, entries_of};
use crate::answers::{kept_entries, save_outcome};
use crate::blocks::{
    block_ids, block_id, public_ids, attendance_id, attendance_shown, attendance_private, content_public,
    content_private, is_attendance,
};
use crate::datetime::LocalDateTime;
use crate::visibility::{
    ShownAnswer, visible_answers, guest_view, organizer_view, guest_sees, rsvped_yes, organizer_name,
};

verus! {

proof fn lemma_guest_view_sees(
    entries: Seq<(String, Json)>,
    name: Seq<char>,
    yes: bool,
    public: Set<Seq<char>>,
    att: Option<Seq<char>>,
    att_shown: bool,
    has_rsvp_block: bool,
)
    ensures
        forall|k: int| 0 <= k < guest_view(entries, name, yes, public, att, att_shown, has_rsvp_block).len()
            ==> guest_sees(
                (#[trigger] guest_view(entries, name, yes, public, att, att_shown, has_rsvp_block)[k]).0,
                yes, public, att, att_shown, has_rsvp_block,
            ),
    decreases entries.len(),
{
    if entries.len() > 0 {
        lemma_guest_view_sees(entries.drop_last(), name, yes, public, att, att_shown, has_rsvp_block);
        let v = guest_view(entries, name, yes, public, att, att_shown, has_rsvp_block);
        let p = guest_view(entries.drop_last(), name, yes, public, att, att_shown, has_rsvp_block);
        assert forall|k: int| 0 <= k < v.len() implies guest_sees((#[trigger] v[k]).0, yes, public, att, att_shown,
            has_rsvp_block) by {
            if k < p.len() {
                assert(v[k] == p[k]);
            }
        }
    }
}

proof fn lemma_visible_prefix(
    others: Seq<(Seq<char>, Json)>,
    organizer: bool,
    public: Set<Seq<char>>,
    att: Option<Seq<char>>,
    att_shown: bool,
    has_rsvp_block: bool,
)
    requires
        others.len() > 0,
    ensures
        ({
            let v = visible_answers(others, organizer, public, att, att_shown, has_rsvp_block);
            let p = visible_answers(others.drop_last(), organizer, public, att, att_shown, has_rsvp_block);
            p.len() <= v.len() && forall|g: int| 0 <= g < p.len() ==> v[g] == p[g]
        }),
{
}

/// Every answer a viewer who is not an organizer sees is the attendance
/// answer, where answers to that block are shown, or an answer to a public
/// block.
proof fn lemma_visible_keys(
    others: Seq<(Seq<char>, Json)>,
    public: Set<Seq<char>>,
    att: Option<Seq<char>>,
    att_shown: bool,
    has_rsvp_block: bool,
)
    ensures
        forall|g: int, k: int|
            0 <= g < visible_answers(others, false, public, att, att_shown, has_rsvp_block).len()
            && 0 <= k < visible_answers(others, false, public, att, att_shown, has_rsvp_block)[g].len()
            ==> ({
                let key = (#[trigger] visible_answers(others, false, public, att, att_shown, has_rsvp_block)[g][k]).0;
                if att == Some(key) { att_shown } else { public.contains(key) }
            }),
    decreases others.len(),
{
    if others.len() > 0 {
        lemma_visible_keys(others.drop_last(), public, att, att_shown, has_rsvp_block);
        let (name, answers) = others.last();
        let yes = rsvped_yes(answers, att, has_rsvp_block);
        lemma_guest_view_sees(entries_of(answers), name, yes, public, att, att_shown, has_rsvp_block);
        lemma_visible_prefix(others, false, public, att, att_shown, has_rsvp_block);
        let v = visible_answers(others, false, public, att, att_shown, has_rsvp_block);
        let p = visible_answers(others.drop_last(), false, public, att, att_shown, has_rsvp_block);
        let gv = guest_view(entries_of(answers), name, yes, public, att, att_shown, has_rsvp_block);
        assert forall|g: int, k: int| 0 <= g < v.len() && 0 <= k < v[g].len() implies ({
            let key = (#[trigger] v[g][k]).0;
            if att == Some(key) { att_shown } else { public.contains(key) }
        }) by {
            if g < p.len() {
                assert(v[g] == p[g]);
                assert(p[g][k] == v[g][k]);
            } else {
                assert(v[g] == gv);
                assert(guest_sees(gv[k].0, yes, public, att, att_shown, has_rsvp_block));
            }
        }
    }
}

proof fn lemma_attendance_block(bl: Seq<Json>)
    ensures
        attendance_id(bl) is Some ==> exists|j: int|
            0 <= j < bl.len() && block_id(#[trigger] bl[j]) == attendance_id(bl)
            && attendance_private(bl) == content_private(bl[j]),
    decreases bl.len(),
{
    if bl.len() > 0 {
        lemma_attendance_block(bl.drop_last());
        if !(is_attendance(bl.last()) && block_id(bl.last()) is Some) && attendance_id(bl) is Some {
            let j = choose|j: int| 0 <= j < bl.drop_last().len() && block_id(#[trigger] bl.drop_last()[j])
                == attendance_id(bl.drop_last()) && attendance_private(bl.drop_last()) == content_private(bl.drop_last()[j]);
            assert(bl[j] == bl.drop_last()[j]);
        } else if attendance_id(bl) is Some {
            assert(bl[bl.len() - 1] == bl.last());
        }
    }
}

/// A viewer who is not an organizer never sees an answer to a block marked
/// not public, whatever any guest answered to the attendance block. A block
/// is marked not public where its content does not mark it public, or, for
/// the attendance block, where its content marks it `public: false`. Answers
/// name blocks by id, so this holds of a block whose id no other block
/// shares.
pub proof fn hidden_blocks_stay_hidden(
    others: Seq<(Seq<char>, Json)>,
    bl: Seq<Json>,
    has_rsvp_block: bool,
    i: int,
)
    requires
        0 <= i < bl.len(),
        block_id(bl[i]) is Some,
        forall|j: int| 0 <= j < bl.len() && j != i ==> block_id(#[trigger] bl[j]) != block_id(bl[i]),
        if attendance_id(bl) == block_id(bl[i]) {
            content_private(bl[i])
        } else {
            !content_public(bl[i])
        },
    ensures
        forall|g: int, k: int|
            0 <= g < visible_answers(others, false, public_ids(bl), attendance_id(bl), attendance_shown(bl),
                has_rsvp_block).len()
            && 0 <= k < visible_answers(others, false, public_ids(bl), attendance_id(bl), attendance_shown(bl),
                has_rsvp_block)[g].len()
            ==> Some((#[trigger] visible_answers(others, false, public_ids(bl), attendance_id(bl),
                attendance_shown(bl), has_rsvp_block)[g][k]).0) != block_id(bl[i]),
{
    let public = public_ids(bl);
    let att = attendance_id(bl);
    let shown = attendance_shown(bl);
    lemma_visible_keys(others, public, att, shown, has_rsvp_block);
    lemma_attendance_block(bl);
    let x = block_id(bl[i])->Some_0;
    if att == Some(x) {
        let j = choose|j: int| 0 <= j < bl.len() && block_id(#[trigger] bl[j]) == att
            && attendance_private(bl) == content_private(bl[j]);
        assert(j == i);
        assert(!shown);
    } else {
        if public.contains(x) {
            let j = choose|j: int| 0 <= j < bl.len() && block_id(bl[j]) == Some(x) && content_public(bl[j]);
            assert(block_id(bl[j]) == block_id(bl[i]));
        }
        assert(!public.contains(x));
    }
    let v = visible_answers(others, false, public, att, shown, has_rsvp_block);
    assert forall|g: int, k: int| 0 <= g < v.len() && 0 <= k < v[g].len() implies Some((#[trigger] v[g][k]).0)
        != block_id(bl[i]) by {
        let key = v[g][k].0;
        if key == x {
            assert(if att == Some(key) { shown } else { public.contains(key) });
        }
    }
}

proof fn lemma_guest_view_keeps(
    entries: Seq<(String, Json)>,
    name: Seq<char>,
    yes: bool,
    public: Set<Seq<char>>,
    att: Option<Seq<char>>,
    att_shown: bool,
    has_rsvp_block: bool,
    j: int,
)
    requires
        0 <= j < entries.len(),
        guest_sees(entries[j].0@, yes, public, att, att_shown, has_rsvp_block),
    ensures
        guest_view(entries, name, yes, public, att, att_shown, has_rsvp_block).contains(
            (entries[j].0@, entries[j].1, name),
        ),
    decreases entries.len(),
{
    let v = guest_view(entries, name, yes, public, att, att_shown, has_rsvp_block);
    let prev = guest_view(entries.drop_last(), name, yes, public, att, att_shown, has_rsvp_block);
    if j == entries.len() - 1 {
        assert(v.last() == (entries[j].0@, entries[j].1, name));
    } else {
        assert(entries.drop_last()[j] == entries[j]);
        lemma_guest_view_keeps(entries.drop_last(), name, yes, public, att, att_shown, has_rsvp_block, j);
        let k = choose|k: int| 0 <= k < prev.len() && prev[k] == (entries[j].0@, entries[j].1, name);
        if guest_sees(entries.last().0@, yes, public, att, att_shown, has_rsvp_block) {
            assert(v[k] == prev[k]);
        }
    }
}

proof fn lemma_attendance_kept(
    others: Seq<(Seq<char>, Json)>,
    public: Set<Seq<char>>,
    att: Option<Seq<char>>,
    has_rsvp_block: bool,
    i: int,
    j: int,
)
    requires
        0 <= i < others.len(),
        0 <= j < entries_of(others[i].1).len(),
        att == Some(entries_of(others[i].1)[j].0@),
    ensures
        exists|g: int|
            0 <= g < visible_answers(others, false, public, att, true, has_rsvp_block).len()
            && (#[trigger] visible_answers(others, false, public, att, true, has_rsvp_block)[g]).contains(
                (entries_of(others[i].1)[j].0@, entries_of(others[i].1)[j].1, others[i].0),
            ),
    decreases others.len(),
{
    let e = entries_of(others[i].1)[j];
    let v = visible_answers(others, false, public, att, true, has_rsvp_block);
    let p = visible_answers(others.drop_last(), false, public, att, true, has_rsvp_block);
    lemma_visible_prefix(others, false, public, att, true, has_rsvp_block);
    if i == others.len() - 1 {
        let (name, answers) = others.last();
        let yes = rsvped_yes(answers, att, has_rsvp_block);
        lemma_guest_view_keeps(entries_of(answers), name, yes, public, att, true, has_rsvp_block, j);
        let gv = guest_view(entries_of(answers), name, yes, public, att, true, has_rsvp_block);
        assert(gv.len() > 0);
        assert(v[p.len() as int] == gv);
    } else {
        assert(others.drop_last()[i] == others[i]);
        lemma_attendance_kept(others.drop_last(), public, att, has_rsvp_block, i, j);
        let g = choose|g: int| 0 <= g < p.len() && (#[trigger] p[g]).contains((e.0@, e.1, others[i].0));
        assert(v[g] == p[g]);
    }
}

/// Every viewer who is not an organizer sees each guest's attendance answer
/// wherever the party has at least one public block and its attendance
/// block is not marked `public: false`, whether or not that guest said yes:
/// the guest appears, with that answer among those shown.
pub proof fn attendance_answer_always_shown(
    others: Seq<(Seq<char>, Json)>,
    bl: Seq<Json>,
    has_rsvp_block: bool,
    i: int,
    j: int,
)
    requires
        0 <= i < others.len(),
        0 <= j < entries_of(others[i].1).len(),
        attendance_id(bl) == Some(entries_of(others[i].1)[j].0@),
        public_ids(bl) != Set::<Seq<char>>::empty(),
        !attendance_private(bl),
    ensures
        exists|g: int|
            0 <= g < visible_answers(others, false, public_ids(bl), attendance_id(bl), attendance_shown(bl),
                has_rsvp_block).len()
            && (#[trigger] visible_answers(others, false, public_ids(bl), attendance_id(bl), attendance_shown(bl),
                has_rsvp_block)[g]).contains(
                (entries_of(others[i].1)[j].0@, entries_of(others[i].1)[j].1, others[i].0),
            ),
{
    assert(attendance_shown(bl));
    lemma_attendance_kept(others, public_ids(bl), attendance_id(bl), has_rsvp_block, i, j);
}

proof fn lemma_organizer_view(
    entries: Seq<(String, Json)>,
    name: Seq<char>,
    yes: bool,
    att: Option<Seq<char>>,
    has_rsvp_block: bool,
)
    ensures
        organizer_view(entries, name, yes, att, has_rsvp_block).len() == entries.len(),
        forall|k: int| 0 <= k < entries.len() ==> #[trigger] organizer_view(entries, name, yes, att, has_rsvp_block)[k]
            == (entries[k].0@, entries[k].1, organizer_name(name, entries[k].0@, yes, att, has_rsvp_block)),
    decreases entries.len(),
{
    if entries.len() > 0 {
        lemma_organizer_view(entries.drop_last(), name, yes, att, has_rsvp_block);
        assert forall|k: int| 0 <= k < entries.len() - 1 implies entries.drop_last()[k] == entries[k] by {}
    }
}

/// An organizer sees every other guest, in order, and every answer of each
/// (a guest whose answers are not an object has none); beside an answer
/// stands the guest's name, with " (?)" appended only where the party has an
/// RSVP block, the guest has not answered 0 to the attendance block, and
/// the answer is not that attendance answer.
pub proof fn organizers_see_every_answer(
    others: Seq<(Seq<char>, Json)>,
    public: Set<Seq<char>>,
    att: Option<Seq<char>>,
    att_shown: bool,
    has_rsvp_block: bool,
)
    ensures
        visible_answers(others, true, public, att, att_shown, has_rsvp_block).len() == others.len(),
        forall|g: int| 0 <= g < others.len()
            ==> (#[trigger] visible_answers(others, true, public, att, att_shown, has_rsvp_block)[g]).len()
                == entries_of(others[g].1).len(),
        forall|g: int, k: int| 0 <= g < others.len() && 0 <= k < entries_of(others[g].1).len()
            ==> #[trigger] visible_answers(others, true, public, att, att_shown, has_rsvp_block)[g][k] == ({
                let key = entries_of(others[g].1)[k].0@;
                let marked = has_rsvp_block && !rsvped_yes(others[g].1, att, has_rsvp_block)
                    && att != Some(key);
                (key, entries_of(others[g].1)[k].1, if marked { others[g].0 + " (?)"@ } else { others[g].0 })
            }),
    decreases others.len(),
{
    if others.len() > 0 {
        let prev = others.drop_last();
        organizers_see_every_answer(prev, public, att, att_shown, has_rsvp_block);
        let (name, answers) = others.last();
        let yes = rsvped_yes(answers, att, has_rsvp_block);
        lemma_organizer_view(entries_of(answers), name, yes, att, has_rsvp_block);
        assert forall|g: int| 0 <= g < others.len() - 1 implies prev[g] == others[g] by {}
    }
}

proof fn lemma_kept_entries(entries: Seq<(String, Json)>, ids: Set<Seq<char>>)
    ensures
        forall|k: int| 0 <= k < kept_entries(entries, ids).len()
            ==> ids.contains((#[trigger] kept_entries(entries, ids)[k]).0@),
        forall|j: int| 0 <= j < entries.len() && ids.contains(entries[j].0@)
            ==> kept_entries(entries, ids).contains(#[trigger] entries[j]),
    decreases entries.len(),
{
    if entries.len() > 0 {
        let prev = entries.drop_last();
        lemma_kept_entries(prev, ids);
        let v = kept_entries(entries, ids);
        let p = kept_entries(prev, ids);
        assert forall|k: int| 0 <= k < v.len() implies ids.contains((#[trigger] v[k]).0@) by {
            if k < p.len() {
                assert(v[k] == p[k]);
            }
        }
        assert forall|j: int| 0 <= j < entries.len() && ids.contains(entries[j].0@)
            implies v.contains(#[trigger] entries[j]) by {
            if j < entries.len() - 1 {
                assert(prev[j] == entries[j]);
                let k = choose|k: int| 0 <= k < p.len() && p[k] == prev[j];
                assert(v[k] == p[k]);
            } else {
                assert(v.last() == entries[j]);
            }
        }
    }
}

/// Saved answers hold no answer to a block that the party's current block
/// list lacks: such keys are dropped without error, and every answer to a
/// block the party has is kept.
pub proof fn answers_to_unknown_blocks_are_dropped(
    frozen: bool,
    respond_until: Seq<char>,
    now: LocalDateTime,
    blocks: Seq<Json>,
    max_guests: i64,
    answers: Json,
    current: Seq<char>,
    others: Seq<String>,
)
    ensures
        save_outcome(frozen, respond_until, now, blocks, max_guests, answers, current, others) matches Ok(kept)
            ==> (forall|k: int| 0 <= k < kept.len() ==> block_ids(blocks).contains((#[trigger] kept[k]).0@))
            && (forall|j: int| 0 <= j < entries_of(answers).len() && block_ids(blocks).contains(entries_of(answers)[j].0@)
                ==> kept.contains(#[trigger] entries_of(answers)[j])),
{
    lemma_kept_entries(entries_of(answers), block_ids(blocks));
}

} // verus!
