//! The invitation blocks of a party: which ids exist, which are public, and
//! which one records attendance.

use vstd::prelude::*;
use crate::json::{Json, parse_json, parsed_json, field, str_of, bool_of};
use crate::text::{text_eq, opt_text};

verus! {

/// The block list of a party: its array's elements; none where the value is
/// not an array.
pub open spec fn block_list(blocks: Json) -> Seq<Json> {
    match blocks {
        Json::Array(v) => v@,
        _ => Seq::empty(),
    }
}

/// A block's id, where it is a string.
pub open spec fn block_id(b: Json) -> Option<Seq<char>> {
    str_of(field(b, "id"@))
}

/// Whether a block's template is the attendance template.
pub open spec fn is_attendance(b: Json) -> bool {
    str_of(field(b, "template"@)) == Some("attendance"@)
}

/// A block's visibility mark: the `public` field of the JSON object that its
/// content string holds, where there is one and it is a boolean.
pub open spec fn public_flag(b: Json) -> Option<bool> {
    match str_of(field(b, "content"@)) {
        Some(text) => match parsed_json(text) {
            Some(c) => bool_of(field(c, "public"@)),
            None => None,
        },
        None => None,
    }
}

/// Whether a block is marked public: its mark is `true`.
pub open spec fn content_public(b: Json) -> bool {
    public_flag(b) == Some(true)
}

/// Whether a block is marked not public: its mark is `false`.
pub open spec fn content_private(b: Json) -> bool {
    public_flag(b) == Some(false)
}

/// The ids of the blocks in the list.
pub open spec fn block_ids(bl: Seq<Json>) -> Set<Seq<char>> {
    Set::new(|id: Seq<char>| exists|i: int| 0 <= i < bl.len() && block_id(bl[i]) == Some(id))
}

/// The ids of the blocks in the list that are marked public.
pub open spec fn public_ids(bl: Seq<Json>) -> Set<Seq<char>> {
    Set::new(|id: Seq<char>| exists|i: int| 0 <= i < bl.len() && block_id(bl[i]) == Some(id) && content_public(bl[i]))
}

/// The id of the last attendance block that has an id.
pub open spec fn attendance_id(bl: Seq<Json>) -> Option<Seq<char>>
    decreases bl.len(),
{
    if bl.len() == 0 {
        None
    } else if is_attendance(bl.last()) && block_id(bl.last()) is Some {
        block_id(bl.last())
    } else {
        attendance_id(bl.drop_last())
    }
}

/// Whether the attendance block (the last one that has an id) is marked not
/// public.
pub open spec fn attendance_private(bl: Seq<Json>) -> bool
    decreases bl.len(),
{
    if bl.len() == 0 {
        false
    } else if is_attendance(bl.last()) && block_id(bl.last()) is Some {
        content_private(bl.last())
    } else {
        attendance_private(bl.drop_last())
    }
}

/// Whether viewers who are not organizers see answers to the attendance
/// block: the party has at least one public block, and the attendance block
/// is not marked not public.
pub open spec fn attendance_shown(bl: Seq<Json>) -> bool {
    !attendance_private(bl) && public_ids(bl) != Set::<Seq<char>>::empty()
}

/// The id of the first attendance block that has an id.
pub open spec fn first_attendance_id(bl: Seq<Json>) -> Option<Seq<char>>
    decreases bl.len(),
{
    if bl.len() == 0 {
        None
    } else if is_attendance(bl[0]) && block_id(bl[0]) is Some {
        block_id(bl[0])
    } else {
        first_attendance_id(bl.drop_first())
    }
}

/// How many blocks use the attendance template.
pub open spec fn attendance_count(bl: Seq<Json>) -> nat
    decreases bl.len(),
{
    if bl.len() == 0 {
        0
    } else {
        attendance_count(bl.drop_last()) + if is_attendance(bl.last()) { 1nat } else { 0nat }
    }
}

/// The views of a list of strings, as a set.
pub open spec fn text_set(v: Seq<String>) -> Set<Seq<char>> {
    Set::new(|s: Seq<char>| exists|k: int| 0 <= k < v.len() && v[k]@ == s)
}

/// What the rules need to know of a party's blocks.
pub struct BlockIndex {
    /// The ids of all blocks.
    pub ids: Vec<String>,
    /// The ids of the blocks marked public.
    pub public_ids: Vec<String>,
    /// The id of the attendance block, if there is one.
    pub attendance_id: Option<String>,
    /// Whether the attendance block is marked not public.
    pub attendance_private: bool,
}

impl BlockIndex {
    /// Whether this index describes the block list `bl`.
    pub open spec fn describes(&self, bl: Seq<Json>) -> bool {
        &&& text_set(self.ids@) == block_ids(bl)
        &&& text_set(self.public_ids@) == public_ids(bl)
        &&& opt_text(self.attendance_id) == attendance_id(bl)
        &&& self.attendance_private == attendance_private(bl)
    }

    /// Whether viewers who are not organizers see answers to the attendance
    /// block (see `attendance_shown`).
    pub open spec fn shows_attendance(&self) -> bool {
        !self.attendance_private && self.public_ids@.len() > 0
    }
}

proof fn lemma_text_set_push(v: Seq<String>, x: Seq<char>)
    ensures
        forall|y: String| y@ == x ==> #[trigger] text_set(v.push(y)) == text_set(v).insert(x),
{
    assert forall|y: String| y@ == x implies #[trigger] text_set(v.push(y)) == text_set(v).insert(x) by {
        assert forall|s: Seq<char>| text_set(v.push(y)).contains(s) == text_set(v).insert(x).contains(s) by {
            if text_set(v).contains(s) {
                let k = choose|k: int| 0 <= k < v.len() && v[k]@ == s;
                assert(v.push(y)[k] == v[k]);
            }
            if s == x {
                assert(v.push(y)[v.len() as int] == y);
            }
            if text_set(v.push(y)).contains(s) {
                let k = choose|k: int| 0 <= k < v.push(y).len() && v.push(y)[k]@ == s;
                if k < v.len() {
                    assert(v.push(y)[k] == v[k]);
                }
            }
        }
        assert(text_set(v.push(y)) =~= text_set(v).insert(x));
    }
}

proof fn lemma_block_sets_step(pre: Seq<Json>, b: Json)
    ensures
        block_ids(pre.push(b)) == match block_id(b) {
            Some(x) => block_ids(pre).insert(x),
            None => block_ids(pre),
        },
        public_ids(pre.push(b)) == match block_id(b) {
            Some(x) => if content_public(b) { public_ids(pre).insert(x) } else { public_ids(pre) },
            None => public_ids(pre),
        },
{
    let next = pre.push(b);
    assert forall|j: int| 0 <= j < pre.len() implies next[j] == pre[j] by {}
    assert(next[pre.len() as int] == b);
    let ids2 = match block_id(b) {
        Some(x) => block_ids(pre).insert(x),
        None => block_ids(pre),
    };
    assert forall|s: Seq<char>| block_ids(next).contains(s) == ids2.contains(s) by {
        if block_ids(next).contains(s) {
            let j = choose|j: int| 0 <= j < next.len() && block_id(next[j]) == Some(s);
            if j < pre.len() {
                assert(block_ids(pre).contains(s));
            }
        }
        if block_ids(pre).contains(s) {
            let j = choose|j: int| 0 <= j < pre.len() && block_id(pre[j]) == Some(s);
            assert(next[j] == pre[j]);
        }
    }
    assert(block_ids(next) =~= ids2);
    let pub2 = match block_id(b) {
        Some(x) => if content_public(b) { public_ids(pre).insert(x) } else { public_ids(pre) },
        None => public_ids(pre),
    };
    assert forall|s: Seq<char>| public_ids(next).contains(s) == pub2.contains(s) by {
        if public_ids(next).contains(s) {
            let j = choose|j: int| 0 <= j < next.len() && block_id(next[j]) == Some(s) && content_public(next[j]);
            if j < pre.len() {
                assert(public_ids(pre).contains(s));
            }
        }
        if public_ids(pre).contains(s) {
            let j = choose|j: int| 0 <= j < pre.len() && block_id(pre[j]) == Some(s) && content_public(pre[j]);
            assert(next[j] == pre[j]);
        }
    }
    assert(public_ids(next) =~= pub2);
}

/// Whether the text is the attendance template's name.
fn is_attendance_template(t: &str) -> (r: bool)
    ensures
        r == (t@ == "attendance"@),
{
    text_eq(t, "attendance")
}

/// A block's visibility mark (see `public_flag`).
pub fn block_public_flag(b: &Json) -> (r: Option<bool>)
    ensures
        r == public_flag(*b),
{
    match b.get("content") {
        Some(c) => match c.as_str() {
            Some(text) => match parse_json(text) {
                Some(parsed) => match parsed.get("public") {
                    Some(p) => p.as_bool(),
                    None => None,
                },
                None => None,
            },
            None => None,
        },
        None => None,
    }
}

/// Whether a block is marked public (see `content_public`).
pub fn block_is_public(b: &Json) -> (r: bool)
    ensures
        r == content_public(*b),
{
    block_public_flag(b) == Some(true)
}

pub proof fn lemma_text_set_empty(v: Seq<String>)
    ensures
        (text_set(v) == Set::<Seq<char>>::empty()) == (v.len() == 0),
{
    if v.len() > 0 {
        assert(text_set(v).contains(v[0]@));
    } else {
        assert(text_set(v) =~= Set::<Seq<char>>::empty());
    }
}

/// Whether an index that describes `bl` shows the attendance answers
/// exactly where `attendance_shown` says so.
pub proof fn lemma_shows_attendance(index: BlockIndex, bl: Seq<Json>)
    requires
        index.describes(bl),
    ensures
        index.shows_attendance() == attendance_shown(bl),
{
    lemma_text_set_empty(index.public_ids@);
}

/// Indexes a party's parsed block list.
pub fn index_blocks(blocks: &Json) -> (r: BlockIndex)
    ensures
        r.describes(block_list(*blocks)),
{
    let mut ids: Vec<String> = Vec::new();
    let mut public: Vec<String> = Vec::new();
    let mut attendance: Option<String> = None;
    let mut attendance_hidden = false;
    if let Json::Array(items) = blocks {
        let ghost bl = items@;
        let mut i: usize = 0;
        while i < items.len()
            invariant
                bl == items@,
                i <= bl.len(),
                text_set(ids@) == block_ids(bl.subrange(0, i as int)),
                text_set(public@) == public_ids(bl.subrange(0, i as int)),
                opt_text(attendance) == attendance_id(bl.subrange(0, i as int)),
                attendance_hidden == attendance_private(bl.subrange(0, i as int)),
            decreases bl.len() - i,
        {
            let b = &items[i];
            let ghost pre = bl.subrange(0, i as int);
            let ghost next = bl.subrange(0, i + 1);
            proof {
                assert(next.drop_last() =~= pre);
                assert(next.last() == *b);
            }
            let id_opt: Option<&str> = match b.get("id") {
                Some(v) => v.as_str(),
                None => None,
            };
            proof {
                lemma_block_sets_step(pre, *b);
                assert(next =~= pre.push(*b));
            }
            if let Some(id) = id_opt {
                proof {
                    lemma_text_set_push(ids@, id@);
                    lemma_text_set_push(public@, id@);
                }
                ids.push(id.to_string());
                let flag = block_public_flag(b);
                if flag == Some(true) {
                    public.push(id.to_string());
                }
                if let Some(t) = b.get("template") {
                    if let Some(tt) = t.as_str() {
                        if is_attendance_template(tt) {
                            attendance = Some(id.to_string());
                            attendance_hidden = flag == Some(false);
                        }
                    }
                }
            }
            i = i + 1;
        }
        proof {
            assert(bl.subrange(0, bl.len() as int) =~= bl);
        }
    } else {
        proof {
            assert(text_set(ids@) =~= block_ids(Seq::empty()));
            assert(text_set(public@) =~= public_ids(Seq::empty()));
        }
    }
    BlockIndex { ids, public_ids: public, attendance_id: attendance, attendance_private: attendance_hidden }
}

/// The id of the first attendance block that has an id (see
/// `first_attendance_id`).
pub fn find_first_attendance(blocks: &Json) -> (r: Option<String>)
    ensures
        opt_text(r) == first_attendance_id(block_list(*blocks)),
{
    if let Json::Array(items) = blocks {
        let ghost bl = items@;
        let mut i: usize = 0;
        assert(bl.subrange(0, bl.len() as int) =~= bl);
        while i < items.len()
            invariant
                bl == items@,
                bl == block_list(*blocks),
                i <= bl.len(),
                first_attendance_id(bl) == first_attendance_id(bl.subrange(i as int, bl.len() as int)),
            decreases bl.len() - i,
        {
            proof {
                let rest = bl.subrange(i as int, bl.len() as int);
                assert(rest.drop_first() =~= bl.subrange(i + 1, bl.len() as int));
                assert(rest[0] == bl[i as int]);
            }
            let b = &items[i];
            if let Some(t) = b.get("template") {
                if let Some(tt) = t.as_str() {
                    if is_attendance_template(tt) {
                        if let Some(id_value) = b.get("id") {
                            if let Some(id) = id_value.as_str() {
                                let r = id.to_string();
                                assert(r@ == id@);
                                return Some(r);
                            }
                        }
                    }
                }
            }
            i = i + 1;
        }
        None
    } else {
        None
    }
}

/// Why a new block list is refused.
#[derive(Clone, Copy, PartialEq, Eq, Structural, Debug)]
pub enum BlocksError {
    /// The text is not a JSON array.
    InvalidJson,
    /// More than one block uses the attendance template.
    MultipleAttendance,
}

/// What a new block list text gives: refused where it is not a JSON array
/// or holds more than one attendance block; otherwise whether it holds an
/// attendance block.
pub open spec fn blocks_verdict(text: Seq<char>) -> Result<bool, BlocksError> {
    match parsed_json(text) {
        Some(Json::Array(v)) => if attendance_count(v@) > 1 {
            Err(BlocksError::MultipleAttendance)
        } else {
            Ok(attendance_count(v@) == 1)
        },
        _ => Err(BlocksError::InvalidJson),
    }
}

/// Counts the blocks that use the attendance template.
pub fn count_attendance(items: &Vec<Json>) -> (r: usize)
    ensures
        r == attendance_count(items@),
{
    let mut count: usize = 0;
    let mut i: usize = 0;
    while i < items.len()
        invariant
            i <= items@.len(),
            count <= i,
            count == attendance_count(items@.subrange(0, i as int)),
        decreases items@.len() - i,
    {
        proof {
            let next = items@.subrange(0, i + 1);
            assert(next.drop_last() =~= items@.subrange(0, i as int));
            assert(next.last() == items@[i as int]);
        }
        let is_att = match items[i].get("template") {
            Some(t) => match t.as_str() {
                Some(tt) => is_attendance_template(tt),
                None => false,
            },
            None => false,
        };
        if is_att {
            count = count + 1;
        }
        i = i + 1;
    }
    proof {
        assert(items@.subrange(0, items@.len() as int) =~= items@);
    }
    count
}

/// Checks a new block list text (see `blocks_verdict`); gives whether the
/// party then has an attendance block.
pub fn check_blocks(text: &str) -> (r: Result<bool, BlocksError>)
    ensures
        r == blocks_verdict(text@),
{
    match parse_json(text) {
        Some(Json::Array(items)) => {
            let n = count_attendance(&items);
            if n > 1 {
                Err(BlocksError::MultipleAttendance)
            } else {
                Ok(n == 1)
            }
        },
        _ => Err(BlocksError::InvalidJson),
    }
}

} // verus!
