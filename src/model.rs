//! The records that the application stores.

use vstd::prelude::*;
use vstd::string::*;
use crate::json::{Json, JsonNumber, entries_of, str_of, bool_of, int_of, parse_json, parsed_json};
use crate::blocks::block_list;
use crate::visibility::{parse_blocks, stored_blocks};

verus! {

/// An invitation block: the kind of question and its content.
pub struct InvitationBlock {
    pub template: String,
    pub content: String,
}

/// A party. Its blocks are stored as JSON text.
pub struct Party {
    pub id: String,
    pub name: String,
    pub author: String,
    pub invitation_blocks: String,
    pub date: String,
    pub respond_until: String,
    pub frozen: bool,
    pub public: bool,
    pub max_guests: i64,
    pub has_rsvp_block: bool,
}

/// A guest's invitation to a party. The answers are stored as JSON text.
pub struct Invitation {
    pub id: String,
    pub guest_id: String,
    pub party_id: String,
    pub invitation_block_answers: String,
    pub organizer: bool,
}

/// A guest, owned by one author.
pub struct Guest {
    pub id: String,
    pub salutation: String,
    pub first: String,
    pub last: String,
    pub email: String,
    pub note: String,
    pub author: String,
}

/// An author, who signs in with a secret.
pub struct Author {
    pub id: String,
    pub name: String,
    pub author_secret: String,
}

/// The keys of a device's web push subscription.
pub struct WebPushSubscriptionOptions {
    pub endpoint: String,
    pub p256dh: String,
    pub auth: String,
}

/// A request to link a guest with a device already subscribed.
pub struct AssociateGuestRequest {
    pub endpoint: String,
}

/// Entry `i` has key `key` and a string value `value`.
pub open spec fn text_entry(e: Seq<(String, Json)>, i: int, key: Seq<char>, value: Seq<char>) -> bool {
    e[i].0@ == key && str_of(Some(e[i].1)) == Some(value)
}

/// Entry `i` has key `key` and a boolean value `value`.
pub open spec fn bool_entry(e: Seq<(String, Json)>, i: int, key: Seq<char>, value: bool) -> bool {
    e[i].0@ == key && bool_of(Some(e[i].1)) == Some(value)
}

/// Entry `i` has key `key` and the integer value `value`.
pub open spec fn int_entry(e: Seq<(String, Json)>, i: int, key: Seq<char>, value: i64) -> bool {
    e[i].0@ == key && int_of(Some(e[i].1)) == Some(value)
}

fn text_pair(key: &str, value: &String) -> (r: (String, Json))
    ensures
        r.0@ == key@,
        str_of(Some(r.1)) == Some(value@),
{
    (String::from_str(key), Json::Str(value.clone()))
}

fn bool_pair(key: &str, value: bool) -> (r: (String, Json))
    ensures
        r.0@ == key@,
        bool_of(Some(r.1)) == Some(value),
{
    (String::from_str(key), Json::Bool(value))
}

impl Party {
    /// The party's blocks, parsed; an empty list where the stored text is not
    /// valid JSON.
    pub fn get_invitation_blocks_json(&self) -> (r: Json)
        ensures
            block_list(r) == stored_blocks(self.invitation_blocks@),
    {
        parse_blocks(self.invitation_blocks.as_str())
    }

    /// The party's summary for listings.
    pub fn to_summary_json(&self) -> (r: Json)
        ensures
            r is Object,
            entries_of(r).len() == 8,
            text_entry(entries_of(r), 0, "id"@, self.id@),
            text_entry(entries_of(r), 1, "name"@, self.name@),
            text_entry(entries_of(r), 2, "date"@, self.date@),
            text_entry(entries_of(r), 3, "respond_until"@, self.respond_until@),
            bool_entry(entries_of(r), 4, "frozen"@, self.frozen),
            bool_entry(entries_of(r), 5, "public"@, self.public),
            int_entry(entries_of(r), 6, "max_guests"@, self.max_guests),
            bool_entry(entries_of(r), 7, "has_rsvp_block"@, self.has_rsvp_block),
    {
        let mut e: Vec<(String, Json)> = Vec::new();
        e.push(text_pair("id", &self.id));
        e.push(text_pair("name", &self.name));
        e.push(text_pair("date", &self.date));
        e.push(text_pair("respond_until", &self.respond_until));
        e.push(bool_pair("frozen", self.frozen));
        e.push(bool_pair("public", self.public));
        e.push((String::from_str("max_guests"), Json::Number(JsonNumber::Int(self.max_guests))));
        e.push(bool_pair("has_rsvp_block", self.has_rsvp_block));
        Json::Object(e)
    }
}

impl Invitation {
    /// The invitation's answers, parsed; an empty object where the stored
    /// text is not valid JSON.
    pub fn get_answers_json(&self) -> (r: Json)
        ensures
            parsed_json(self.invitation_block_answers@) is Some ==> Some(r) == parsed_json(self.invitation_block_answers@),
            parsed_json(self.invitation_block_answers@) is None ==> r is Object && entries_of(r).len() == 0,
    {
        match parse_json(self.invitation_block_answers.as_str()) {
            Some(a) => a,
            None => {
                let empty: Vec<(String, Json)> = Vec::new();
                Json::Object(empty)
            },
        }
    }
}

impl Guest {
    /// The guest's record as shown to its author; the owning author is
    /// left out.
    pub fn to_json(&self) -> (r: Json)
        ensures
            r is Object,
            entries_of(r).len() == 6,
            text_entry(entries_of(r), 0, "id"@, self.id@),
            text_entry(entries_of(r), 1, "salutation"@, self.salutation@),
            text_entry(entries_of(r), 2, "first"@, self.first@),
            text_entry(entries_of(r), 3, "last"@, self.last@),
            text_entry(entries_of(r), 4, "email"@, self.email@),
            text_entry(entries_of(r), 5, "note"@, self.note@),
    {
        let mut e: Vec<(String, Json)> = Vec::new();
        e.push(text_pair("id", &self.id));
        e.push(text_pair("salutation", &self.salutation));
        e.push(text_pair("first", &self.first));
        e.push(text_pair("last", &self.last));
        e.push(text_pair("email", &self.email));
        e.push(text_pair("note", &self.note));
        Json::Object(e)
    }
}

} // verus!
