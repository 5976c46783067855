//! The texts of notifications, and the small decisions around sending them.

use vstd::prelude::*;
use vstd::string::*;
use vstd::utf8::{encode_utf8, is_char_boundary, encode_utf8_valid_utf8, is_char_boundary_start_end_of_seq};
use vstd::multiset::Multiset;
use crate::text::{text_eq, trim, trimmed, full_name};
use crate::lang::{split_on, before_first};
use crate::json::{Json, entries_of, str_of};

verus! {

/// The most bytes of a change note that go out in a notification.
pub const NOTE_LIMIT: usize = 2000;

/// The part of a change note that goes out: the note trimmed, cut to the
/// longest prefix of at most `NOTE_LIMIT` bytes that ends between two
/// characters. `None` where nothing is left after trimming.
pub fn change_note_excerpt(note: &str) -> (r: Option<&str>)
    ensures
        trimmed(note@).len() == 0 ==> r is None,
        trimmed(note@).len() > 0 ==> (r matches Some(x) && ({
            let b = encode_utf8(trimmed(note@));
            let n = x.spec_bytes().len();
            &&& n <= NOTE_LIMIT
            &&& x.spec_bytes() == b.subrange(0, n as int)
            &&& is_char_boundary(b, n as int)
            &&& forall|k: int| n < k <= b.len() && k <= NOTE_LIMIT ==> !is_char_boundary(b, k)
            &&& b.len() <= NOTE_LIMIT ==> x@ == trimmed(note@)
        })),
{
    let t = trim(note);
    if t.unicode_len() == 0 {
        return None;
    }
    proof {
        encode_utf8_valid_utf8(t@);
        is_char_boundary_start_end_of_seq(t.spec_bytes());
    }
    let total = t.as_bytes().len();
    if total <= NOTE_LIMIT {
        return Some(t);
    }
    let mut k: usize = NOTE_LIMIT;
    while k > 0 && !t.is_char_boundary(k)
        invariant
            k <= NOTE_LIMIT < total,
            total == t.spec_bytes().len(),
            is_char_boundary(t.spec_bytes(), 0),
            forall|j: int| k < j <= NOTE_LIMIT ==> !is_char_boundary(t.spec_bytes(), j),
        decreases k,
    {
        k = k - 1;
    }
    let head = t.split_at(k).0;
    Some(head)
}

/// The push notice sent when a party changes.
pub fn update_notice(party_name: &str, excerpt: &str) -> (r: String)
    ensures
        r@ == "Update regarding "@ + party_name@ + ": "@ + excerpt@,
{
    String::from_str("Update regarding ").concat(party_name).concat(": ").concat(excerpt)
}

/// The subject of the email sent when a party changes.
pub fn update_subject(party_name: &str) -> (r: String)
    ensures
        r@ == "Party Update: "@ + party_name@,
{
    String::from_str("Party Update: ").concat(party_name)
}

/// The body of the email sent when a party changes: the note and the link
/// to the guest's invitation.
pub fn update_email_body(excerpt: &str, base_url: &str, invitation_id: &str) -> (r: String)
    ensures
        r@ == excerpt@ + "\n\nView your invitation at: "@ + base_url@ + "/"@ + invitation_id@,
{
    String::from_str(excerpt).concat("\n\nView your invitation at: ").concat(base_url).concat("/").concat(invitation_id)
}

/// The push notice sent to a guest newly invited.
pub fn invited_notice(party_name: &str) -> (r: String)
    ensures
        r@ == "You've been invited to "@ + party_name@ + "!"@,
{
    String::from_str("You've been invited to ").concat(party_name).concat("!")
}

/// The subject of the email sent to a guest newly invited.
pub fn invited_subject(party_name: &str) -> (r: String)
    ensures
        r@ == "You've been invited to "@ + party_name@,
{
    String::from_str("You've been invited to ").concat(party_name)
}

/// The body of the email sent to a guest newly invited.
pub fn invited_email_body(party_name: &str, base_url: &str, invitation_id: &str) -> (r: String)
    ensures
        r@ == "You've been invited to "@ + party_name@ + "!\n\nView your invitation at: "@ + base_url@ + "/"@
            + invitation_id@,
{
    String::from_str("You've been invited to ").concat(party_name).concat("!\n\nView your invitation at: ")
        .concat(base_url).concat("/").concat(invitation_id)
}

/// The address an email goes to: the guest's name and the address in angle
/// brackets.
pub fn recipient_address(first: &str, last: &str, email: &str) -> (r: String)
    ensures
        r@ == trimmed(first@ + " "@ + last@) + " <"@ + email@ + ">"@,
{
    full_name(first, last).concat(" <").concat(email).concat(">")
}

/// The domain of an email address: the piece after its first `@`, if there
/// is one.
pub open spec fn email_domain(address: Seq<char>) -> Option<Seq<char>> {
    if split_on(address, '@').len() >= 2 {
        Some(split_on(address, '@')[1])
    } else {
        None
    }
}

proof fn lemma_split_len(s: Seq<char>, sep: char)
    ensures
        split_on(s, sep).len() >= 1,
    decreases s.len(),
{
    if s.len() > 0 {
        lemma_split_len(s.drop_last(), sep);
    }
}

proof fn lemma_split_without_sep(s: Seq<char>, sep: char)
    requires
        forall|k: int| 0 <= k < s.len() ==> s[k] != sep,
    ensures
        split_on(s, sep) == seq![s],
    decreases s.len(),
{
    if s.len() == 0 {
        assert(s =~= Seq::<char>::empty());
        assert(split_on(s, sep) =~= seq![s]);
    } else {
        let p = s.drop_last();
        assert forall|k: int| 0 <= k < p.len() implies p[k] != sep by {
            assert(s[k] != sep);
        }
        lemma_split_without_sep(p, sep);
        assert(s.last() != sep);
        assert(p.push(s.last()) =~= s);
        assert(seq![p].update(0, p.push(s.last())) =~= seq![s]);
    }
}

proof fn lemma_split_after_sep(s: Seq<char>, sep: char, i: int)
    requires
        0 <= i < s.len(),
        s[i] == sep,
        forall|k: int| 0 <= k < i ==> s[k] != sep,
    ensures
        split_on(s, sep) == seq![s.subrange(0, i)] + split_on(s.subrange(i + 1, s.len() as int), sep),
    decreases s.len(),
{
    let rest = s.subrange(i + 1, s.len() as int);
    if s.len() == i + 1 {
        assert forall|k: int| 0 <= k < s.subrange(0, i).len() implies s.subrange(0, i)[k] != sep by {}
        lemma_split_without_sep(s.subrange(0, i), sep);
        assert(s.drop_last() =~= s.subrange(0, i));
        assert(rest =~= Seq::<char>::empty());
        assert(seq![s.subrange(0, i)].push(Seq::<char>::empty()) =~= seq![s.subrange(0, i)] + seq![Seq::<char>::empty()]);
    } else {
        lemma_split_after_sep(s.drop_last(), sep, i);
        assert(s.drop_last().subrange(0, i) =~= s.subrange(0, i));
        assert(s.drop_last().subrange(i + 1, s.len() - 1) =~= rest.drop_last());
        lemma_split_len(rest.drop_last(), sep);
        assert(rest.last() == s.last());
        let a = seq![s.subrange(0, i)];
        let b = split_on(rest.drop_last(), sep);
        if s.last() == sep {
            assert((a + b).push(Seq::<char>::empty()) =~= a + b.push(Seq::<char>::empty()));
        } else {
            assert((a + b).update((a + b).len() - 1, (a + b).last().push(s.last()))
                =~= a + b.update(b.len() - 1, b.last().push(s.last())));
        }
    }
}

/// The domain of an email address (see `email_domain`).
pub fn domain_of(address: &str) -> (r: Option<&str>)
    ensures
        match r {
            Some(d) => email_domain(address@) == Some(d@),
            None => email_domain(address@) is None,
        },
{
    let n = address.unicode_len();
    let mut i: usize = 0;
    while i < n
        invariant
            n == address@.len(),
            i <= n,
            forall|k: int| 0 <= k < i ==> address@[k] != '@',
        decreases n - i,
    {
        if address.get_char(i) == '@' {
            let rest = address.substring_char(i + 1, n);
            proof {
                lemma_split_after_sep(address@, '@', i as int);
                lemma_split_len(rest@, '@');
            }
            let d = before_first(rest, '@');
            return Some(d);
        }
        i = i + 1;
    }
    proof {
        lemma_split_without_sep(address@, '@');
    }
    None
}

/// The domain that a message id names for a sender address: the text after
/// the sender's first `@` up to any `>`, or "localhost" where the address
/// has no `@`.
pub open spec fn sender_domain(from: Seq<char>) -> Seq<char> {
    match email_domain(from) {
        Some(d) => split_on(d, '>')[0],
        None => "localhost"@,
    }
}

/// The unique id of a message sent directly: seconds since the epoch, a
/// unique token and the sender's domain.
pub fn message_id(seconds: &str, token: &str, from: &str) -> (r: String)
    ensures
        r@ == "<"@ + seconds@ + "."@ + token@ + "@"@ + sender_domain(from@) + ">"@,
{
    let domain = match domain_of(from) {
        Some(d) => before_first(d, '>'),
        None => "localhost",
    };
    String::from_str("<").concat(seconds).concat(".").concat(token).concat("@").concat(domain).concat(">")
}

/// How emails are sent.
#[derive(Clone, Copy, PartialEq, Eq, Structural, Debug)]
pub enum MailRoute {
    /// Through the configured SMTP provider.
    Client,
    /// Straight to each recipient's mail server.
    Direct,
}

/// How emails are sent for a MAIL_SENDTYPE setting: "client" and "direct"
/// choose; without either, the provider where it is configured, else
/// direct.
pub open spec fn mail_route_for(setting: Option<Seq<char>>, client_configured: bool) -> MailRoute {
    if setting == Some("client"@) {
        MailRoute::Client
    } else if setting == Some("direct"@) {
        MailRoute::Direct
    } else if client_configured {
        MailRoute::Client
    } else {
        MailRoute::Direct
    }
}

/// How emails are sent (see `mail_route_for`).
pub fn choose_mail_route(setting: Option<&str>, client_configured: bool) -> (r: MailRoute)
    ensures
        r == mail_route_for(match setting { Some(s) => Some(s@), None => None }, client_configured),
{
    if let Some(s) = setting {
        if text_eq(s, "client") {
            return MailRoute::Client;
        }
        if text_eq(s, "direct") {
            return MailRoute::Direct;
        }
    }
    if client_configured { MailRoute::Client } else { MailRoute::Direct }
}

/// `x` placed into `s` after every server whose preference is not above
/// its own, counted from the end.
pub open spec fn insert_by_preference(s: Seq<(u16, String)>, x: (u16, String)) -> Seq<(u16, String)>
    decreases s.len(),
{
    if s.len() == 0 {
        seq![x]
    } else if s.last().0 <= x.0 {
        s.push(x)
    } else {
        insert_by_preference(s.drop_last(), x).push(s.last())
    }
}

/// Servers ordered by preference; servers of equal preference keep their
/// order.
pub open spec fn by_preference(s: Seq<(u16, String)>) -> Seq<(u16, String)>
    decreases s.len(),
{
    if s.len() == 0 {
        Seq::empty()
    } else {
        insert_by_preference(by_preference(s.drop_last()), s.last())
    }
}

proof fn lemma_insert_at(s: Seq<(u16, String)>, x: (u16, String), k: int)
    requires
        0 <= k <= s.len(),
        forall|j: int| k <= j < s.len() ==> s[j].0 > x.0,
        k > 0 ==> s[k - 1].0 <= x.0,
    ensures
        insert_by_preference(s, x) == s.insert(k, x),
    decreases s.len(),
{
    if s.len() == 0 {
        assert(s.insert(k, x) =~= seq![x]);
    } else if k == s.len() {
        assert(s.insert(k, x) =~= s.push(x));
    } else {
        let p = s.drop_last();
        assert forall|j: int| k <= j < p.len() implies p[j].0 > x.0 by {
            assert(p[j] == s[j]);
        }
        if k > 0 {
            assert(p[k - 1] == s[k - 1]);
        }
        lemma_insert_at(p, x, k);
        assert(p.insert(k, x).push(s.last()) =~= s.insert(k, x));
    }
}

/// The mail servers of a domain, lowest preference first; servers of equal
/// preference keep their order.
pub fn sort_by_preference(records: Vec<(u16, String)>) -> (r: Vec<(u16, String)>)
    ensures
        r@ == by_preference(records@),
        r@.to_multiset() == records@.to_multiset(),
        forall|i: int, j: int| 0 <= i < j < r@.len() ==> r@[i].0 <= r@[j].0,
{
    broadcast use vstd::seq_lib::group_to_multiset_ensures;
    broadcast use vstd::multiset::group_multiset_axioms;
    let mut out: Vec<(u16, String)> = Vec::new();
    let mut rest = records;
    let ghost all = rest@;
    assert(out@.to_multiset() =~= Multiset::<(u16, String)>::empty());
    assert(out@.to_multiset().add(rest@.to_multiset()) =~= all.to_multiset());
    assert(all.subrange(0, 0) =~= Seq::<(u16, String)>::empty());
    while rest.len() > 0
        invariant
            rest@.len() <= all.len(),
            rest@ == all.subrange(all.len() - rest@.len(), all.len() as int),
            out@ == by_preference(all.subrange(0, all.len() - rest@.len())),
            out@.to_multiset().add(rest@.to_multiset()) == all.to_multiset(),
            forall|i: int, j: int| 0 <= i < j < out@.len() ==> out@[i].0 <= out@[j].0,
        decreases rest@.len(),
    {
        let ghost old_rest = rest@;
        let ghost old_out = out@;
        let ghost done = all.len() - rest@.len();
        let item = rest.remove(0);
        proof {
            assert(old_rest[0] == all[done]);
            assert(rest@ =~= all.subrange(all.len() - rest@.len(), all.len() as int));
            assert(all.subrange(0, done + 1).drop_last() =~= all.subrange(0, done));
            assert(all.subrange(0, done + 1).last() == all[done]);
        }
        let mut k: usize = out.len();
        while k > 0 && out[k - 1].0 > item.0
            invariant
                k <= out@.len(),
                out@ == old_out,
                forall|j: int| k <= j < out@.len() ==> out@[j].0 > item.0,
            decreases k,
        {
            k = k - 1;
        }
        proof {
            assert(k > 0 ==> out@[k - 1].0 <= item.0);
        }
        out.insert(k, item);
        proof {
            lemma_insert_at(old_out, item, k as int);
            vstd::seq_lib::to_multiset_remove(old_rest, 0);
            vstd::seq_lib::to_multiset_insert(old_out, k as int, item);
            assert(old_rest[0] == item);
            assert(old_rest.contains(item));
            vstd::seq_lib::to_multiset_contains(old_rest, item);
            assert(old_rest.to_multiset().count(item) > 0);
            assert(out@.to_multiset().add(rest@.to_multiset()) =~= all.to_multiset());
            assert forall|i: int, j: int| 0 <= i < j < out@.len() implies out@[i].0 <= out@[j].0 by {
                if j < k {
                } else if j == k {
                    if i < k {
                        assert(old_out[i].0 <= old_out[k - 1].0);
                    }
                } else if i < k {
                    assert(out@[j] == old_out[j - 1]);
                } else if i == k {
                    assert(out@[j] == old_out[j - 1]);
                } else {
                    assert(out@[j] == old_out[j - 1]);
                    assert(out@[i] == old_out[i - 1]);
                }
            }
        }
    }
    assert(rest@.to_multiset() =~= Multiset::<(u16, String)>::empty());
    assert(all.subrange(0, all.len() as int) =~= all);
    out
}

/// The payload of a push notification: the message and the path of the
/// guest's invitation.
pub fn push_payload(message: &str, invitation_id: &str) -> (r: Json)
    ensures
        r is Object,
        entries_of(r).len() == 2,
        entries_of(r)[0].0@ == "message"@,
        str_of(Some(entries_of(r)[0].1)) == Some(message@),
        entries_of(r)[1].0@ == "url"@,
        str_of(Some(entries_of(r)[1].1)) == Some("/"@ + invitation_id@),
{
    let mut e: Vec<(String, Json)> = Vec::new();
    e.push((String::from_str("message"), Json::Str(String::from_str(message))));
    e.push((String::from_str("url"), Json::Str(String::from_str("/").concat(invitation_id))));
    Json::Object(e)
}

} // verus!
