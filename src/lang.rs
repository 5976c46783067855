//! Reading request headers and file names: the page language and the type of
//! a static file.

use vstd::prelude::*;
use vstd::string::*;
use crate::text::{text_eq, starts_with, trim, trimmed};

verus! {

/// The pieces of `s` between the separators `sep`, as `str::split` gives
/// them: one more piece than there are separators.
pub open spec fn split_on(s: Seq<char>, sep: char) -> Seq<Seq<char>>
    decreases s.len(),
{
    if s.len() == 0 {
        seq![Seq::empty()]
    } else {
        let prev = split_on(s.drop_last(), sep);
        if s.last() == sep {
            prev.push(Seq::empty())
        } else {
            prev.update(prev.len() - 1, prev.last().push(s.last()))
        }
    }
}

proof fn lemma_split_nonempty(s: Seq<char>, sep: char)
    ensures
        split_on(s, sep).len() >= 1,
    decreases s.len(),
{
    if s.len() > 0 {
        lemma_split_nonempty(s.drop_last(), sep);
    }
}

/// Whether a language tag of an Accept-Language header names German: the
/// part before any `;`, trimmed, begins with "de".
pub open spec fn tag_is_german(tag: Seq<char>) -> bool {
    let code = trimmed(split_on(tag, ';')[0]);
    "de"@.len() <= code.len() && code.subrange(0, 2) == "de"@
}

/// Whether one of the comma-separated tags of a header names German.
pub open spec fn names_german(h: Seq<char>) -> bool {
    exists|i: int| 0 <= i < split_on(h, ',').len() && tag_is_german(#[trigger] split_on(h, ',')[i])
}

/// The page language for an Accept-Language header: "de" where one of its
/// comma-separated tags names German, else "en", also where there is no
/// header.
pub open spec fn language_for(header: Option<Seq<char>>) -> Seq<char> {
    match header {
        Some(h) => if names_german(h) {
            "de"@
        } else {
            "en"@
        },
        None => "en"@,
    }
}

/// The text before the first `sep` of `s` (all of it where there is none).
pub fn before_first<'a>(s: &'a str, sep: char) -> (r: &'a str)
    ensures
        r@ == split_on(s@, sep)[0],
{
    let n = s.unicode_len();
    let mut i: usize = 0;
    assert(s@.subrange(0, 0) =~= Seq::<char>::empty());
    assert(split_on(Seq::<char>::empty(), sep) =~= seq![s@.subrange(0, 0)]);
    while i < n
        invariant
            n == s@.len(),
            i <= n,
            forall|k: int| 0 <= k < i ==> s@[k] != sep,
            split_on(s@.subrange(0, i as int), sep) == seq![s@.subrange(0, i as int)],
        decreases n - i,
    {
        if s.get_char(i) == sep {
            proof {
                lemma_split_prefix_head(s@, sep, i as int);
            }
            return s.substring_char(0, i);
        }
        proof {
            let next = s@.subrange(0, i + 1);
            assert(next.drop_last() =~= s@.subrange(0, i as int));
            assert(next =~= s@.subrange(0, i as int).push(s@[i as int]));
            assert(seq![s@.subrange(0, i as int)].update(0, s@.subrange(0, i as int).push(s@[i as int]))
                =~= seq![next]);
        }
        i = i + 1;
    }
    proof {
        assert(s@.subrange(0, n as int) =~= s@);
    }
    s
}

proof fn lemma_split_head_stable(s: Seq<char>, sep: char, j: int)
    requires
        0 <= j <= s.len(),
        split_on(s.subrange(0, j), sep).len() >= 2,
    ensures
        split_on(s, sep)[0] == split_on(s.subrange(0, j), sep)[0],
        split_on(s, sep).len() >= 2,
    decreases s.len() - j,
{
    if j < s.len() {
        let t = s.subrange(0, j + 1);
        assert(t.drop_last() =~= s.subrange(0, j));
        lemma_split_nonempty(s.subrange(0, j), sep);
        assert(split_on(t, sep)[0] == split_on(s.subrange(0, j), sep)[0]);
        lemma_split_head_stable(s, sep, j + 1);
        assert(s.subrange(0, j + 1) == t);
    } else {
        assert(s.subrange(0, j) =~= s);
    }
}

proof fn lemma_split_prefix_head(s: Seq<char>, sep: char, i: int)
    requires
        0 <= i < s.len(),
        s[i] == sep,
        split_on(s.subrange(0, i), sep) == seq![s.subrange(0, i)],
    ensures
        split_on(s, sep)[0] == s.subrange(0, i),
{
    let t = s.subrange(0, i + 1);
    assert(t.drop_last() =~= s.subrange(0, i));
    assert(t.last() == sep);
    lemma_split_head_stable(s, sep, i + 1);
}

/// Whether one tag of an Accept-Language header names German (see
/// `tag_is_german`).
pub fn is_german_tag(tag: &str) -> (r: bool)
    ensures
        r == tag_is_german(tag@),
{
    let code = trim(before_first(tag, ';'));
    proof {
        reveal_strlit("de");
    }
    starts_with(code, "de")
}

/// The page language for an Accept-Language header (see `language_for`).
pub fn detect_language(header: Option<&str>) -> (r: String)
    ensures
        r@ == language_for(match header { Some(h) => Some(h@), None => None }),
{
    match header {
        None => String::from_str("en"),
        Some(h) => {
            let n = h.unicode_len();
            let mut start: usize = 0;
            let mut i: usize = 0;
            let ghost mut parts: Seq<Seq<char>> = Seq::empty();
            assert(h@.subrange(0, 0) =~= Seq::<char>::empty());
            assert(split_on(Seq::<char>::empty(), ',') =~= parts.push(h@.subrange(0, 0)));
            while i < n
                invariant
                    n == h@.len(),
                    header == Some(h),
                    start <= i <= n,
                    split_on(h@.subrange(0, i as int), ',') == parts.push(h@.subrange(start as int, i as int)),
                    forall|k: int| 0 <= k < parts.len() ==> !tag_is_german(#[trigger] parts[k]),
                decreases n - i,
            {
                let ghost prefix = h@.subrange(0, i as int);
                let ghost next = h@.subrange(0, i + 1);
                proof {
                    assert(next.drop_last() =~= prefix);
                    assert(next.last() == h@[i as int]);
                }
                if h.get_char(i) == ',' {
                    let tag = h.substring_char(start, i);
                    if is_german_tag(tag) {
                        proof {
                            let k = parts.len() as int;
                            assert(split_on(next, ',')[k] == tag@);
                            lemma_split_prefix_parts(h@, i + 1, k);
                            assert(tag_is_german(split_on(h@, ',')[k]));
                            assert(0 <= k < split_on(h@, ',').len());
                            assert(names_german(h@));
                        }
                        return String::from_str("de");
                    }
                    proof {
                        parts = parts.push(h@.subrange(start as int, i as int));
                        assert(h@.subrange(i + 1, i + 1) =~= Seq::<char>::empty());
                    }
                    start = i + 1;
                } else {
                    proof {
                        assert(h@.subrange(start as int, i + 1) =~= h@.subrange(start as int, i as int).push(h@[i as int]));
                        assert(parts.push(h@.subrange(start as int, i as int)).update(parts.len() as int,
                            h@.subrange(start as int, i + 1)) =~= parts.push(h@.subrange(start as int, i + 1)));
                    }
                }
                i = i + 1;
            }
            proof {
                assert(h@.subrange(0, n as int) =~= h@);
            }
            let tag = h.substring_char(start, n);
            if is_german_tag(tag) {
                proof {
                    assert(split_on(h@, ',')[parts.len() as int] == tag@);
                    assert(tag_is_german(split_on(h@, ',')[parts.len() as int]));
                    assert(names_german(h@));
                }
                return String::from_str("de");
            }
            proof {
                assert forall|k: int| 0 <= k < split_on(h@, ',').len() implies !tag_is_german(#[trigger] split_on(h@, ',')[k]) by {
                    if k < parts.len() {
                        assert(split_on(h@, ',')[k] == parts[k]);
                    }
                }
            }
            String::from_str("en")
        },
    }
}

proof fn lemma_split_prefix_parts(s: Seq<char>, j: int, k: int)
    requires
        0 <= j <= s.len(),
        0 <= k < split_on(s.subrange(0, j), ',').len() - 1,
    ensures
        k < split_on(s, ',').len(),
        split_on(s, ',')[k] == split_on(s.subrange(0, j), ',')[k],
    decreases s.len() - j,
{
    if j < s.len() {
        let t = s.subrange(0, j + 1);
        assert(t.drop_last() =~= s.subrange(0, j));
        lemma_split_prefix_parts(s, j + 1, k);
    } else {
        assert(s.subrange(0, j) =~= s);
    }
}

/// The static files that may be served.
pub open spec fn servable(name: Seq<char>) -> bool {
    name == "auth.css"@
        || name == "calendar.svg"@
        || name == "chevrons-down.svg"@
        || name == "chevrons-up.svg"@
        || name == "chevron-down.svg"@
        || name == "chevron-up.svg"@
        || name == "clipboard.svg"@
        || name == "index.css"@
        || name == "index.js"@
        || name == "invitation.css"@
        || name == "invitation.js"@
        || name == "manage.css"@
        || name == "manage.js"@
        || name == "menu.svg"@
        || name == "plus.svg"@
        || name == "style.css"@
        || name == "trash-2.svg"@
        || name == "whyemptycat.png"@
        || name == "favicon.ico"@
        || name == "x.svg"@
        || name == "public_guest.js"@
}

/// Whether a static file may be served (see `servable`).
pub fn is_servable(name: &str) -> (r: bool)
    ensures
        r == servable(name@),
{
    text_eq(name, "auth.css")
        || text_eq(name, "calendar.svg")
        || text_eq(name, "chevrons-down.svg")
        || text_eq(name, "chevrons-up.svg")
        || text_eq(name, "chevron-down.svg")
        || text_eq(name, "chevron-up.svg")
        || text_eq(name, "clipboard.svg")
        || text_eq(name, "index.css")
        || text_eq(name, "index.js")
        || text_eq(name, "invitation.css")
        || text_eq(name, "invitation.js")
        || text_eq(name, "manage.css")
        || text_eq(name, "manage.js")
        || text_eq(name, "menu.svg")
        || text_eq(name, "plus.svg")
        || text_eq(name, "style.css")
        || text_eq(name, "trash-2.svg")
        || text_eq(name, "whyemptycat.png")
        || text_eq(name, "favicon.ico")
        || text_eq(name, "x.svg")
        || text_eq(name, "public_guest.js")
}

/// The content type served for a file extension.
pub open spec fn content_type(ext: Seq<char>) -> Seq<char> {
    if ext == "js"@ {
        "application/javascript"@
    } else if ext == "css"@ {
        "text/css"@
    } else if ext == "html"@ {
        "text/html"@
    } else if ext == "png"@ {
        "image/png"@
    } else if ext == "jpg"@ {
        "image/jpeg"@
    } else if ext == "jpeg"@ {
        "image/jpeg"@
    } else if ext == "svg"@ {
        "image/svg+xml"@
    } else if ext == "gif"@ {
        "image/gif"@
    } else if ext == "ico"@ {
        "image/x-icon"@
    } else if ext == "json"@ {
        "application/json"@
    } else if ext == "txt"@ {
        "text/plain"@
    } else {
        "application/octet-stream"@
    }
}

/// The content type served for a file extension (see `content_type`).
pub fn content_type_for(ext: &str) -> (r: &'static str)
    ensures
        r@ == content_type(ext@),
{
    if text_eq(ext, "js") {
        "application/javascript"
    } else if text_eq(ext, "css") {
        "text/css"
    } else if text_eq(ext, "html") {
        "text/html"
    } else if text_eq(ext, "png") {
        "image/png"
    } else if text_eq(ext, "jpg") {
        "image/jpeg"
    } else if text_eq(ext, "jpeg") {
        "image/jpeg"
    } else if text_eq(ext, "svg") {
        "image/svg+xml"
    } else if text_eq(ext, "gif") {
        "image/gif"
    } else if text_eq(ext, "ico") {
        "image/x-icon"
    } else if text_eq(ext, "json") {
        "application/json"
    } else if text_eq(ext, "txt") {
        "text/plain"
    } else {
        "application/octet-stream"
    }
}

/// The text after the last `sep` of `s` (all of it where there is none), as
/// the last piece of `str::split` gives it.
pub fn after_last<'a>(s: &'a str, sep: char) -> (r: &'a str)
    ensures
        r@ == split_on(s@, sep).last(),
{
    let n = s.unicode_len();
    let mut start: usize = 0;
    let mut i: usize = 0;
    assert(s@.subrange(0, 0) =~= Seq::<char>::empty());
    while i < n
        invariant
            n == s@.len(),
            start <= i <= n,
            split_on(s@.subrange(0, i as int), sep).last() == s@.subrange(start as int, i as int),
        decreases n - i,
    {
        proof {
            let next = s@.subrange(0, i + 1);
            assert(next.drop_last() =~= s@.subrange(0, i as int));
            assert(next.last() == s@[i as int]);
            lemma_split_nonempty(s@.subrange(0, i as int), sep);
        }
        if s.get_char(i) == sep {
            start = i + 1;
            assert(s@.subrange(start as int, i + 1) =~= Seq::<char>::empty());
        } else {
            assert(s@.subrange(start as int, i + 1) =~= s@.subrange(start as int, i as int).push(s@[i as int]));
        }
        i = i + 1;
    }
    assert(s@.subrange(0, n as int) =~= s@);
    s.substring_char(start, n)
}

/// The content type of a static file that may be served: by the extension
/// after its last dot. `None` for any other file.
pub open spec fn static_file_type(name: Seq<char>) -> Option<Seq<char>> {
    if servable(name) {
        Some(content_type(split_on(name, '.').last()))
    } else {
        None
    }
}

/// The content type of a static file, or `None` where it may not be served
/// (see `static_file_type`).
pub fn static_content_type(name: &str) -> (r: Option<&'static str>)
    ensures
        match r {
            Some(t) => static_file_type(name@) == Some(t@),
            None => static_file_type(name@) is None,
        },
{
    if !is_servable(name) {
        return None;
    }
    Some(content_type_for(after_last(name, '.')))
}

} // verus!
