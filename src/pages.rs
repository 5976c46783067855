//! What a response says in each language, and the pages served.

use vstd::prelude::*;
use vstd::string::*;
use crate::text::text_eq;
use crate::answers::SaveRefusal;
use crate::registration::RegistrationRefusal;

verus! {

/// The file of a page in a language: German for "de", English otherwise.
pub open spec fn page_file(page: Seq<char>, language: Seq<char>) -> Seq<char> {
    if language == "de"@ {
        "pages/de/"@ + page + "_de.html"@
    } else {
        "pages/en/"@ + page + "_en.html"@
    }
}

/// The file of a page in a language (see `page_file`).
pub fn page_path(page: &str, language: &str) -> (r: String)
    ensures
        r@ == page_file(page@, language@),
{
    if text_eq(language, "de") {
        String::from_str("pages/de/").concat(page).concat("_de.html")
    } else {
        String::from_str("pages/en/").concat(page).concat("_en.html")
    }
}

/// What a refusal of answers says in a language.
pub open spec fn save_refusal_text(r: SaveRefusal, language: Seq<char>) -> Seq<char> {
    let de = language == "de"@;
    match r {
        SaveRefusal::Frozen => if de {
            "Diese Party ist eingefroren und akzeptiert keine Antworten mehr"@
        } else {
            "This party is frozen and no longer accepting responses"@
        },
        SaveRefusal::DeadlinePassed => if de {
            "Die Frist zum Antworten auf diese Einladung ist abgelaufen"@
        } else {
            "The deadline for responding to this invitation has passed"@
        },
        SaveRefusal::PartyFull => if de {
            "Diese Party hat die maximale Anzahl an Gästen erreicht"@
        } else {
            "This party has reached its maximum number of guests"@
        },
    }
}

/// What a refusal of answers says in a language (see `save_refusal_text`).
pub fn save_refusal_message(r: SaveRefusal, language: &str) -> (m: &'static str)
    ensures
        m@ == save_refusal_text(r, language@),
{
    let de = text_eq(language, "de");
    match r {
        SaveRefusal::Frozen => if de {
            "Diese Party ist eingefroren und akzeptiert keine Antworten mehr"
        } else {
            "This party is frozen and no longer accepting responses"
        },
        SaveRefusal::DeadlinePassed => if de {
            "Die Frist zum Antworten auf diese Einladung ist abgelaufen"
        } else {
            "The deadline for responding to this invitation has passed"
        },
        SaveRefusal::PartyFull => if de {
            "Diese Party hat die maximale Anzahl an Gästen erreicht"
        } else {
            "This party has reached its maximum number of guests"
        },
    }
}

/// What a refusal of a registration says in a language.
pub open spec fn registration_refusal_text(r: RegistrationRefusal, language: Seq<char>) -> Seq<char> {
    let de = language == "de"@;
    match r {
        RegistrationRefusal::NotPublic => if de {
            "Diese Party ist nicht öffentlich"@
        } else {
            "This party is not public"@
        },
        RegistrationRefusal::PartyFull => if de {
            "Diese Party hat die maximale Anzahl an Gästen erreicht"@
        } else {
            "This party has reached its maximum number of guests"@
        },
    }
}

/// What a refusal of a registration says in a language (see
/// `registration_refusal_text`).
pub fn registration_refusal_message(r: RegistrationRefusal, language: &str) -> (m: &'static str)
    ensures
        m@ == registration_refusal_text(r, language@),
{
    let de = text_eq(language, "de");
    match r {
        RegistrationRefusal::NotPublic => if de {
            "Diese Party ist nicht öffentlich"
        } else {
            "This party is not public"
        },
        RegistrationRefusal::PartyFull => if de {
            "Diese Party hat die maximale Anzahl an Gästen erreicht"
        } else {
            "This party has reached its maximum number of guests"
        },
    }
}

/// What a missing party says in a language.
pub fn party_not_found_message(language: &str) -> (m: &'static str)
    ensures
        m@ == if language@ == "de"@ { "Party nicht gefunden"@ } else { "Party not found"@ },
{
    if text_eq(language, "de") { "Party nicht gefunden" } else { "Party not found" }
}

/// Whether the sign-in cookie is marked secure for a deployment mode (the
/// ENV setting): always, but in the "dev" mode.
pub fn cookie_is_secure(mode: Option<&str>) -> (r: bool)
    ensures
        r == !(mode matches Some(m) && m@ == "dev"@),
{
    match mode {
        Some(m) => !text_eq(m, "dev"),
        None => true,
    }
}

} // verus!
