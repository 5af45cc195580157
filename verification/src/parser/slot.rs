//! The slot grammar: a case-insensitive exact match against the terms of
//! the inventory screen and the terms of the item data.

use vstd::prelude::*;
use crate::relic::{Slot, SLOT_COUNT};
use crate::text::{ascii_lowercase_char, is_ascii_text, lowercase, spells, str_chars};

verus! {

/// The slot that a lowercase term names, in either vocabulary.
pub open spec fn slot_for_key(key: Seq<char>) -> Option<Slot> {
    if key == "body"@ {
        Some(Slot::BODY)
    } else if key == "head"@ {
        Some(Slot::HEAD)
    } else if key == "hands"@ {
        Some(Slot::HANDS)
    } else if key == "feet"@ {
        Some(Slot::FEET)
    } else if key == "link rope"@ {
        Some(Slot::ROPE)
    } else if key == "planar sphere"@ {
        Some(Slot::SPHERE)
    } else if key == "neck"@ {
        Some(Slot::SPHERE)
    } else if key == "object"@ {
        Some(Slot::ROPE)
    } else if key == "hand"@ {
        Some(Slot::HANDS)
    } else if key == "foot"@ {
        Some(Slot::FEET)
    } else {
        None
    }
}

/// The slot that a text names: the slot of its lowercase form.
pub open spec fn slot_of_text(text: Seq<char>) -> Option<Slot> {
    slot_for_key(lowercase(text))
}

fn slot_for_chars(key: &Vec<char>) -> (slot: Option<Slot>)
    ensures
        slot == slot_for_key(key@),
{
    if spells(key, "body") {
        Some(Slot::BODY)
    } else if spells(key, "head") {
        Some(Slot::HEAD)
    } else if spells(key, "hands") {
        Some(Slot::HANDS)
    } else if spells(key, "feet") {
        Some(Slot::FEET)
    } else if spells(key, "link rope") {
        Some(Slot::ROPE)
    } else if spells(key, "planar sphere") {
        Some(Slot::SPHERE)
    } else if spells(key, "neck") {
        Some(Slot::SPHERE)
    } else if spells(key, "object") {
        Some(Slot::ROPE)
    } else if spells(key, "hand") {
        Some(Slot::HANDS)
    } else if spells(key, "foot") {
        Some(Slot::FEET)
    } else {
        None
    }
}

/// Looks a term up that is already in lowercase.
pub fn slot_from_key(key: &str) -> (slot: Option<Slot>)
    ensures
        slot == slot_for_key(key@),
{
    let chars = str_chars(key);
    slot_for_chars(&chars)
}

/// Reads a slot name, ignoring case. Absent where the text is no slot term.
pub fn parse_slot(s: &str) -> (slot: Option<Slot>)
    ensures
        slot == slot_of_text(s@),
{
    let lower = s.to_lowercase();
    let key = str_chars(lower.as_str());
    slot_for_chars(&key)
}

/// Tells the ten terms apart: their lengths, and the first two characters
/// of those that have four.
proof fn lemma_terms_differ()
    ensures
        "body"@.len() == 4 && "body"@[0] == 'b',
        "head"@.len() == 4 && "head"@[0] == 'h' && "head"@[1] == 'e',
        "feet"@.len() == 4 && "feet"@[0] == 'f' && "feet"@[1] == 'e',
        "neck"@.len() == 4 && "neck"@[0] == 'n',
        "hand"@.len() == 4 && "hand"@[0] == 'h' && "hand"@[1] == 'a',
        "foot"@.len() == 4 && "foot"@[0] == 'f' && "foot"@[1] == 'o',
        "hands"@.len() == 5,
        "object"@.len() == 6,
        "link rope"@.len() == 9,
        "planar sphere"@.len() == 13,
{
    reveal_strlit("body");
    reveal_strlit("head");
    reveal_strlit("hands");
    reveal_strlit("feet");
    reveal_strlit("link rope");
    reveal_strlit("planar sphere");
    reveal_strlit("neck");
    reveal_strlit("object");
    reveal_strlit("hand");
    reveal_strlit("foot");
}

/// The terms of the inventory screen name the six slots.
pub proof fn lemma_screen_vocabulary()
    ensures
        slot_for_key("body"@) == Some(Slot::BODY),
        slot_for_key("head"@) == Some(Slot::HEAD),
        slot_for_key("hands"@) == Some(Slot::HANDS),
        slot_for_key("feet"@) == Some(Slot::FEET),
        slot_for_key("link rope"@) == Some(Slot::ROPE),
        slot_for_key("planar sphere"@) == Some(Slot::SPHERE),
{
    lemma_terms_differ();
}

/// The terms of the item data name slots too; `head` and `body` are shared
/// with the screen.
pub proof fn lemma_data_vocabulary()
    ensures
        slot_for_key("neck"@) == Some(Slot::SPHERE),
        slot_for_key("object"@) == Some(Slot::ROPE),
        slot_for_key("hand"@) == Some(Slot::HANDS),
        slot_for_key("foot"@) == Some(Slot::FEET),
{
    lemma_terms_differ();
}

/// The terms as the screen and the item data write them name the same six
/// slots: a name filed under a term of the data is found under the term of
/// the screen.
pub proof fn lemma_written_terms_agree()
    ensures
        slot_of_text("BODY"@) == Some(Slot::BODY) && slot_of_text("Body"@) == Some(Slot::BODY),
        slot_of_text("HEAD"@) == Some(Slot::HEAD) && slot_of_text("Head"@) == Some(Slot::HEAD),
        slot_of_text("HAND"@) == Some(Slot::HANDS) && slot_of_text("Hands"@) == Some(Slot::HANDS),
        slot_of_text("FOOT"@) == Some(Slot::FEET) && slot_of_text("Feet"@) == Some(Slot::FEET),
        slot_of_text("OBJECT"@) == Some(Slot::ROPE) && slot_of_text("Link Rope"@) == Some(
            Slot::ROPE,
        ),
        slot_of_text("NECK"@) == Some(Slot::SPHERE) && slot_of_text("Planar Sphere"@) == Some(
            Slot::SPHERE,
        ),
{
    lemma_screen_vocabulary();
    lemma_data_vocabulary();
    assert(lowercase("BODY"@) == "body"@) by {
        reveal_strlit("BODY");
        reveal_strlit("body");
        lemma_lowercase_of("BODY"@, "body"@);
    }
    assert(lowercase("Body"@) == "body"@) by {
        reveal_strlit("Body");
        reveal_strlit("body");
        lemma_lowercase_of("Body"@, "body"@);
    }
    assert(lowercase("HEAD"@) == "head"@) by {
        reveal_strlit("HEAD");
        reveal_strlit("head");
        lemma_lowercase_of("HEAD"@, "head"@);
    }
    assert(lowercase("Head"@) == "head"@) by {
        reveal_strlit("Head");
        reveal_strlit("head");
        lemma_lowercase_of("Head"@, "head"@);
    }
    assert(lowercase("HAND"@) == "hand"@) by {
        reveal_strlit("HAND");
        reveal_strlit("hand");
        lemma_lowercase_of("HAND"@, "hand"@);
    }
    assert(lowercase("Hands"@) == "hands"@) by {
        reveal_strlit("Hands");
        reveal_strlit("hands");
        lemma_lowercase_of("Hands"@, "hands"@);
    }
    assert(lowercase("FOOT"@) == "foot"@) by {
        reveal_strlit("FOOT");
        reveal_strlit("foot");
        lemma_lowercase_of("FOOT"@, "foot"@);
    }
    assert(lowercase("Feet"@) == "feet"@) by {
        reveal_strlit("Feet");
        reveal_strlit("feet");
        lemma_lowercase_of("Feet"@, "feet"@);
    }
    assert(lowercase("OBJECT"@) == "object"@) by {
        reveal_strlit("OBJECT");
        reveal_strlit("object");
        lemma_lowercase_of("OBJECT"@, "object"@);
    }
    assert(lowercase("Link Rope"@) == "link rope"@) by {
        reveal_strlit("Link Rope");
        reveal_strlit("link rope");
        lemma_lowercase_of("Link Rope"@, "link rope"@);
    }
    assert(lowercase("NECK"@) == "neck"@) by {
        reveal_strlit("NECK");
        reveal_strlit("neck");
        lemma_lowercase_of("NECK"@, "neck"@);
    }
    assert(lowercase("Planar Sphere"@) == "planar sphere"@) by {
        reveal_strlit("Planar Sphere");
        reveal_strlit("planar sphere");
        lemma_lowercase_of("Planar Sphere"@, "planar sphere"@);
    }
}

/// An ASCII text whose characters, put in lowercase one by one, are those of
/// `lower` has `lower` as its lowercase form.
pub proof fn lemma_lowercase_of(text: Seq<char>, lower: Seq<char>)
    requires
        is_ascii_text(text),
        text.len() == lower.len(),
        forall|i: int| 0 <= i < text.len() ==> ascii_lowercase_char(#[trigger] text[i]) == lower[i],
    ensures
        lowercase(text) == lower,
{
    assert(lowercase(text) =~= lower);
}

/// Whatever text names a slot, the slot's ordinal is a column of the name
/// table and leads back to the same slot.
pub proof fn lemma_parsed_slot_round_trips(text: Seq<char>)
    requires
        slot_of_text(text) is Some,
    ensures
        slot_of_text(text)->0.ordinal() < SLOT_COUNT,
        Slot::at_ordinal(slot_of_text(text)->0.ordinal()) == slot_of_text(text),
{
}

} // verus!
