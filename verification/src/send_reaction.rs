//! Reaction normalization and validation for the send-reaction action.

use vstd::prelude::*;

use crate::text::{chars_eq_str, to_lower_spec, trim_lower, trim_spec};
use vstd::string::StringSliceAdditionalSpecFns;

verus! {

/// The emoji a reaction name stands for, if the name is known.
pub open spec fn reaction_emoji_of(name: Seq<char>) -> Option<Seq<char>> {
    if name == "like"@ || name == "thumbsup"@ || name == "thumbs_up"@ {
        Option::Some("\u{1F44D}"@)
    } else if name == "dislike"@ || name == "thumbsdown"@ || name == "thumbs_down"@ {
        Option::Some("\u{1F44E}"@)
    } else if name == "heart"@ || name == "love"@ {
        Option::Some("\u{2764}\u{FE0F}"@)
    } else if name == "laugh"@ || name == "laughing"@ || name == "haha"@ || name == "lol"@ {
        Option::Some("\u{1F602}"@)
    } else if name == "wow"@ || name == "surprised"@ {
        Option::Some("\u{1F62E}"@)
    } else if name == "sad"@ || name == "cry"@ || name == "crying"@ {
        Option::Some("\u{1F622}"@)
    } else if name == "pray"@ || name == "praying"@ || name == "thanks"@ {
        Option::Some("\u{1F64F}"@)
    } else if name == "clap"@ || name == "clapping"@ {
        Option::Some("\u{1F44F}"@)
    } else if name == "fire"@ || name == "hot"@ {
        Option::Some("\u{1F525}"@)
    } else if name == "celebrate"@ || name == "celebration"@ || name == "party"@ {
        Option::Some("\u{1F389}"@)
    } else {
        Option::None
    }
}

/// The canonical emoji for a reaction: a short non-ASCII value is already an
/// emoji and is kept; otherwise the lowercased, trimmed name is looked up,
/// and unknown names are returned unchanged.
pub open spec fn normalize_reaction_spec(reaction: &str) -> Seq<char> {
    if reaction.spec_bytes().len() as usize <= 16 && !vstd::string::is_ascii(reaction) {
        reaction@
    } else {
        match reaction_emoji_of(to_lower_spec(trim_spec(reaction@))) {
            Option::Some(e) => e,
            Option::None => reaction@,
        }
    }
}

/// Normalize a reaction to an emoji.
pub fn normalize_reaction(reaction: &str) -> (r: String)
    ensures
        r@ == normalize_reaction_spec(reaction),
{
    // A short non-ASCII value is taken to be an emoji already.
    if reaction.len() <= 16 && !reaction.is_ascii() {
        return reaction.to_owned();
    }

    // The trimmed, lowercased name decides the lookup.
    let name = trim_lower(reaction);
    let hit: Option<&'static str> = if chars_eq_str(&name, "like") || chars_eq_str(
        &name,
        "thumbsup",
    ) || chars_eq_str(&name, "thumbs_up") {
        Option::Some("\u{1F44D}")
    } else if chars_eq_str(&name, "dislike") || chars_eq_str(&name, "thumbsdown")
        || chars_eq_str(&name, "thumbs_down") {
        Option::Some("\u{1F44E}")
    } else if chars_eq_str(&name, "heart") || chars_eq_str(&name, "love") {
        Option::Some("\u{2764}\u{FE0F}")
    } else if chars_eq_str(&name, "laugh") || chars_eq_str(&name, "laughing") || chars_eq_str(
        &name,
        "haha",
    ) || chars_eq_str(&name, "lol") {
        Option::Some("\u{1F602}")
    } else if chars_eq_str(&name, "wow") || chars_eq_str(&name, "surprised") {
        Option::Some("\u{1F62E}")
    } else if chars_eq_str(&name, "sad") || chars_eq_str(&name, "cry") || chars_eq_str(
        &name,
        "crying",
    ) {
        Option::Some("\u{1F622}")
    } else if chars_eq_str(&name, "pray") || chars_eq_str(&name, "praying") || chars_eq_str(
        &name,
        "thanks",
    ) {
        Option::Some("\u{1F64F}")
    } else if chars_eq_str(&name, "clap") || chars_eq_str(&name, "clapping") {
        Option::Some("\u{1F44F}")
    } else if chars_eq_str(&name, "fire") || chars_eq_str(&name, "hot") {
        Option::Some("\u{1F525}")
    } else if chars_eq_str(&name, "celebrate") || chars_eq_str(&name, "celebration")
        || chars_eq_str(&name, "party") {
        Option::Some("\u{1F389}")
    } else {
        Option::None
    };
    match hit {
        Option::Some(e) => e.to_owned(),
        Option::None => reaction.to_owned(),
    }
}

/// The first validation error of reaction parameters, if any: recipient,
/// message id and emoji must all be non-empty.
pub open spec fn reaction_error_spec(
    to: Seq<char>,
    message_id: Seq<char>,
    emoji: Seq<char>,
) -> Option<Seq<char>> {
    if to.len() == 0 {
        Option::Some("Recipient phone number is required"@)
    } else if message_id.len() == 0 {
        Option::Some("Message ID is required"@)
    } else if emoji.len() == 0 {
        Option::Some("Emoji is required"@)
    } else {
        Option::None
    }
}

/// Validate reaction parameters.
pub fn validate(to: &str, message_id: &str, emoji: &str) -> (r: Result<(), String>)
    ensures
        match r {
            Result::Ok(_) => reaction_error_spec(to@, message_id@, emoji@) is None,
            Result::Err(e) => reaction_error_spec(to@, message_id@, emoji@) == Option::Some(
                e@,
            ),
        },
{
    if to.is_empty() {
        let e = String::from_str("Recipient phone number is required");
        return Result::Err(e);
    }
    if message_id.is_empty() {
        let e = String::from_str("Message ID is required");
        return Result::Err(e);
    }
    if emoji.is_empty() {
        let e = String::from_str("Emoji is required");
        return Result::Err(e);
    }
    Result::Ok(())
}

} // verus!
