//! Parameters and validation for sending a WhatsApp media message.

use vstd::prelude::*;

use crate::text::{chars_eq_str, chars_vec, lower_chars, to_lower_spec};

verus! {

/// Media type.
#[derive(Debug, Clone, Copy, PartialEq, Eq, Structural)]
pub enum MediaType {
    Image,
    Video,
    Audio,
    Document,
}

/// The media type named by a string, case-insensitively; `doc` abbreviates
/// `document`.
pub open spec fn parse_media_type_spec(s: Seq<char>) -> Option<MediaType> {
    let t = to_lower_spec(s);
    if t == "image"@ {
        Option::Some(MediaType::Image)
    } else if t == "video"@ {
        Option::Some(MediaType::Video)
    } else if t == "audio"@ {
        Option::Some(MediaType::Audio)
    } else if t == "document"@ || t == "doc"@ {
        Option::Some(MediaType::Document)
    } else {
        Option::None
    }
}

/// The wire name of a media type.
pub open spec fn media_type_str(m: MediaType) -> Seq<char> {
    match m {
        MediaType::Image => "image"@,
        MediaType::Video => "video"@,
        MediaType::Audio => "audio"@,
        MediaType::Document => "document"@,
    }
}

impl MediaType {
    /// Parse from string (case-insensitive); unknown names are rejected with
    /// a message naming the input.
    pub fn from_str(s: &str) -> (r: Result<Self, String>)
        ensures
            match r {
                Result::Ok(m) => parse_media_type_spec(s@) == Option::Some(m),
                Result::Err(e) => parse_media_type_spec(s@) is None && e@
                    == "Invalid media type: "@ + s@,
            },
    {
        let t = lower_chars(&chars_vec(s));
        if chars_eq_str(&t, "image") {
            Result::Ok(MediaType::Image)
        } else if chars_eq_str(&t, "video") {
            Result::Ok(MediaType::Video)
        } else if chars_eq_str(&t, "audio") {
            Result::Ok(MediaType::Audio)
        } else if chars_eq_str(&t, "document") || chars_eq_str(&t, "doc") {
            Result::Ok(MediaType::Document)
        } else {
            let msg = String::from_str("Invalid media type: ");
            Result::Err(msg.concat(s))
        }
    }

    /// Get the string representation.
    pub fn as_str(&self) -> (r: &'static str)
        ensures
            r@ == media_type_str(*self),
    {
        match self {
            MediaType::Image => "image",
            MediaType::Video => "video",
            MediaType::Audio => "audio",
            MediaType::Document => "document",
        }
    }
}

/// Parameters for sending a WhatsApp media message.
#[derive(Debug, Clone, PartialEq, Eq)]
pub struct SendMediaParams {
    /// Recipient phone number.
    pub to: String,
    /// Media type.
    pub media_type: MediaType,
    /// Media URL.
    pub url: String,
    /// Optional caption.
    pub caption: Option<String>,
    /// Optional filename (for documents).
    pub filename: Option<String>,
}

impl SendMediaParams {
    /// Create new media parameters.
    pub fn new(to: &str, media_type: MediaType, url: &str) -> (r: Self)
        ensures
            r.to@ == to@,
            r.media_type == media_type,
            r.url@ == url@,
            r.caption is None,
            r.filename is None,
    {
        SendMediaParams {
            to: to.to_owned(),
            media_type,
            url: url.to_owned(),
            caption: Option::None,
            filename: Option::None,
        }
    }

    /// Set the caption.
    pub fn with_caption(self, caption: &str) -> (r: Self)
        ensures
            r.caption matches Option::Some(c) && c@ == caption@,
            r.to == self.to,
            r.media_type == self.media_type,
            r.url == self.url,
            r.filename == self.filename,
    {
        SendMediaParams { caption: Option::Some(caption.to_owned()), ..self }
    }

    /// Set the filename.
    pub fn with_filename(self, filename: &str) -> (r: Self)
        ensures
            r.filename matches Option::Some(f) && f@ == filename@,
            r.to == self.to,
            r.media_type == self.media_type,
            r.url == self.url,
            r.caption == self.caption,
    {
        SendMediaParams { filename: Option::Some(filename.to_owned()), ..self }
    }
}

/// The first validation error of media parameters, if any: the recipient and
/// the URL must be non-empty.
pub open spec fn media_error_spec(p: SendMediaParams) -> Option<Seq<char>> {
    if p.to@.len() == 0 {
        Option::Some("Recipient phone number is required"@)
    } else if p.url@.len() == 0 {
        Option::Some("Media URL is required"@)
    } else {
        Option::None
    }
}

/// Validate media parameters.
pub fn validate(params: &SendMediaParams) -> (r: Result<(), String>)
    ensures
        match r {
            Result::Ok(_) => media_error_spec(*params) is None,
            Result::Err(e) => media_error_spec(*params) == Option::Some(e@),
        },
{
    if params.to.as_str().is_empty() {
        let e = String::from_str("Recipient phone number is required");
        return Result::Err(e);
    }
    if params.url.as_str().is_empty() {
        let e = String::from_str("Media URL is required");
        return Result::Err(e);
    }
    Result::Ok(())
}

} // verus!
