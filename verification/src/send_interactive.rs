//! Parameters and validation for sending a WhatsApp interactive message
//! (button or list).

use vstd::prelude::*;

use crate::text::{chars_eq_str, chars_vec, lower_chars, to_lower_spec};
use crate::types::ListSection;

verus! {

/// Interactive message type.
#[derive(Debug, Clone, Copy, PartialEq, Eq, Structural)]
pub enum InteractiveType {
    Button,
    List,
}

/// The interactive type named by a string, case-insensitively; `buttons`
/// abbreviates `button`.
pub open spec fn parse_interactive_type_spec(s: Seq<char>) -> Option<InteractiveType> {
    let t = to_lower_spec(s);
    if t == "button"@ || t == "buttons"@ {
        Option::Some(InteractiveType::Button)
    } else if t == "list"@ {
        Option::Some(InteractiveType::List)
    } else {
        Option::None
    }
}

/// The wire name of an interactive type.
pub open spec fn interactive_type_str(t: InteractiveType) -> Seq<char> {
    match t {
        InteractiveType::Button => "button"@,
        InteractiveType::List => "list"@,
    }
}

impl InteractiveType {
    /// Parse from string (case-insensitive); unknown names are rejected with
    /// a message naming the input.
    pub fn from_str(s: &str) -> (r: Result<Self, String>)
        ensures
            match r {
                Result::Ok(t) => parse_interactive_type_spec(s@) == Option::Some(t),
                Result::Err(e) => parse_interactive_type_spec(s@) is None && e@
                    == "Invalid interactive type: "@ + s@,
            },
    {
        let t = lower_chars(&chars_vec(s));
        if chars_eq_str(&t, "button") || chars_eq_str(&t, "buttons") {
            Result::Ok(InteractiveType::Button)
        } else if chars_eq_str(&t, "list") {
            Result::Ok(InteractiveType::List)
        } else {
            let msg = String::from_str("Invalid interactive type: ");
            Result::Err(msg.concat(s))
        }
    }

    /// Get the string representation.
    pub fn as_str(&self) -> (r: &'static str)
        ensures
            r@ == interactive_type_str(*self),
    {
        match self {
            InteractiveType::Button => "button",
            InteractiveType::List => "list",
        }
    }
}

/// Button definition.
#[derive(Debug, Clone, PartialEq, Eq)]
pub struct InteractiveButton {
    /// Button ID.
    pub id: String,
    /// Button title.
    pub title: String,
}

impl InteractiveButton {
    /// Create a new button.
    pub fn new(id: &str, title: &str) -> (r: Self)
        ensures
            r.id@ == id@,
            r.title@ == title@,
    {
        InteractiveButton { id: id.to_owned(), title: title.to_owned() }
    }

    /// Convert to an id/title pair for the API.
    pub fn to_tuple(&self) -> (r: (String, String))
        ensures
            r.0@ == self.id@,
            r.1@ == self.title@,
    {
        (self.id.clone(), self.title.clone())
    }
}

/// Parameters for sending a WhatsApp interactive message.
#[derive(Debug, Clone, PartialEq, Eq)]
pub struct SendInteractiveParams {
    /// Recipient phone number.
    pub to: String,
    /// Interactive message type.
    pub interactive_type: InteractiveType,
    /// Body text.
    pub body_text: String,
    /// Buttons (for button type).
    pub buttons: Option<Vec<InteractiveButton>>,
    /// Sections (for list type).
    pub sections: Option<Vec<ListSection>>,
    /// List button text (for list type).
    pub list_button_text: Option<String>,
    /// Header text.
    pub header_text: Option<String>,
    /// Footer text.
    pub footer_text: Option<String>,
}

impl SendInteractiveParams {
    /// Create new button message parameters.
    pub fn button_message(to: &str, body_text: &str, buttons: Vec<InteractiveButton>) -> (r:
        Self)
        ensures
            r.to@ == to@,
            r.interactive_type == InteractiveType::Button,
            r.body_text@ == body_text@,
            r.buttons matches Option::Some(b) && b == buttons,
            r.sections is None,
            r.list_button_text is None,
            r.header_text is None,
            r.footer_text is None,
    {
        SendInteractiveParams {
            to: to.to_owned(),
            interactive_type: InteractiveType::Button,
            body_text: body_text.to_owned(),
            buttons: Option::Some(buttons),
            sections: Option::None,
            list_button_text: Option::None,
            header_text: Option::None,
            footer_text: Option::None,
        }
    }

    /// Create new list message parameters.
    pub fn list_message(
        to: &str,
        body_text: &str,
        button_text: &str,
        sections: Vec<ListSection>,
    ) -> (r: Self)
        ensures
            r.to@ == to@,
            r.interactive_type == InteractiveType::List,
            r.body_text@ == body_text@,
            r.buttons is None,
            r.sections matches Option::Some(s) && s == sections,
            r.list_button_text matches Option::Some(t) && t@ == button_text@,
            r.header_text is None,
            r.footer_text is None,
    {
        SendInteractiveParams {
            to: to.to_owned(),
            interactive_type: InteractiveType::List,
            body_text: body_text.to_owned(),
            buttons: Option::None,
            sections: Option::Some(sections),
            list_button_text: Option::Some(button_text.to_owned()),
            header_text: Option::None,
            footer_text: Option::None,
        }
    }

    /// Set header text.
    pub fn with_header(self, text: &str) -> (r: Self)
        ensures
            r.header_text matches Option::Some(t) && t@ == text@,
            r.to == self.to,
            r.interactive_type == self.interactive_type,
            r.body_text == self.body_text,
            r.buttons == self.buttons,
            r.sections == self.sections,
            r.list_button_text == self.list_button_text,
            r.footer_text == self.footer_text,
    {
        SendInteractiveParams { header_text: Option::Some(text.to_owned()), ..self }
    }

    /// Set footer text.
    pub fn with_footer(self, text: &str) -> (r: Self)
        ensures
            r.footer_text matches Option::Some(t) && t@ == text@,
            r.to == self.to,
            r.interactive_type == self.interactive_type,
            r.body_text == self.body_text,
            r.buttons == self.buttons,
            r.sections == self.sections,
            r.list_button_text == self.list_button_text,
            r.header_text == self.header_text,
    {
        SendInteractiveParams { footer_text: Option::Some(text.to_owned()), ..self }
    }
}

/// The error for the first button whose title exceeds twenty bytes, if any.
pub open spec fn first_long_title(bs: Seq<InteractiveButton>) -> Option<Seq<char>>
    decreases bs.len(),
{
    if bs.len() == 0 {
        Option::None
    } else if vstd::utf8::encode_utf8(bs[0].title@).len() as usize > 20 {
        Option::Some("Button title too long: "@ + bs[0].title@)
    } else {
        first_long_title(bs.drop_first())
    }
}

/// The total number of rows across all sections.
pub open spec fn total_rows(ss: Seq<ListSection>) -> int
    decreases ss.len(),
{
    if ss.len() == 0 {
        0
    } else {
        total_rows(ss.drop_last()) + ss.last().rows@.len()
    }
}

proof fn lemma_total_rows_nonneg(ss: Seq<ListSection>)
    ensures
        total_rows(ss) >= 0,
    decreases ss.len(),
{
    if ss.len() > 0 {
        lemma_total_rows_nonneg(ss.drop_last());
    }
}

/// Row totals grow with the section prefix.
proof fn lemma_total_rows_prefix(ss: Seq<ListSection>, i: int)
    requires
        0 <= i <= ss.len(),
    ensures
        total_rows(ss.subrange(0, i)) <= total_rows(ss),
    decreases ss.len() - i,
{
    if i < ss.len() {
        lemma_total_rows_prefix(ss, i + 1);
        let pre = ss.subrange(0, i + 1);
        assert(pre.drop_last() =~= ss.subrange(0, i));
        assert(pre.last() == ss[i]);
    } else {
        assert(ss.subrange(0, i) =~= ss);
    }
}

/// The first validation error of interactive parameters, if any: the
/// recipient and body are required; button messages need one to three
/// buttons with titles of at most twenty bytes; list messages need sections,
/// a list button text, and at most ten rows in all.
pub open spec fn interactive_error_spec(p: SendInteractiveParams) -> Option<Seq<char>> {
    if p.to@.len() == 0 {
        Option::Some("Recipient phone number is required"@)
    } else if p.body_text@.len() == 0 {
        Option::Some("Body text is required"@)
    } else {
        match p.interactive_type {
            InteractiveType::Button => match p.buttons {
                Option::None => Option::Some("Buttons are required for button type"@),
                Option::Some(bs) => if bs@.len() == 0 {
                    Option::Some("At least one button is required"@)
                } else if bs@.len() > 3 {
                    Option::Some("Maximum 3 buttons allowed"@)
                } else {
                    first_long_title(bs@)
                },
            },
            InteractiveType::List => match p.sections {
                Option::None => Option::Some("Sections are required for list type"@),
                Option::Some(ss) => if ss@.len() == 0 {
                    Option::Some("At least one section is required"@)
                } else if p.list_button_text is None {
                    Option::Some("List button text is required for list type"@)
                } else if total_rows(ss@) > 10 {
                    Option::Some("Maximum 10 rows allowed across all sections"@)
                } else {
                    Option::None
                },
            },
        }
    }
}

/// Validate interactive parameters.
pub fn validate(params: &SendInteractiveParams) -> (r: Result<(), String>)
    ensures
        match r {
            Result::Ok(_) => interactive_error_spec(*params) is None,
            Result::Err(e) => interactive_error_spec(*params) == Option::Some(e@),
        },
{
    if params.to.as_str().is_empty() {
        let e = String::from_str("Recipient phone number is required");
        return Result::Err(e);
    }
    if params.body_text.as_str().is_empty() {
        let e = String::from_str("Body text is required");
        return Result::Err(e);
    }

    match params.interactive_type {
        InteractiveType::Button => {
            let buttons = match &params.buttons {
                Option::None => {
                    let e = String::from_str("Buttons are required for button type");
                    return Result::Err(e);
                },
                Option::Some(b) => b,
            };
            if buttons.len() == 0 {
                let e = String::from_str("At least one button is required");
                return Result::Err(e);
            }
            if buttons.len() > 3 {
                let e = String::from_str("Maximum 3 buttons allowed");
                return Result::Err(e);
            }
            let n = buttons.len();
            let mut i: usize = 0;
            proof {
                assert(buttons@.skip(0) =~= buttons@);
            }
            while i < n
                invariant
                    i <= n,
                    n == buttons@.len(),
                    params.to@.len() > 0,
                    params.body_text@.len() > 0,
                    params.interactive_type == InteractiveType::Button,
                    params.buttons matches Option::Some(b) && b@ == buttons@,
                    0 < n <= 3,
                    first_long_title(buttons@) == first_long_title(buttons@.skip(i as int)),
                decreases n - i,
            {
                if buttons[i].title.as_str().len() > 20 {
                    proof {
                        assert(buttons@.skip(i as int)[0] == buttons@[i as int]);
                        assert(first_long_title(buttons@.skip(i as int)) == Option::Some(
                            "Button title too long: "@ + buttons@[i as int].title@,
                        ));
                    }
                    let msg = String::from_str("Button title too long: ");
                    return Result::Err(msg.concat(buttons[i].title.as_str()));
                }
                i = i + 1;
                proof {
                    assert(buttons@.skip(i as int) =~= buttons@.skip(i - 1).drop_first());
                }
            }
            proof {
                assert(buttons@.skip(n as int) =~= Seq::<InteractiveButton>::empty());
            }
            Result::Ok(())
        },
        InteractiveType::List => {
            let sections = match &params.sections {
                Option::None => {
                    let e = String::from_str("Sections are required for list type");
                    return Result::Err(e);
                },
                Option::Some(s) => s,
            };
            if sections.len() == 0 {
                let e = String::from_str("At least one section is required");
                return Result::Err(e);
            }
            if params.list_button_text.is_none() {
                let e = String::from_str("List button text is required for list type");
                return Result::Err(e);
            }
            let n = sections.len();
            let mut total: usize = 0;
            let mut i: usize = 0;
            proof {
                assert(sections@.subrange(0, 0) =~= Seq::<ListSection>::empty());
            }
            while i < n
                invariant
                    i <= n,
                    n == sections@.len(),
                    params.to@.len() > 0,
                    params.body_text@.len() > 0,
                    params.interactive_type == InteractiveType::List,
                    params.sections matches Option::Some(sv) && sv@ == sections@,
                    params.list_button_text is Some,
                    n > 0,
                    total <= 10,
                    total as int == total_rows(sections@.subrange(0, i as int)),
                decreases n - i,
            {
                let rl = sections[i].rows.len();
                proof {
                    let pre = sections@.subrange(0, i + 1);
                    assert(pre.drop_last() =~= sections@.subrange(0, i as int));
                    assert(pre.last() == sections@[i as int]);
                }
                if rl > 10 || total + rl > 10 {
                    proof {
                        assert(total_rows(sections@.subrange(0, i + 1)) == total as int
                            + rl as int);
                        lemma_total_rows_prefix(sections@, i + 1);
                        assert(total_rows(sections@) > 10);
                    }
                    let e = String::from_str("Maximum 10 rows allowed across all sections");
                    return Result::Err(e);
                }
                total = total + rl;
                i = i + 1;
            }
            proof {
                assert(sections@.subrange(0, n as int) =~= sections@);
            }
            Result::Ok(())
        },
    }
}

} // verus!
