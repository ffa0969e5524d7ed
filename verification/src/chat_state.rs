//! Rendering of tracked chat state into the context block handed to the
//! agent prompt.

use vstd::prelude::*;

use crate::text::string_from_chars;
use crate::types::WhatsAppChatState;

verus! {

/// The decimal digit character for a value below ten.
pub open spec fn dec_digit(d: int) -> char {
    ((d + 48) as u8) as char
}

#[via_fn]
proof fn dec_str_decreases(n: int) {
    if n >= 10 {
        assert(0 <= n / 10 < n) by (nonlinear_arith)
            requires
                n >= 10,
        ;
    }
}

/// The decimal digits of a non-negative integer, most significant first.
pub open spec fn dec_str(n: int) -> Seq<char>
    decreases n,
    when n >= 0
    via dec_str_decreases
{
    if n < 10 {
        seq![dec_digit(n)]
    } else {
        dec_str(n / 10).push(dec_digit(n % 10))
    }
}

/// The decimal form of a signed integer.
pub open spec fn i64_str(v: int) -> Seq<char> {
    if v < 0 {
        seq!['-'] + dec_str(-v)
    } else {
        dec_str(v)
    }
}

/// The decimal digits of an unsigned integer, as characters.
fn u64_to_dec_chars(n: u64) -> (r: Vec<char>)
    ensures
        r@ == dec_str(n as int),
{
    let mut rev: Vec<char> = Vec::new();
    let mut m = n;
    proof {
        assert(dec_str(n as int) =~= dec_str(n as int) + rev@.reverse());
    }
    while m >= 10
        invariant
            dec_str(n as int) == dec_str(m as int) + rev@.reverse(),
        decreases m,
    {
        let d = (m % 10) as u8;
        let ghost prev = rev@;
        rev.push((d + 48) as char);
        m = m / 10;
        proof {
            assert(0 <= (m as int) < 10 * (m as int) + 10) by (nonlinear_arith)
                requires
                    m >= 1,
            ;
            assert(rev@.reverse() =~= seq![dec_digit(d as int)] + prev.reverse());
            assert(dec_str(m as int) + rev@.reverse() =~= (dec_str(m as int).push(
                dec_digit(d as int),
            )) + prev.reverse());
        }
    }
    let d = m as u8;
    let ghost prev = rev@;
    rev.push((d + 48) as char);
    proof {
        assert(rev@.reverse() =~= seq![dec_digit(d as int)] + prev.reverse());
        assert(dec_str(m as int) + prev.reverse() =~= seq![dec_digit(d as int)]
            + prev.reverse());
        assert(dec_str(n as int) =~= rev@.reverse());
    }
    let k = rev.len();
    let mut out: Vec<char> = Vec::new();
    let mut i: usize = 0;
    while i < k
        invariant
            i <= k,
            k == rev@.len(),
            out@.len() == i,
            forall|j: int| 0 <= j < i ==> out@[j] == rev@[k - 1 - j],
        decreases k - i,
    {
        out.push(rev[k - 1 - i]);
        i = i + 1;
    }
    proof {
        assert(out@ =~= rev@.reverse());
    }
    out
}

/// The decimal form of a signed integer, as an owned string.
fn i64_to_dec_string(v: i64) -> (r: String)
    ensures
        r@ == i64_str(v as int),
{
    if v >= 0 {
        string_from_chars(u64_to_dec_chars(v as u64))
    } else {
        // Negate via a shifted cast so that the smallest value stays in
        // range.
        let m: u64 = ((-(v + 1)) as u64) + 1;
        proof {
            assert(m as int == -(v as int));
        }
        let digits = u64_to_dec_chars(m);
        let mut out: Vec<char> = Vec::new();
        out.push('-');
        let out = crate::text::append_chars(out, &digits);
        proof {
            assert(out@ =~= seq!['-'] + dec_str(m as int));
        }
        string_from_chars(out)
    }
}

/// The rendered chat-context block: a fixed header, the contact line, the
/// optional name and last-message lines, and a fixed closing note, joined by
/// single newlines.
pub open spec fn chat_state_text_spec(state: WhatsAppChatState) -> Seq<char> {
    let name_part = match state.contact_name {
        Option::Some(n) => "\n- Name: "@ + n@,
        Option::None => Seq::<char>::empty(),
    };
    let ts_part = match state.last_message_at {
        Option::Some(t) => "\n- Last Message: "@ + i64_str(t as int) + " (timestamp)"@,
        Option::None => Seq::<char>::empty(),
    };
    "# WhatsApp Chat Context\n\n- Contact: "@ + state.contact_wa_id@ + name_part + ts_part
        + "\n\nNote: This conversation is on WhatsApp. Be helpful and concise."@
}

/// Render the chat state as the context block for the agent prompt.
pub fn format_chat_state(state: &WhatsAppChatState) -> (r: String)
    ensures
        r@ == chat_state_text_spec(*state),
{
    let header = String::from_str("# WhatsApp Chat Context\n\n- Contact: ");
    let mut out = header.concat(state.contact_wa_id.as_str());
    if let Option::Some(name) = &state.contact_name {
        out = out.concat("\n- Name: ");
        out = out.concat(name.as_str());
    }
    if let Option::Some(ts) = state.last_message_at {
        out = out.concat("\n- Last Message: ");
        let ts_str = i64_to_dec_string(ts);
        out = out.concat(ts_str.as_str());
        out = out.concat(" (timestamp)");
    }
    let r = out.concat("\n\nNote: This conversation is on WhatsApp. Be helpful and concise.");
    proof {
        assert(r@ =~= chat_state_text_spec(*state));
    }
    r
}

} // verus!
