//! WhatsApp E.164 and JID normalization: phone-number canonicalization,
//! user/group JID recognition and parsing, target normalization, text
//! chunking for message limits, and display formatting helpers.

use vstd::prelude::*;

use crate::text::{
    append_chars, chars_eq_str, chars_vec, lemma_trim_len, lower_chars, string_from_chars,
    sub_chars, to_lower_spec, trim_chars, trim_end_chars, trim_end_spec, trim_start_chars,
    trim_start_spec, trim_spec,
};

verus! {

// ---------------------------------------------------------------------------
// Character classes
// ---------------------------------------------------------------------------

/// Decimal digits.
pub open spec fn is_digit_char(c: char) -> bool {
    '0' <= c && c <= '9'
}

/// The characters kept when normalizing a dialable number.
pub open spec fn is_dial_char(c: char) -> bool {
    is_digit_char(c) || c == '+'
}

fn is_digit(c: char) -> (r: bool)
    ensures
        r == is_digit_char(c),
{
    '0' <= c && c <= '9'
}

// ---------------------------------------------------------------------------
// `whatsapp:` prefix stripping
// ---------------------------------------------------------------------------

/// Whether a sequence starts with `whatsapp:` in any casing.
pub open spec fn has_wa_prefix(s: Seq<char>) -> bool {
    s.len() >= 9 && to_lower_spec(s.subrange(0, 9)) == "whatsapp:"@
}

#[via_fn]
proof fn strip_loop_decreases(t: Seq<char>) {
    if has_wa_prefix(t) {
        lemma_trim_len(t.skip(9));
    }
}

/// One round of prefix stripping at a time: drop a leading `whatsapp:` and
/// re-trim, until no prefix is left.
pub open spec fn strip_loop_spec(t: Seq<char>) -> Seq<char>
    decreases t.len(),
    via strip_loop_decreases
{
    if has_wa_prefix(t) {
        strip_loop_spec(trim_spec(t.skip(9)))
    } else {
        t
    }
}

/// The trimmed value with every leading `whatsapp:` prefix removed.
pub open spec fn strip_prefixes_spec(s: Seq<char>) -> Seq<char> {
    strip_loop_spec(trim_spec(s))
}

/// Whether the vector starts with `whatsapp:` in any casing.
fn has_wa_prefix_exec(v: &Vec<char>) -> (r: bool)
    ensures
        r == has_wa_prefix(v@),
{
    if v.len() < 9 {
        return false;
    }
    let head = sub_chars(v, 0, 9);
    let lowered = lower_chars(&head);
    chars_eq_str(&lowered, "whatsapp:")
}

/// Strip all leading `whatsapp:` prefixes (and surrounding whitespace) from
/// a raw target value.
fn strip_whatsapp_target_prefixes(value: &str) -> (r: Vec<char>)
    ensures
        r@ == strip_prefixes_spec(value@),
{
    let v = chars_vec(value);
    let mut cand = trim_chars(&v);
    while has_wa_prefix_exec(&cand)
        invariant
            strip_loop_spec(cand@) == strip_prefixes_spec(value@),
        decreases cand@.len(),
    {
        let rest = sub_chars(&cand, 9, cand.len());
        proof {
            assert(rest@ == cand@.skip(9));
            lemma_trim_len(cand@.skip(9));
        }
        cand = trim_chars(&rest);
    }
    cand
}

// ---------------------------------------------------------------------------
// E.164 normalization
// ---------------------------------------------------------------------------

/// The digits and plus signs of a sequence, in order.
pub open spec fn keep_dial_spec(s: Seq<char>) -> Seq<char>
    decreases s.len(),
{
    if s.len() == 0 {
        Seq::empty()
    } else {
        let rest = keep_dial_spec(s.drop_last());
        if is_dial_char(s.last()) {
            rest.push(s.last())
        } else {
            rest
        }
    }
}

/// E.164 normalization: strip everything but digits and `+`; keep a leading
/// `+`; turn a leading `00` into `+`; prepend `+` to a bare number of at
/// least ten digits; return shorter digit strings unchanged, and the empty
/// sequence when nothing dialable remains.
pub open spec fn e164_spec(s: Seq<char>) -> Seq<char> {
    let d = keep_dial_spec(s);
    if d.len() == 0 {
        Seq::empty()
    } else if d[0] == '+' {
        d
    } else if d.len() >= 2 && d[0] == '0' && d[1] == '0' {
        seq!['+'] + d.skip(2)
    } else if d.len() >= 10 {
        seq!['+'] + d
    } else {
        d
    }
}

/// The digits and plus signs of a character vector.
fn keep_dial_chars(v: &Vec<char>) -> (r: Vec<char>)
    ensures
        r@ == keep_dial_spec(v@),
{
    let n = v.len();
    let mut r: Vec<char> = Vec::new();
    let mut i: usize = 0;
    while i < n
        invariant
            i <= n,
            n == v@.len(),
            r@ == keep_dial_spec(v@.subrange(0, i as int)),
        decreases n - i,
    {
        let c = v[i];
        if is_digit(c) || c == '+' {
            r.push(c);
        }
        i = i + 1;
        proof {
            let pre = v@.subrange(0, i as int);
            assert(pre.drop_last() =~= v@.subrange(0, i - 1));
            assert(pre.last() == v@[i - 1]);
        }
    }
    proof {
        assert(v@.subrange(0, n as int) =~= v@);
    }
    r
}

/// Normalize a phone number to E.164 form, from a character vector.
fn normalize_e164_chars(v: &Vec<char>) -> (r: Vec<char>)
    ensures
        r@ == e164_spec(v@),
{
    let d = keep_dial_chars(v);
    let n = d.len();
    if n == 0 {
        return Vec::new();
    }
    if d[0] == '+' {
        return d;
    }
    if n >= 2 && d[0] == '0' && d[1] == '0' {
        let mut r: Vec<char> = Vec::new();
        r.push('+');
        let rest = sub_chars(&d, 2, n);
        let mut i: usize = 0;
        while i < rest.len()
            invariant
                i <= rest@.len(),
                rest@ == d@.skip(2),
                r@ == seq!['+'] + rest@.subrange(0, i as int),
            decreases rest@.len() - i,
        {
            r.push(rest[i]);
            i = i + 1;
            proof {
                assert(r@ =~= seq!['+'] + rest@.subrange(0, i as int));
            }
        }
        proof {
            assert(rest@.subrange(0, rest@.len() as int) =~= rest@);
            assert(r@ =~= seq!['+'] + d@.skip(2));
        }
        return r;
    }
    if n >= 10 {
        let mut r: Vec<char> = Vec::new();
        r.push('+');
        let mut i: usize = 0;
        while i < n
            invariant
                i <= n,
                n == d@.len(),
                r@ == seq!['+'] + d@.subrange(0, i as int),
            decreases n - i,
        {
            r.push(d[i]);
            i = i + 1;
            proof {
                assert(r@ =~= seq!['+'] + d@.subrange(0, i as int));
            }
        }
        proof {
            assert(d@.subrange(0, n as int) =~= d@);
        }
        return r;
    }
    d
}

/// Normalize a phone number string to E.164 format.
///
/// - Keeps only digits and `+`.
/// - Keeps a `+` prefix if present.
/// - Converts a leading `00` to `+`.
/// - Prepends `+` for numbers of ten or more digits without a prefix.
/// - Returns a short digit string as-is.
/// - Returns `""` if the input contains no usable digits.
pub fn normalize_e164(input: &str) -> (r: String)
    ensures
        r@ == e164_spec(input@),
{
    let v = chars_vec(input);
    string_from_chars(normalize_e164_chars(&v))
}

// ---------------------------------------------------------------------------
// JID classification
// ---------------------------------------------------------------------------

/// Whether a sequence ends with the given suffix in any casing.
pub open spec fn ends_with_ci(s: Seq<char>, suffix: Seq<char>) -> bool {
    s.len() >= suffix.len() && to_lower_spec(s.subrange(s.len() - suffix.len(), s.len() as int))
        == suffix
}

/// A group JID's local part: digit groups separated by single dashes.
pub open spec fn group_local_ok(l: Seq<char>) -> bool {
    l.len() > 0 && is_digit_char(l[0]) && is_digit_char(l.last()) && (forall|i: int|
        0 <= i < l.len() ==> is_digit_char(#[trigger] l[i]) || l[i] == '-') && (forall|i: int|
        0 <= i < l.len() - 1 ==> !((#[trigger] l[i]) == '-' && l[i + 1] == '-'))
}

/// Whether an already-stripped candidate is a group JID: a valid local part
/// followed by `@g.us` in any casing.
pub open spec fn group_jid_core(c: Seq<char>) -> bool {
    ends_with_ci(c, "@g.us"@) && group_local_ok(c.subrange(0, c.len() - 5))
}

/// Whether a raw value is a WhatsApp group JID (e.g. `…@g.us`), after
/// `whatsapp:` prefixes are stripped.
pub open spec fn group_jid_spec(s: Seq<char>) -> bool {
    group_jid_core(strip_prefixes_spec(s))
}

/// A user JID's local part: digits, optionally followed by a colon and a
/// device number.
pub open spec fn user_local_ok(l: Seq<char>) -> bool {
    l.len() > 0 && is_digit_char(l[0]) && l.last() != ':' && (forall|i: int|
        0 <= i < l.len() ==> is_digit_char(#[trigger] l[i]) || l[i] == ':') && (forall|
        i: int,
        j: int,
    | 0 <= i < l.len() && 0 <= j < l.len() && l[i] == ':' && l[j] == ':' ==> i == j)
}

/// Whether an already-stripped candidate is a user JID
/// (`…@s.whatsapp.net`, with an optional `:device` part).
pub open spec fn user_jid_core(c: Seq<char>) -> bool {
    ends_with_ci(c, "@s.whatsapp.net"@) && user_local_ok(c.subrange(0, c.len() - 15))
}

/// Whether an already-stripped candidate is a LID (`…@lid`).
pub open spec fn lid_core(c: Seq<char>) -> bool {
    ends_with_ci(c, "@lid"@) && ({
        let l = c.subrange(0, c.len() - 4);
        l.len() > 0 && forall|i: int| 0 <= i < l.len() ==> is_digit_char(#[trigger] l[i])
    })
}

/// Whether a raw value is a WhatsApp user target: a user JID or a LID.
pub open spec fn user_target_spec(s: Seq<char>) -> bool {
    user_jid_core(strip_prefixes_spec(s)) || lid_core(strip_prefixes_spec(s))
}

/// Whether the vector ends with the given ASCII suffix in any casing.
fn ends_with_ci_exec(v: &Vec<char>, suffix: &str) -> (r: bool)
    ensures
        r == ends_with_ci(v@, suffix@),
{
    let m = suffix.unicode_len();
    if v.len() < m {
        return false;
    }
    let tail = sub_chars(v, v.len() - m, v.len());
    let lowered = lower_chars(&tail);
    chars_eq_str(&lowered, suffix)
}

/// Whether a local part is digit groups separated by single dashes.
fn group_local_ok_exec(l: &Vec<char>) -> (r: bool)
    ensures
        r == group_local_ok(l@),
{
    let n = l.len();
    if n == 0 {
        return false;
    }
    if !is_digit(l[0]) || !is_digit(l[n - 1]) {
        return false;
    }
    let mut i: usize = 0;
    while i < n
        invariant
            i <= n,
            n == l@.len(),
            forall|j: int| 0 <= j < i ==> is_digit_char(#[trigger] l@[j]) || l@[j] == '-',
            forall|j: int| 0 <= j < i - 1 ==> !((#[trigger] l@[j]) == '-' && l@[j + 1] == '-'),
        decreases n - i,
    {
        let c = l[i];
        if !is_digit(c) && c != '-' {
            return false;
        }
        if i > 0 && c == '-' && l[i - 1] == '-' {
            return false;
        }
        i = i + 1;
    }
    true
}

/// Whether a local part is digits with an optional `:device` suffix.
fn user_local_ok_exec(l: &Vec<char>) -> (r: bool)
    ensures
        r == user_local_ok(l@),
{
    let n = l.len();
    if n == 0 {
        return false;
    }
    if !is_digit(l[0]) || l[n - 1] == ':' {
        return false;
    }
    let mut i: usize = 0;
    let mut seen_colon = false;
    while i < n
        invariant
            i <= n,
            n == l@.len(),
            forall|j: int| 0 <= j < i ==> is_digit_char(#[trigger] l@[j]) || l@[j] == ':',
            seen_colon == exists|j: int| 0 <= j < i && l@[j] == ':',
            forall|j1: int, j2: int|
                0 <= j1 < i && 0 <= j2 < i && l@[j1] == ':' && l@[j2] == ':' ==> j1 == j2,
        decreases n - i,
    {
        let c = l[i];
        if !is_digit(c) && c != ':' {
            return false;
        }
        if c == ':' {
            if seen_colon {
                proof {
                    let j = choose|j: int| 0 <= j < i && l@[j] == ':';
                    assert(l@[j] == ':' && l@[i as int] == ':' && j != i);
                }
                return false;
            }
            seen_colon = true;
        }
        i = i + 1;
    }
    true
}

/// Whether a local part is one or more digits.
fn all_digits_exec(l: &Vec<char>) -> (r: bool)
    ensures
        r == (l@.len() > 0 && forall|i: int| 0 <= i < l@.len() ==> is_digit_char(
            #[trigger] l@[i],
        )),
{
    let n = l.len();
    if n == 0 {
        return false;
    }
    let mut i: usize = 0;
    while i < n
        invariant
            i <= n,
            n == l@.len(),
            forall|j: int| 0 <= j < i ==> is_digit_char(#[trigger] l@[j]),
        decreases n - i,
    {
        if !is_digit(l[i]) {
            return false;
        }
        i = i + 1;
    }
    true
}

fn group_jid_core_exec(c: &Vec<char>) -> (r: bool)
    ensures
        r == group_jid_core(c@),
{
    if !ends_with_ci_exec(c, "@g.us") {
        return false;
    }
    proof {
        reveal_strlit("@g.us");
    }
    let local = sub_chars(c, 0, c.len() - 5);
    group_local_ok_exec(&local)
}

fn user_jid_core_exec(c: &Vec<char>) -> (r: bool)
    ensures
        r == user_jid_core(c@),
{
    if !ends_with_ci_exec(c, "@s.whatsapp.net") {
        return false;
    }
    proof {
        reveal_strlit("@s.whatsapp.net");
    }
    let local = sub_chars(c, 0, c.len() - 15);
    user_local_ok_exec(&local)
}

fn lid_core_exec(c: &Vec<char>) -> (r: bool)
    ensures
        r == lid_core(c@),
{
    if !ends_with_ci_exec(c, "@lid") {
        return false;
    }
    proof {
        reveal_strlit("@lid");
    }
    let local = sub_chars(c, 0, c.len() - 4);
    all_digits_exec(&local)
}

/// Return `true` if `value` is a WhatsApp group JID (e.g. `…@g.us`).
///
/// Handles optional `whatsapp:` prefixes; the domain part is matched in any
/// casing, and the local part must be digit groups separated by dashes.
pub fn is_whatsapp_group_jid(value: &str) -> (r: bool)
    ensures
        r == group_jid_spec(value@),
{
    let candidate = strip_whatsapp_target_prefixes(value);
    group_jid_core_exec(&candidate)
}

/// Return `true` if `value` looks like a WhatsApp user target: a user JID
/// (`…@s.whatsapp.net`) or a LID (`…@lid`).
pub fn is_whatsapp_user_target(value: &str) -> (r: bool)
    ensures
        r == user_target_spec(value@),
{
    let candidate = strip_whatsapp_target_prefixes(value);
    user_jid_core_exec(&candidate) || lid_core_exec(&candidate)
}

// ---------------------------------------------------------------------------
// Phone extraction and target normalization
// ---------------------------------------------------------------------------

/// The leading run of digits of a sequence.
pub open spec fn leading_digits_spec(s: Seq<char>) -> Seq<char>
    decreases s.len(),
{
    if s.len() > 0 && is_digit_char(s[0]) {
        seq![s[0]] + leading_digits_spec(s.drop_first())
    } else {
        Seq::empty()
    }
}

/// The phone-number portion of an already-stripped user JID or LID: the
/// digits before any `:device` part or the `@` domain.
pub open spec fn jid_phone_spec(c: Seq<char>) -> Option<Seq<char>> {
    if user_jid_core(c) {
        Option::Some(leading_digits_spec(c.subrange(0, c.len() - 15)))
    } else if lid_core(c) {
        Option::Some(c.subrange(0, c.len() - 4))
    } else {
        Option::None
    }
}

/// The leading run of digits of a character vector.
fn leading_digits_exec(v: &Vec<char>) -> (r: Vec<char>)
    ensures
        r@ == leading_digits_spec(v@),
{
    let n = v.len();
    let mut i: usize = 0;
    while i < n && is_digit(v[i])
        invariant
            i <= n,
            n == v@.len(),
            forall|j: int| 0 <= j < i ==> is_digit_char(#[trigger] v@[j]),
        decreases n - i,
    {
        i = i + 1;
    }
    proof {
        lemma_leading_digits_prefix(v@, i as int);
    }
    sub_chars(v, 0, i)
}

/// The leading digit run is the prefix up to the first non-digit.
proof fn lemma_leading_digits_prefix(s: Seq<char>, k: int)
    requires
        0 <= k <= s.len(),
        forall|j: int| 0 <= j < k ==> is_digit_char(#[trigger] s[j]),
        k == s.len() || !is_digit_char(s[k]),
    ensures
        leading_digits_spec(s) == s.subrange(0, k),
    decreases s.len(),
{
    if k > 0 {
        lemma_leading_digits_prefix(s.drop_first(), k - 1);
        assert(s.drop_first().subrange(0, k - 1) =~= s.subrange(1, k));
        assert(seq![s[0]] + s.subrange(1, k) =~= s.subrange(0, k));
    } else {
        assert(s.subrange(0, 0) =~= Seq::<char>::empty());
    }
}

/// The canonical form of a WhatsApp target: a group JID is kept with a
/// lowercased domain; a user JID or LID becomes an E.164 number; other
/// `@`-strings are rejected; anything else is treated as a plain phone
/// number. `None` when the target cannot be recognized.
pub open spec fn normalize_target_spec(s: Seq<char>) -> Option<Seq<char>> {
    let c = strip_prefixes_spec(s);
    if c.len() == 0 {
        Option::None
    } else if group_jid_core(c) {
        Option::Some(c.subrange(0, c.len() - 5) + "@g.us"@)
    } else if user_jid_core(c) || lid_core(c) {
        let phone = e164_spec(jid_phone_spec(c)->Some_0);
        if phone.len() > 1 {
            Option::Some(phone)
        } else {
            Option::None
        }
    } else if c.contains('@') {
        Option::None
    } else {
        let phone = e164_spec(c);
        if phone.len() > 1 {
            Option::Some(phone)
        } else {
            Option::None
        }
    }
}

/// Whether the vector holds a given character.
fn contains_char(v: &Vec<char>, c: char) -> (r: bool)
    ensures
        r == v@.contains(c),
{
    let n = v.len();
    let mut i: usize = 0;
    while i < n
        invariant
            i <= n,
            n == v@.len(),
            forall|j: int| 0 <= j < i ==> v@[j] != c,
        decreases n - i,
    {
        if v[i] == c {
            return true;
        }
        i = i + 1;
    }
    false
}

/// Normalize a WhatsApp target (phone number, user JID, or group JID).
///
/// Returns `None` when the target cannot be recognized.
pub fn normalize_whatsapp_target(value: &str) -> (r: Option<String>)
    ensures
        r.deep_view() == normalize_target_spec(value@),
{
    let candidate = strip_whatsapp_target_prefixes(value);
    if candidate.len() == 0 {
        return Option::None;
    }

    // Group JIDs: keep the local part, lowercase the domain.
    if group_jid_core_exec(&candidate) {
        proof {
            reveal_strlit("@g.us");
            assert(candidate@.len() >= 5);
        }
        let mut local = sub_chars(&candidate, 0, candidate.len() - 5);
        let ghost lv = local@;
        local.push('@');
        local.push('g');
        local.push('.');
        local.push('u');
        local.push('s');
        proof {
            assert(local@ =~= lv + "@g.us"@);
        }
        return Option::Some(string_from_chars(local));
    }

    // User JIDs / LIDs: extract the phone portion and normalize it.
    if user_jid_core_exec(&candidate) {
        proof {
            reveal_strlit("@s.whatsapp.net");
        }
        let local = sub_chars(&candidate, 0, candidate.len() - 15);
        let phone = leading_digits_exec(&local);
        let normalized = normalize_e164_chars(&phone);
        if normalized.len() > 1 {
            return Option::Some(string_from_chars(normalized));
        } else {
            return Option::None;
        }
    }
    if lid_core_exec(&candidate) {
        proof {
            reveal_strlit("@lid");
        }
        let local = sub_chars(&candidate, 0, candidate.len() - 4);
        let normalized = normalize_e164_chars(&local);
        if normalized.len() > 1 {
            return Option::Some(string_from_chars(normalized));
        } else {
            return Option::None;
        }
    }

    // Unknown JID-like string.
    if contains_char(&candidate, '@') {
        return Option::None;
    }

    // Plain phone number.
    let normalized = normalize_e164_chars(&candidate);
    if normalized.len() > 1 {
        Option::Some(string_from_chars(normalized))
    } else {
        Option::None
    }
}

// ---------------------------------------------------------------------------
// Formatting helpers
// ---------------------------------------------------------------------------

/// A display form of a WhatsApp ID: group JIDs get a `group:` prefix, user
/// targets become E.164, anything unrecognized is returned unchanged.
pub open spec fn format_id_spec(s: Seq<char>) -> Seq<char> {
    if group_jid_spec(s) {
        "group:"@ + s
    } else {
        match normalize_target_spec(s) {
            Option::Some(n) => n,
            Option::None => s,
        }
    }
}

/// Format a WhatsApp ID for display.
pub fn format_whatsapp_id(id: &str) -> (r: String)
    ensures
        r@ == format_id_spec(id@),
{
    if is_whatsapp_group_jid(id) {
        proof {
            reveal_strlit("group:");
        }
        let mut out = chars_vec("group:");
        let ghost pre = out@;
        let rest = chars_vec(id);
        let mut i: usize = 0;
        while i < rest.len()
            invariant
                i <= rest@.len(),
                rest@ == id@,
                out@ == pre + rest@.subrange(0, i as int),
            decreases rest@.len() - i,
        {
            out.push(rest[i]);
            i = i + 1;
            proof {
                assert(out@ =~= pre + rest@.subrange(0, i as int));
            }
        }
        proof {
            assert(rest@.subrange(0, rest@.len() as int) =~= rest@);
        }
        return string_from_chars(out);
    }
    match normalize_whatsapp_target(id) {
        Option::Some(n) => n,
        Option::None => id.to_owned(),
    }
}

/// Return `true` if `id` is a WhatsApp group JID.
pub fn is_whatsapp_group(id: &str) -> (r: bool)
    ensures
        r == group_jid_spec(id@),
{
    is_whatsapp_group_jid(id)
}

/// Chat type: either a group or a single user.
#[derive(Debug, Clone, Copy, PartialEq, Eq, Structural)]
pub enum WhatsAppChatKind {
    Group,
    User,
}

/// The display word for a chat kind.
pub open spec fn chat_kind_str(k: WhatsAppChatKind) -> Seq<char> {
    match k {
        WhatsAppChatKind::Group => "group"@,
        WhatsAppChatKind::User => "user"@,
    }
}

impl WhatsAppChatKind {
    /// Return the string representation.
    pub fn as_str(&self) -> (r: &'static str)
        ensures
            r@ == chat_kind_str(*self),
    {
        match self {
            WhatsAppChatKind::Group => "group",
            WhatsAppChatKind::User => "user",
        }
    }
}

/// Get the chat type from a WhatsApp ID.
pub fn get_whatsapp_chat_type(id: &str) -> (r: WhatsAppChatKind)
    ensures
        r == (if group_jid_spec(id@) {
            WhatsAppChatKind::Group
        } else {
            WhatsAppChatKind::User
        }),
{
    if is_whatsapp_group_jid(id) {
        WhatsAppChatKind::Group
    } else {
        WhatsAppChatKind::User
    }
}

/// The sequence without its leading plus signs.
pub open spec fn drop_leading_plus(s: Seq<char>) -> Seq<char>
    decreases s.len(),
{
    if s.len() > 0 && s[0] == '+' {
        drop_leading_plus(s.drop_first())
    } else {
        s
    }
}

/// The leading plus signs end at the first other character.
proof fn lemma_drop_leading_plus(s: Seq<char>, k: int)
    requires
        0 <= k <= s.len(),
        forall|j: int| 0 <= j < k ==> (#[trigger] s[j]) == '+',
        k == s.len() || s[k] != '+',
    ensures
        drop_leading_plus(s) == s.subrange(k, s.len() as int),
    decreases k,
{
    if k > 0 {
        lemma_drop_leading_plus(s.drop_first(), k - 1);
        assert(s.drop_first().subrange(k - 1, s.drop_first().len() as int) =~= s.subrange(
            k,
            s.len() as int,
        ));
    } else {
        assert(s.subrange(0, s.len() as int) =~= s);
    }
}

/// A copy of the vector without its leading plus signs.
fn drop_leading_plus_exec(v: &Vec<char>) -> (r: Vec<char>)
    ensures
        r@ == drop_leading_plus(v@),
{
    let n = v.len();
    let mut a: usize = 0;
    while a < n && v[a] == '+'
        invariant
            a <= n,
            n == v@.len(),
            forall|j: int| 0 <= j < a ==> (#[trigger] v@[j]) == '+',
        decreases n - a,
    {
        a = a + 1;
    }
    proof {
        lemma_drop_leading_plus(v@, a as int);
    }
    sub_chars(v, a, n)
}

/// A user JID built from a phone number: the E.164 digits (without `+`)
/// followed by `@s.whatsapp.net`.
pub open spec fn build_user_jid_spec(s: Seq<char>) -> Seq<char> {
    drop_leading_plus(e164_spec(s)) + "@s.whatsapp.net"@
}

/// Build a WhatsApp user JID from a phone number.
pub fn build_whatsapp_user_jid(phone_number: &str) -> (r: String)
    ensures
        r@ == build_user_jid_spec(phone_number@),
{
    let v = chars_vec(phone_number);
    let normalized = normalize_e164_chars(&v);
    let digits = drop_leading_plus_exec(&normalized);
    let s = string_from_chars(digits);
    let r = s.concat("@s.whatsapp.net");
    r
}

// ---------------------------------------------------------------------------
// Text chunking
// ---------------------------------------------------------------------------

/// Default character limit for a single WhatsApp text message.
pub const WHATSAPP_TEXT_CHUNK_LIMIT: usize = 4096;

/// The last position `i` with `i + 2 <= n`, `s[i] == a` and `s[i+1] == b`,
/// or `-1` when there is none.
pub open spec fn last_pos2(s: Seq<char>, a: char, b: char, n: int) -> int
    decreases n,
{
    if n < 2 {
        -1
    } else if s[n - 2] == a && s[n - 1] == b {
        n - 2
    } else {
        last_pos2(s, a, b, n - 1)
    }
}

/// The last position `i < n` with `s[i] == a`, or `-1` when there is none.
pub open spec fn last_pos1(s: Seq<char>, a: char, n: int) -> int
    decreases n,
{
    if n < 1 {
        -1
    } else if s[n - 1] == a {
        n - 1
    } else {
        last_pos1(s, a, n - 1)
    }
}

proof fn lemma_last_pos2_bounds(s: Seq<char>, a: char, b: char, n: int)
    ensures
        last_pos2(s, a, b, n) == -1 || (0 <= last_pos2(s, a, b, n) <= n - 2),
    decreases n,
{
    if n >= 2 && !(s[n - 2] == a && s[n - 1] == b) {
        lemma_last_pos2_bounds(s, a, b, n - 1);
    }
}

proof fn lemma_last_pos1_bounds(s: Seq<char>, a: char, n: int)
    ensures
        last_pos1(s, a, n) == -1 || (0 <= last_pos1(s, a, n) <= n - 1),
    decreases n,
{
    if n >= 1 && s[n - 1] != a {
        lemma_last_pos1_bounds(s, a, n - 1);
    }
}

/// The larger of two break positions (with `-1` for "none").
pub open spec fn pos_max(x: int, y: int) -> int {
    if x >= y {
        x
    } else {
        y
    }
}

/// One split step: text within the limit is one chunk; otherwise the text is
/// split at the last paragraph break, line break, sentence end, or word
/// boundary past the midpoint, or hard-broken at the limit; the cut ends are
/// trimmed toward the cut.
pub open spec fn split_spec(text: Seq<char>, limit: int) -> (Seq<char>, Seq<char>) {
    if text.len() <= limit {
        (text, Seq::<char>::empty())
    } else {
        let half = limit / 2;
        let p2 = last_pos2(text, '\n', '\n', limit);
        let p1 = last_pos1(text, '\n', limit);
        let ps = pos_max(
            pos_max(last_pos2(text, '.', ' ', limit), last_pos2(text, '!', ' ', limit)),
            last_pos2(text, '?', ' ', limit),
        );
        let pw = last_pos1(text, ' ', limit);
        if p2 > half {
            (
                trim_end_spec(text.subrange(0, p2)),
                trim_start_spec(text.subrange(p2 + 2, text.len() as int)),
            )
        } else if p1 > half {
            (
                trim_end_spec(text.subrange(0, p1)),
                trim_start_spec(text.subrange(p1 + 1, text.len() as int)),
            )
        } else if ps > half {
            (
                trim_end_spec(text.subrange(0, ps + 1)),
                trim_start_spec(text.subrange(ps + 2, text.len() as int)),
            )
        } else if pw > half {
            (
                trim_end_spec(text.subrange(0, pw)),
                trim_start_spec(text.subrange(pw + 1, text.len() as int)),
            )
        } else {
            (text.subrange(0, limit), text.subrange(limit, text.len() as int))
        }
    }
}

/// Splitting non-empty text leaves a strictly shorter remainder.
proof fn lemma_split_shrinks(text: Seq<char>, limit: int)
    requires
        limit >= 1,
        text.len() > 0,
    ensures
        split_spec(text, limit).1.len() < text.len(),
{
    if text.len() > limit {
        let half = limit / 2;
        lemma_last_pos2_bounds(text, '\n', '\n', limit);
        lemma_last_pos1_bounds(text, '\n', limit);
        lemma_last_pos2_bounds(text, '.', ' ', limit);
        lemma_last_pos2_bounds(text, '!', ' ', limit);
        lemma_last_pos2_bounds(text, '?', ' ', limit);
        lemma_last_pos1_bounds(text, ' ', limit);
        let p2 = last_pos2(text, '\n', '\n', limit);
        let p1 = last_pos1(text, '\n', limit);
        let ps = pos_max(
            pos_max(last_pos2(text, '.', ' ', limit), last_pos2(text, '!', ' ', limit)),
            last_pos2(text, '?', ' ', limit),
        );
        let pw = last_pos1(text, ' ', limit);
        if p2 > half {
            crate::text::lemma_trim_start_len(text.subrange(p2 + 2, text.len() as int));
        } else if p1 > half {
            crate::text::lemma_trim_start_len(text.subrange(p1 + 1, text.len() as int));
        } else if ps > half {
            crate::text::lemma_trim_start_len(text.subrange(ps + 2, text.len() as int));
        } else if pw > half {
            crate::text::lemma_trim_start_len(text.subrange(pw + 1, text.len() as int));
        }
    }
}

#[via_fn]
proof fn chunks_of_decreases(text: Seq<char>, limit: int) {
    if text.len() > 0 {
        lemma_split_shrinks(text, limit);
    }
}

/// The chunks of over-long text: split off one chunk at a time, keeping the
/// non-empty chunks.
pub open spec fn chunks_of(text: Seq<char>, limit: int) -> Seq<Seq<char>>
    decreases text.len(),
    when limit >= 1
    via chunks_of_decreases
{
    if text.len() == 0 {
        Seq::empty()
    } else {
        let step = split_spec(text, limit);
        if step.0.len() > 0 {
            seq![step.0] + chunks_of(step.1, limit)
        } else {
            chunks_of(step.1, limit)
        }
    }
}

/// The effective chunk limit: the caller's, or the WhatsApp default.
pub open spec fn chunk_limit_spec(limit: Option<usize>) -> int {
    match limit {
        Option::Some(l) => l as int,
        Option::None => WHATSAPP_TEXT_CHUNK_LIMIT as int,
    }
}

/// The chunks of a text: empty for blank input, the trimmed text itself when
/// it fits, else the split chunks.
pub open spec fn chunk_text_spec(text: Seq<char>, limit: int) -> Seq<Seq<char>> {
    let t = trim_spec(text);
    if t.len() == 0 {
        Seq::empty()
    } else if t.len() <= limit {
        seq![t]
    } else {
        chunks_of(t, limit)
    }
}

/// Every chunk is non-empty and within the limit.
pub proof fn lemma_chunk_bounds(text: Seq<char>, limit: int)
    requires
        limit >= 1,
    ensures
        forall|i: int|
            0 <= i < chunk_text_spec(text, limit).len() ==> 0 < (
            #[trigger] chunk_text_spec(text, limit)[i]).len() <= limit,
{
    let t = trim_spec(text);
    if t.len() > limit {
        lemma_chunks_of_bounds(t, limit);
    }
}

proof fn lemma_chunks_of_bounds(text: Seq<char>, limit: int)
    requires
        limit >= 1,
    ensures
        forall|i: int|
            0 <= i < chunks_of(text, limit).len() ==> 0 < (#[trigger] chunks_of(text, limit)[i])
                .len() <= limit,
    decreases text.len(),
{
    if text.len() > 0 {
        let step = split_spec(text, limit);
        lemma_split_shrinks(text, limit);
        lemma_split_chunk_len(text, limit);
        lemma_chunks_of_bounds(step.1, limit);
        if step.0.len() > 0 {
            assert(chunks_of(text, limit) == seq![step.0] + chunks_of(step.1, limit));
        }
    }
}

/// The chunk a split produces never exceeds the limit.
proof fn lemma_split_chunk_len(text: Seq<char>, limit: int)
    requires
        limit >= 1,
    ensures
        text.len() <= limit ==> split_spec(text, limit).0.len() == text.len(),
        text.len() > limit ==> split_spec(text, limit).0.len() <= limit,
{
    if text.len() > limit {
        let half = limit / 2;
        lemma_last_pos2_bounds(text, '\n', '\n', limit);
        lemma_last_pos1_bounds(text, '\n', limit);
        lemma_last_pos2_bounds(text, '.', ' ', limit);
        lemma_last_pos2_bounds(text, '!', ' ', limit);
        lemma_last_pos2_bounds(text, '?', ' ', limit);
        lemma_last_pos1_bounds(text, ' ', limit);
        let p2 = last_pos2(text, '\n', '\n', limit);
        let p1 = last_pos1(text, '\n', limit);
        let ps = pos_max(
            pos_max(last_pos2(text, '.', ' ', limit), last_pos2(text, '!', ' ', limit)),
            last_pos2(text, '?', ' ', limit),
        );
        let pw = last_pos1(text, ' ', limit);
        if p2 > half {
            crate::text::lemma_trim_end_len(text.subrange(0, p2));
        } else if p1 > half {
            crate::text::lemma_trim_end_len(text.subrange(0, p1));
        } else if ps > half {
            crate::text::lemma_trim_end_len(text.subrange(0, ps + 1));
        } else if pw > half {
            crate::text::lemma_trim_end_len(text.subrange(0, pw));
        }
    }
}

/// The last match of a two-character pattern before `n`.
fn find_last2(v: &Vec<char>, a: char, b: char, n: usize) -> (r: Option<usize>)
    requires
        n <= v@.len(),
    ensures
        match r {
            Option::Some(i) => last_pos2(v@, a, b, n as int) == i as int,
            Option::None => last_pos2(v@, a, b, n as int) == -1,
        },
{
    let mut m = n;
    while m >= 2
        invariant
            m <= n <= v@.len(),
            last_pos2(v@, a, b, n as int) == last_pos2(v@, a, b, m as int),
        decreases m,
    {
        if v[m - 2] == a && v[m - 1] == b {
            return Option::Some(m - 2);
        }
        m = m - 1;
    }
    Option::None
}

/// The last match of a single character before `n`.
fn find_last1(v: &Vec<char>, a: char, n: usize) -> (r: Option<usize>)
    requires
        n <= v@.len(),
    ensures
        match r {
            Option::Some(i) => last_pos1(v@, a, n as int) == i as int,
            Option::None => last_pos1(v@, a, n as int) == -1,
        },
{
    let mut m = n;
    while m >= 1
        invariant
            m <= n <= v@.len(),
            last_pos1(v@, a, n as int) == last_pos1(v@, a, m as int),
        decreases m,
    {
        if v[m - 1] == a {
            return Option::Some(m - 1);
        }
        m = m - 1;
    }
    Option::None
}

/// The spec value of a possibly absent break position.
pub open spec fn pos_of(o: Option<usize>) -> int {
    match o {
        Option::Some(i) => i as int,
        Option::None => -1,
    }
}

/// The later of two optional break positions.
fn later_pos(x: Option<usize>, y: Option<usize>) -> (r: Option<usize>)
    ensures
        pos_of(r) == pos_max(pos_of(x), pos_of(y)),
{
    match (x, y) {
        (Option::Some(i), Option::Some(j)) => if i >= j {
            Option::Some(i)
        } else {
            Option::Some(j)
        },
        (Option::Some(i), Option::None) => Option::Some(i),
        (Option::None, Option::Some(j)) => Option::Some(j),
        (Option::None, Option::None) => Option::None,
    }
}

/// Split text at the last safe break point within `limit`, returning the
/// chunk and the remainder.
fn split_at_break_point(text: &Vec<char>, limit: usize) -> (r: (Vec<char>, Vec<char>))
    requires
        limit >= 1,
    ensures
        r.0@ == split_spec(text@, limit as int).0,
        r.1@ == split_spec(text@, limit as int).1,
        text@.len() > 0 ==> r.1@.len() < text@.len(),
{
    proof {
        if text@.len() > 0 {
            lemma_split_shrinks(text@, limit as int);
        }
    }
    let n = text.len();
    if n <= limit {
        return (sub_chars(text, 0, n), Vec::new());
    }
    let half = limit / 2;

    // Prefer paragraph breaks.
    if let Option::Some(i) = find_last2(text, '\n', '\n', limit) {
        if i > half {
            proof {
                lemma_last_pos2_bounds(text@, '\n', '\n', limit as int);
            }
            return (
                trim_end_chars(&sub_chars(text, 0, i)),
                trim_start_chars(&sub_chars(text, i + 2, n)),
            );
        }
    }

    // Single line breaks.
    if let Option::Some(i) = find_last1(text, '\n', limit) {
        if i > half {
            proof {
                lemma_last_pos1_bounds(text@, '\n', limit as int);
            }
            return (
                trim_end_chars(&sub_chars(text, 0, i)),
                trim_start_chars(&sub_chars(text, i + 1, n)),
            );
        }
    }

    // Sentence boundaries.
    let pd = find_last2(text, '.', ' ', limit);
    let pe = find_last2(text, '!', ' ', limit);
    let pq = find_last2(text, '?', ' ', limit);
    if let Option::Some(i) = later_pos(later_pos(pd, pe), pq) {
        if i > half {
            proof {
                lemma_last_pos2_bounds(text@, '.', ' ', limit as int);
                lemma_last_pos2_bounds(text@, '!', ' ', limit as int);
                lemma_last_pos2_bounds(text@, '?', ' ', limit as int);
            }
            return (
                trim_end_chars(&sub_chars(text, 0, i + 1)),
                trim_start_chars(&sub_chars(text, i + 2, n)),
            );
        }
    }

    // Word boundaries.
    if let Option::Some(i) = find_last1(text, ' ', limit) {
        if i > half {
            proof {
                lemma_last_pos1_bounds(text@, ' ', limit as int);
            }
            return (
                trim_end_chars(&sub_chars(text, 0, i)),
                trim_start_chars(&sub_chars(text, i + 1, n)),
            );
        }
    }

    // Hard break.
    (sub_chars(text, 0, limit), sub_chars(text, limit, n))
}

/// Chunk text for WhatsApp messages.
///
/// Splits intelligently at paragraph, line, sentence, and word boundaries;
/// blank input gives no chunks. A caller-supplied limit must be positive
/// (with a zero limit no split could ever make progress).
pub fn chunk_whatsapp_text(text: &str, limit: Option<usize>) -> (r: Vec<String>)
    requires
        limit matches Option::Some(l) ==> l >= 1,
    ensures
        r.deep_view() == chunk_text_spec(text@, chunk_limit_spec(limit)),
{
    let effective_limit = match limit {
        Option::Some(l) => l,
        Option::None => WHATSAPP_TEXT_CHUNK_LIMIT,
    };
    let ghost lim = chunk_limit_spec(limit);
    proof {
        assert(effective_limit as int == lim);
    }

    let v = chars_vec(text);
    let trimmed = trim_chars(&v);
    if trimmed.len() == 0 {
        let r: Vec<String> = Vec::new();
        proof {
            assert(r.deep_view() =~= chunk_text_spec(text@, lim));
        }
        return r;
    }

    if trimmed.len() <= effective_limit {
        let ghost t = trimmed@;
        let mut r: Vec<String> = Vec::new();
        r.push(string_from_chars(trimmed));
        proof {
            assert(r.deep_view() =~= seq![t]);
        }
        return r;
    }

    let ghost t = trimmed@;
    let mut chunks: Vec<String> = Vec::new();
    let mut remaining = trimmed;
    while remaining.len() > 0
        invariant
            lim >= 1,
            effective_limit as int == lim,
            chunk_text_spec(text@, lim) == chunks.deep_view() + chunks_of(remaining@, lim),
        decreases remaining@.len(),
    {
        let ghost before = remaining@;
        let ghost chunks_before = chunks.deep_view();
        let (chunk, rest) = split_at_break_point(&remaining, effective_limit);
        let ghost cv = chunk@;
        proof {
            assert(cv == split_spec(before, lim).0);
            assert(rest@ == split_spec(before, lim).1);
            if cv.len() > 0 {
                assert(chunks_of(before, lim) == seq![cv] + chunks_of(rest@, lim));
            } else {
                assert(chunks_of(before, lim) == chunks_of(rest@, lim));
            }
        }
        if chunk.len() > 0 {
            chunks.push(string_from_chars(chunk));
            proof {
                assert(chunks.deep_view() =~= chunks_before.push(cv));
                assert(chunks_before + (seq![cv] + chunks_of(rest@, lim)) =~= chunks_before.push(
                    cv,
                ) + chunks_of(rest@, lim));
            }
        }
        remaining = rest;
    }
    proof {
        assert(chunks_of(remaining@, lim) =~= Seq::<Seq<char>>::empty());
        assert(chunks.deep_view() + Seq::<Seq<char>>::empty() =~= chunks.deep_view());
    }
    chunks
}

// ---------------------------------------------------------------------------
// Truncation
// ---------------------------------------------------------------------------

/// Text cut to `max` characters, with a (possibly cut) `...` marker when
/// anything was removed.
pub open spec fn truncate_spec(s: Seq<char>, max: int) -> Seq<char> {
    if s.len() <= max {
        s
    } else if max <= 3 {
        "..."@.subrange(0, max)
    } else {
        s.subrange(0, max - 3) + "..."@
    }
}

/// Truncate text to `max_length` characters, appending `...` if cut.
pub fn truncate_text(text: &str, max_length: usize) -> (r: String)
    ensures
        r@ == truncate_spec(text@, max_length as int),
{
    let v = chars_vec(text);
    let n = v.len();
    if n <= max_length {
        return string_from_chars(v);
    }
    proof {
        reveal_strlit("...");
    }
    if max_length <= 3 {
        let mut r: Vec<char> = Vec::new();
        let mut i: usize = 0;
        while i < max_length
            invariant
                i <= max_length,
                max_length <= 3,
                r@.len() == i,
                forall|j: int| 0 <= j < i ==> r@[j] == '.',
            decreases max_length - i,
        {
            r.push('.');
            i = i + 1;
        }
        proof {
            assert(r@ =~= "..."@.subrange(0, max_length as int));
        }
        return string_from_chars(r);
    }
    let mut r = sub_chars(&v, 0, max_length - 3);
    let ghost head = r@;
    r.push('.');
    r.push('.');
    r.push('.');
    proof {
        assert(r@ =~= head + "..."@);
    }
    string_from_chars(r)
}

// ---------------------------------------------------------------------------
// System location
// ---------------------------------------------------------------------------

/// The human-readable location of a chat: `WhatsApp <kind>:<name>`, where
/// the name falls back to the first eight characters of the chat id.
pub open spec fn location_spec(
    kind: WhatsAppChatKind,
    chat_id: Seq<char>,
    chat_name: Option<Seq<char>>,
) -> Seq<char> {
    let name = match chat_name {
        Option::Some(n) => n,
        Option::None => if chat_id.len() >= 8 {
            chat_id.subrange(0, 8)
        } else {
            chat_id
        },
    };
    "WhatsApp "@ + chat_kind_str(kind) + ":"@ + name
}

/// Build a human-readable system location string for logging.
pub fn resolve_whatsapp_system_location(
    chat_type: WhatsAppChatKind,
    chat_id: &str,
    chat_name: Option<&str>,
) -> (r: String)
    ensures
        r@ == location_spec(chat_type, chat_id@, chat_name.deep_view()),
{
    let prefix = String::from_str("WhatsApp ");
    let with_kind = prefix.concat(chat_type.as_str());
    let with_colon = with_kind.concat(":");
    match chat_name {
        Option::Some(name) => with_colon.concat(name),
        Option::None => {
            let n = chat_id.unicode_len();
            if n >= 8 {
                let head = chat_id.substring_char(0, 8);
                with_colon.concat(head)
            } else {
                with_colon.concat(chat_id)
            }
        },
    }
}

// ---------------------------------------------------------------------------
// Phone validation / formatting
// ---------------------------------------------------------------------------

/// Whether a value normalizes to a valid WhatsApp phone number: an E.164
/// string of ten to fifteen digits after the `+`.
pub open spec fn valid_number_spec(s: Seq<char>) -> bool {
    match normalize_target_spec(s) {
        Option::Some(n) => n.len() > 0 && n[0] == '+' && ({
            let d = drop_leading_plus(n);
            10 <= d.len() <= 15 && forall|i: int| 0 <= i < d.len() ==> is_digit_char(
                #[trigger] d[i],
            )
        }),
        Option::None => false,
    }
}

/// Return `true` if `value` normalizes to a valid WhatsApp phone number.
pub fn is_valid_whatsapp_number(value: &str) -> (r: bool)
    ensures
        r == valid_number_spec(value@),
{
    let normalized = match normalize_whatsapp_target(value) {
        Option::Some(n) => n,
        Option::None => {
            return false;
        },
    };
    let v = chars_vec(normalized.as_str());
    if v.len() == 0 || v[0] != '+' {
        return false;
    }
    let digits = drop_leading_plus_exec(&v);
    let len = digits.len();
    len >= 10 && len <= 15 && all_digits_exec(&digits)
}

/// A phone number formatted for display: numbers longer than ten digits are
/// split into country code and three local groups.
pub open spec fn format_phone_spec(s: Seq<char>) -> Seq<char> {
    let n = e164_spec(s);
    if n.len() == 0 {
        s
    } else {
        let d = drop_leading_plus(n);
        if d.len() <= 10 {
            n
        } else {
            let cc = d.len() - 10;
            seq!['+'] + d.subrange(0, cc) + " "@ + d.subrange(cc, cc + 3) + " "@ + d.subrange(
                cc + 3,
                cc + 6,
            ) + " "@ + d.subrange(cc + 6, d.len() as int)
        }
    }
}

/// Format a phone number for WhatsApp display.
pub fn format_whatsapp_phone_number(phone_number: &str) -> (r: String)
    ensures
        r@ == format_phone_spec(phone_number@),
{
    let v = chars_vec(phone_number);
    let normalized = normalize_e164_chars(&v);
    if normalized.len() == 0 {
        return phone_number.to_owned();
    }
    let digits = drop_leading_plus_exec(&normalized);
    let dn = digits.len();
    if dn <= 10 {
        return string_from_chars(normalized);
    }
    let cc = dn - 10;
    proof {
        reveal_strlit(" ");
    }
    let mut out: Vec<char> = Vec::new();
    out.push('+');
    let ghost d = digits@;
    let part1 = sub_chars(&digits, 0, cc);
    let part2 = sub_chars(&digits, cc, cc + 3);
    let part3 = sub_chars(&digits, cc + 3, cc + 6);
    let part4 = sub_chars(&digits, cc + 6, dn);
    let mut out = append_chars(out, &part1);
    out.push(' ');
    let mut out = append_chars(out, &part2);
    out.push(' ');
    let mut out = append_chars(out, &part3);
    out.push(' ');
    let out = append_chars(out, &part4);
    proof {
        assert(out@ =~= seq!['+'] + d.subrange(0, cc as int) + " "@ + d.subrange(
            cc as int,
            cc + 3,
        ) + " "@ + d.subrange(cc + 3, cc + 6) + " "@ + d.subrange(cc + 6, d.len() as int));
    }
    string_from_chars(out)
}

} // verus!

