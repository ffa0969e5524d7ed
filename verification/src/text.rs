//! Character-level text primitives: the whitespace set, ASCII lowercasing,
//! trimming, and conversions between `&str`, `Vec<char>` and `String` that the
//! rest of the library builds on.

use vstd::prelude::*;

verus! {

/// The whitespace characters recognized when trimming identifiers.
pub open spec fn is_space_char(c: char) -> bool {
    c == ' ' || c == '\t' || c == '\n' || c == '\r' || c == '\x0c'
}

/// ASCII uppercase letters map to their lowercase form; all else is unchanged.
pub open spec fn lower_char_spec(c: char) -> char {
    if 'A' <= c && c <= 'Z' {
        ((c as u8) + 32) as char
    } else {
        c
    }
}

/// A sequence lowercased character by character.
pub open spec fn to_lower_spec(s: Seq<char>) -> Seq<char> {
    Seq::new(s.len(), |i: int| lower_char_spec(s[i]))
}

/// Leading whitespace removed.
pub open spec fn trim_start_spec(s: Seq<char>) -> Seq<char>
    decreases s.len(),
{
    if s.len() > 0 && is_space_char(s[0]) {
        trim_start_spec(s.drop_first())
    } else {
        s
    }
}

/// Trailing whitespace removed.
pub open spec fn trim_end_spec(s: Seq<char>) -> Seq<char>
    decreases s.len(),
{
    if s.len() > 0 && is_space_char(s.last()) {
        trim_end_spec(s.drop_last())
    } else {
        s
    }
}

/// Whitespace removed from both ends.
pub open spec fn trim_spec(s: Seq<char>) -> Seq<char> {
    trim_end_spec(trim_start_spec(s))
}

/// Whether an element equal to `x` occurs in `l`.
pub open spec fn seq_contains_str(l: Seq<Seq<char>>, x: Seq<char>) -> bool {
    exists|i: int| 0 <= i < l.len() && l[i] == x
}

/// Dropping a whitespace prefix does not change the trimmed-start form.
pub proof fn lemma_trim_start_skip(s: Seq<char>, k: int)
    requires
        0 <= k <= s.len(),
        forall|j: int| 0 <= j < k ==> is_space_char(s[j]),
    ensures
        trim_start_spec(s) == trim_start_spec(s.subrange(k, s.len() as int)),
    decreases k,
{
    if k > 0 {
        assert(trim_start_spec(s) == trim_start_spec(s.drop_first()));
        assert(s.drop_first().subrange(k - 1, s.drop_first().len() as int) =~= s.subrange(
            k,
            s.len() as int,
        ));
        lemma_trim_start_skip(s.drop_first(), k - 1);
    } else {
        assert(s.subrange(0, s.len() as int) =~= s);
    }
}

/// A sequence that does not start with whitespace is already start-trimmed.
pub proof fn lemma_trim_start_fixed(s: Seq<char>)
    requires
        s.len() == 0 || !is_space_char(s[0]),
    ensures
        trim_start_spec(s) == s,
{
}

/// Dropping a whitespace suffix does not change the trimmed-end form.
pub proof fn lemma_trim_end_skip(s: Seq<char>, k: int)
    requires
        0 <= k <= s.len(),
        forall|j: int| k <= j < s.len() ==> is_space_char(s[j]),
    ensures
        trim_end_spec(s) == trim_end_spec(s.subrange(0, k)),
    decreases s.len() - k,
{
    if k < s.len() {
        assert(is_space_char(s.last()));
        assert(trim_end_spec(s) == trim_end_spec(s.drop_last()));
        assert(s.drop_last() =~= s.subrange(0, s.len() - 1));
        lemma_trim_end_skip(s.drop_last(), k);
        assert(s.drop_last().subrange(0, k) =~= s.subrange(0, k));
    } else {
        assert(s.subrange(0, s.len() as int) =~= s);
    }
}

/// A sequence that does not end with whitespace is already end-trimmed.
pub proof fn lemma_trim_end_fixed(s: Seq<char>)
    requires
        s.len() == 0 || !is_space_char(s.last()),
    ensures
        trim_end_spec(s) == s,
{
}

/// The start-trimmed form of `s` is `s` without its whitespace prefix.
pub proof fn lemma_trim_start_is_subrange(s: Seq<char>, a: int)
    requires
        0 <= a <= s.len(),
        forall|j: int| 0 <= j < a ==> is_space_char(s[j]),
        a == s.len() || !is_space_char(s[a]),
    ensures
        trim_start_spec(s) == s.subrange(a, s.len() as int),
{
    lemma_trim_start_skip(s, a);
    lemma_trim_start_fixed(s.subrange(a, s.len() as int));
}

/// The end-trimmed form of `s` is `s` without its whitespace suffix.
pub proof fn lemma_trim_end_is_subrange(s: Seq<char>, b: int)
    requires
        0 <= b <= s.len(),
        forall|j: int| b <= j < s.len() ==> is_space_char(s[j]),
        b == 0 || !is_space_char(s[b - 1]),
    ensures
        trim_end_spec(s) == s.subrange(0, b),
{
    lemma_trim_end_skip(s, b);
    lemma_trim_end_fixed(s.subrange(0, b));
}

/// Start-trimming never introduces a whitespace head, and end-trimming keeps
/// a prefix of its input; together: a trimmed sequence is empty or bounded by
/// non-whitespace characters.
pub proof fn lemma_trim_bounds(s: Seq<char>)
    ensures
        trim_spec(s).len() > 0 ==> !is_space_char(trim_spec(s)[0]),
        trim_spec(s).len() > 0 ==> !is_space_char(trim_spec(s).last()),
    decreases s.len(),
{
    let t = trim_start_spec(s);
    lemma_trim_start_no_leading(s);
    lemma_trim_end_prefix(t);
    let r = trim_end_spec(t);
    if r.len() > 0 {
        assert(r[0] == t[0]);
        lemma_trim_end_no_trailing(t);
    }
}

/// The start-trimmed form never begins with whitespace.
pub proof fn lemma_trim_start_no_leading(s: Seq<char>)
    ensures
        trim_start_spec(s).len() > 0 ==> !is_space_char(trim_start_spec(s)[0]),
    decreases s.len(),
{
    if s.len() > 0 && is_space_char(s[0]) {
        lemma_trim_start_no_leading(s.drop_first());
    }
}

/// The end-trimmed form never ends with whitespace.
pub proof fn lemma_trim_end_no_trailing(s: Seq<char>)
    ensures
        trim_end_spec(s).len() > 0 ==> !is_space_char(trim_end_spec(s).last()),
    decreases s.len(),
{
    if s.len() > 0 && is_space_char(s.last()) {
        lemma_trim_end_no_trailing(s.drop_last());
    }
}

/// The end-trimmed form is a prefix of the input.
pub proof fn lemma_trim_end_prefix(s: Seq<char>)
    ensures
        trim_end_spec(s).len() <= s.len(),
        forall|j: int|
            0 <= j < trim_end_spec(s).len() ==> trim_end_spec(s)[j] == s[j],
    decreases s.len(),
{
    if s.len() > 0 && is_space_char(s.last()) {
        lemma_trim_end_prefix(s.drop_last());
        assert(forall|j: int|
            0 <= j < trim_end_spec(s).len() ==> #[trigger] trim_end_spec(s)[j]
                == s.drop_last()[j] == s[j]);
    }
}

/// Trimming at the start never lengthens a sequence.
pub proof fn lemma_trim_start_len(s: Seq<char>)
    ensures
        trim_start_spec(s).len() <= s.len(),
    decreases s.len(),
{
    if s.len() > 0 && is_space_char(s[0]) {
        lemma_trim_start_len(s.drop_first());
    }
}

/// Trimming at the end never lengthens a sequence.
pub proof fn lemma_trim_end_len(s: Seq<char>)
    ensures
        trim_end_spec(s).len() <= s.len(),
    decreases s.len(),
{
    if s.len() > 0 && is_space_char(s.last()) {
        lemma_trim_end_len(s.drop_last());
    }
}

/// Trimming never lengthens a sequence.
pub proof fn lemma_trim_len(s: Seq<char>)
    ensures
        trim_spec(s).len() <= s.len(),
{
    lemma_trim_start_len(s);
    lemma_trim_end_len(trim_start_spec(s));
}

/// Trimming is idempotent.
pub proof fn lemma_trim_idempotent(s: Seq<char>)
    ensures
        trim_spec(trim_spec(s)) == trim_spec(s),
{
    let t = trim_spec(s);
    lemma_trim_bounds(s);
    lemma_trim_start_fixed(t);
    lemma_trim_end_fixed(t);
}

/// Lowercasing is idempotent.
pub proof fn lemma_lower_idempotent(s: Seq<char>)
    ensures
        to_lower_spec(to_lower_spec(s)) == to_lower_spec(s),
{
    assert(to_lower_spec(to_lower_spec(s)) =~= to_lower_spec(s));
}

/// Lowercasing maps whitespace to itself and non-whitespace to non-whitespace.
pub proof fn lemma_lower_preserves_space(c: char)
    ensures
        is_space_char(lower_char_spec(c)) == is_space_char(c),
{
}

/// Lowercasing commutes with trimming.
pub proof fn lemma_lower_trim_commute(s: Seq<char>)
    ensures
        trim_spec(to_lower_spec(s)) == to_lower_spec(trim_spec(s)),
{
    lemma_lower_trim_start_commute(s);
    lemma_lower_trim_end_commute(trim_start_spec(s));
    assert(to_lower_spec(trim_start_spec(s)) == trim_start_spec(to_lower_spec(s)));
}

proof fn lemma_lower_trim_start_commute(s: Seq<char>)
    ensures
        trim_start_spec(to_lower_spec(s)) == to_lower_spec(trim_start_spec(s)),
    decreases s.len(),
{
    if s.len() > 0 && is_space_char(s[0]) {
        lemma_lower_preserves_space(s[0]);
        assert(to_lower_spec(s).drop_first() =~= to_lower_spec(s.drop_first()));
        lemma_lower_trim_start_commute(s.drop_first());
    } else if s.len() > 0 {
        lemma_lower_preserves_space(s[0]);
        assert(to_lower_spec(s)[0] == lower_char_spec(s[0]));
        lemma_trim_start_fixed(to_lower_spec(s));
    } else {
        assert(to_lower_spec(s) =~= s);
    }
}

proof fn lemma_lower_trim_end_commute(s: Seq<char>)
    ensures
        trim_end_spec(to_lower_spec(s)) == to_lower_spec(trim_end_spec(s)),
    decreases s.len(),
{
    if s.len() > 0 && is_space_char(s.last()) {
        lemma_lower_preserves_space(s.last());
        assert(to_lower_spec(s).last() == lower_char_spec(s.last()));
        assert(to_lower_spec(s).drop_last() =~= to_lower_spec(s.drop_last()));
        lemma_lower_trim_end_commute(s.drop_last());
    } else if s.len() > 0 {
        lemma_lower_preserves_space(s.last());
        assert(to_lower_spec(s).last() == lower_char_spec(s.last()));
        lemma_trim_end_fixed(to_lower_spec(s));
    } else {
        assert(to_lower_spec(s) =~= s);
    }
}

// ---------------------------------------------------------------------------
// Lexicographic order on character sequences
// ---------------------------------------------------------------------------

/// Strict lexicographic order by code point; a proper prefix sorts first.
/// On UTF-8 text this coincides with the byte order of the encoded strings.
pub open spec fn lex_lt(a: Seq<char>, b: Seq<char>) -> bool
    decreases a.len(),
{
    if b.len() == 0 {
        false
    } else if a.len() == 0 {
        true
    } else if a[0] < b[0] {
        true
    } else if a[0] == b[0] {
        lex_lt(a.drop_first(), b.drop_first())
    } else {
        false
    }
}

/// The order is irreflexive.
pub proof fn lemma_lex_lt_irrefl(a: Seq<char>)
    ensures
        !lex_lt(a, a),
    decreases a.len(),
{
    if a.len() > 0 {
        lemma_lex_lt_irrefl(a.drop_first());
    }
}

/// The order is total: distinct sequences compare one way or the other.
pub proof fn lemma_lex_lt_connex(a: Seq<char>, b: Seq<char>)
    ensures
        a == b || lex_lt(a, b) || lex_lt(b, a),
    decreases a.len(),
{
    if a.len() > 0 && b.len() > 0 && a[0] == b[0] {
        lemma_lex_lt_connex(a.drop_first(), b.drop_first());
        if a.drop_first() == b.drop_first() {
            assert(forall|j: int| 1 <= j < a.len() ==> a[j] == a.drop_first()[j - 1]);
            assert(forall|j: int| 1 <= j < b.len() ==> b[j] == b.drop_first()[j - 1]);
            assert(a =~= b);
        }
    }
}

/// The order is transitive.
pub proof fn lemma_lex_lt_trans(a: Seq<char>, b: Seq<char>, c: Seq<char>)
    requires
        lex_lt(a, b),
        lex_lt(b, c),
    ensures
        lex_lt(a, c),
    decreases a.len(),
{
    if a.len() > 0 && b.len() > 0 && c.len() > 0 && a[0] == b[0] && b[0] == c[0] {
        lemma_lex_lt_trans(a.drop_first(), b.drop_first(), c.drop_first());
    }
}

/// The order is asymmetric.
pub proof fn lemma_lex_lt_asym(a: Seq<char>, b: Seq<char>)
    requires
        lex_lt(a, b),
    ensures
        !lex_lt(b, a),
        a != b,
{
    lemma_lex_lt_irrefl(a);
    if lex_lt(b, a) {
        lemma_lex_lt_trans(a, b, a);
    }
}

/// Exec comparison of two strings in the lexicographic order.
pub fn str_lex_lt(a: &str, b: &str) -> (r: bool)
    ensures
        r == lex_lt(a@, b@),
{
    let na = a.unicode_len();
    let nb = b.unicode_len();
    let mut i: usize = 0;
    proof {
        assert(a@.skip(0) =~= a@);
        assert(b@.skip(0) =~= b@);
    }
    while i < na && i < nb
        invariant
            i <= na,
            i <= nb,
            na == a@.len(),
            nb == b@.len(),
            lex_lt(a@, b@) == lex_lt(a@.skip(i as int), b@.skip(i as int)),
        decreases na - i,
    {
        let ca = a.get_char(i);
        let cb = b.get_char(i);
        if ca < cb {
            proof {
                assert(a@.skip(i as int)[0] == a@[i as int]);
                assert(b@.skip(i as int)[0] == b@[i as int]);
            }
            return true;
        }
        if cb < ca {
            proof {
                assert(a@.skip(i as int)[0] == a@[i as int]);
                assert(b@.skip(i as int)[0] == b@[i as int]);
            }
            return false;
        }
        i = i + 1;
        proof {
            assert(a@.skip(i as int) =~= a@.skip(i - 1).drop_first());
            assert(b@.skip(i as int) =~= b@.skip(i - 1).drop_first());
            assert(a@.skip(i - 1)[0] == a@[i - 1]);
            assert(b@.skip(i - 1)[0] == b@[i - 1]);
        }
    }
    proof {
        if i >= na {
            assert(a@.skip(i as int) =~= Seq::<char>::empty());
        }
        if i >= nb {
            assert(b@.skip(i as int) =~= Seq::<char>::empty());
        }
    }
    na < nb
}

/// Exec lowercasing of one character.
pub fn lower_char(c: char) -> (r: char)
    ensures
        r == lower_char_spec(c),
{
    if 'A' <= c && c <= 'Z' {
        ((c as u8) + 32) as char
    } else {
        c
    }
}

/// Exec test for the whitespace set.
pub fn is_space(c: char) -> (r: bool)
    ensures
        r == is_space_char(c),
{
    c == ' ' || c == '\t' || c == '\n' || c == '\r' || c == '\x0c'
}

/// The characters of a string slice, in order.
pub fn chars_vec(s: &str) -> (v: Vec<char>)
    ensures
        v@ == s@,
{
    let n = s.unicode_len();
    let mut v: Vec<char> = Vec::new();
    let mut i: usize = 0;
    while i < n
        invariant
            i <= n,
            n == s@.len(),
            v@ == s@.subrange(0, i as int),
        decreases n - i,
    {
        v.push(s.get_char(i));
        i = i + 1;
        proof {
            assert(v@ =~= s@.subrange(0, i as int));
        }
    }
    proof {
        assert(v@ =~= s@);
    }
    v
}

/// Relies on `<String as FromIterator<char>>::from_iter` (via `collect`):
/// the resulting string holds exactly the given characters, in order.
#[verifier::external_body]
pub fn string_from_chars(v: Vec<char>) -> (s: String)
    ensures
        s@ == v@,
{
    v.into_iter().collect()
}

/// Whitespace removed from both ends of a character vector.
pub fn trim_chars(v: &Vec<char>) -> (r: Vec<char>)
    ensures
        r@ == trim_spec(v@),
{
    let n = v.len();
    let mut a: usize = 0;
    while a < n && is_space(v[a])
        invariant
            a <= n,
            n == v@.len(),
            forall|j: int| 0 <= j < a ==> is_space_char(v@[j]),
        decreases n - a,
    {
        a = a + 1;
    }
    let mut b: usize = n;
    while b > a && is_space(v[b - 1])
        invariant
            a <= b <= n,
            n == v@.len(),
            forall|j: int| b <= j < n ==> is_space_char(v@[j]),
        decreases b,
    {
        b = b - 1;
    }
    let mut r: Vec<char> = Vec::new();
    let mut i: usize = a;
    while i < b
        invariant
            a <= i <= b <= n,
            n == v@.len(),
            r@ == v@.subrange(a as int, i as int),
        decreases b - i,
    {
        r.push(v[i]);
        i = i + 1;
        proof {
            assert(r@ =~= v@.subrange(a as int, i as int));
        }
    }
    proof {
        let s = v@;
        lemma_trim_start_is_subrange(s, a as int);
        let t = s.subrange(a as int, n as int);
        if b == a {
            // everything from `a` on is whitespace
            lemma_trim_end_skip(t, 0);
            assert(t.subrange(0, 0) =~= Seq::<char>::empty());
            assert(trim_spec(s) =~= r@);
        } else {
            lemma_trim_end_is_subrange(t, b - a);
            assert(t.subrange(0, b - a) =~= s.subrange(a as int, b as int));
            assert(r@ =~= trim_spec(s));
        }
    }
    r
}

/// A copy of the characters between two indices.
pub fn sub_chars(v: &Vec<char>, from: usize, to: usize) -> (r: Vec<char>)
    requires
        from <= to <= v@.len(),
    ensures
        r@ == v@.subrange(from as int, to as int),
{
    let mut r: Vec<char> = Vec::new();
    let mut i: usize = from;
    while i < to
        invariant
            from <= i <= to <= v@.len(),
            r@ == v@.subrange(from as int, i as int),
        decreases to - i,
    {
        r.push(v[i]);
        i = i + 1;
        proof {
            assert(r@ =~= v@.subrange(from as int, i as int));
        }
    }
    r
}

/// Whitespace removed from the start of a character vector.
pub fn trim_start_chars(v: &Vec<char>) -> (r: Vec<char>)
    ensures
        r@ == trim_start_spec(v@),
{
    let n = v.len();
    let mut a: usize = 0;
    while a < n && is_space(v[a])
        invariant
            a <= n,
            n == v@.len(),
            forall|j: int| 0 <= j < a ==> is_space_char(v@[j]),
        decreases n - a,
    {
        a = a + 1;
    }
    proof {
        lemma_trim_start_is_subrange(v@, a as int);
    }
    sub_chars(v, a, n)
}

/// Whitespace removed from the end of a character vector.
pub fn trim_end_chars(v: &Vec<char>) -> (r: Vec<char>)
    ensures
        r@ == trim_end_spec(v@),
{
    let n = v.len();
    let mut b: usize = n;
    while b > 0 && is_space(v[b - 1])
        invariant
            b <= n,
            n == v@.len(),
            forall|j: int| b <= j < n ==> is_space_char(v@[j]),
        decreases b,
    {
        b = b - 1;
    }
    proof {
        lemma_trim_end_is_subrange(v@, b as int);
    }
    sub_chars(v, 0, b)
}

/// One vector extended by the characters of another.
pub fn append_chars(base: Vec<char>, tail: &Vec<char>) -> (r: Vec<char>)
    ensures
        r@ == base@ + tail@,
{
    let mut r = base;
    let ghost b = r@;
    let n = tail.len();
    let mut i: usize = 0;
    while i < n
        invariant
            i <= n,
            n == tail@.len(),
            r@ == b + tail@.subrange(0, i as int),
        decreases n - i,
    {
        r.push(tail[i]);
        i = i + 1;
        proof {
            assert(r@ =~= b + tail@.subrange(0, i as int));
        }
    }
    proof {
        assert(tail@.subrange(0, n as int) =~= tail@);
    }
    r
}

/// Every character lowercased.
pub fn lower_chars(v: &Vec<char>) -> (r: Vec<char>)
    ensures
        r@ == to_lower_spec(v@),
{
    let n = v.len();
    let mut r: Vec<char> = Vec::new();
    let mut i: usize = 0;
    while i < n
        invariant
            i <= n,
            n == v@.len(),
            r@.len() == i,
            forall|j: int| 0 <= j < i ==> r@[j] == lower_char_spec(v@[j]),
        decreases n - i,
    {
        r.push(lower_char(v[i]));
        i = i + 1;
    }
    proof {
        assert(r@ =~= to_lower_spec(v@));
    }
    r
}

/// Whether a character vector spells the same text as a string slice.
pub fn chars_eq_str(v: &Vec<char>, s: &str) -> (r: bool)
    ensures
        r == (v@ == s@),
{
    let n = s.unicode_len();
    if v.len() != n {
        proof {
            assert(v@.len() != s@.len());
        }
        return false;
    }
    let mut i: usize = 0;
    while i < n
        invariant
            i <= n,
            n == s@.len(),
            v@.len() == n,
            forall|j: int| 0 <= j < i ==> v@[j] == s@[j],
        decreases n - i,
    {
        if v[i] != s.get_char(i) {
            proof {
                assert(v@[i as int] != s@[i as int]);
            }
            return false;
        }
        i = i + 1;
    }
    proof {
        assert(v@ =~= s@);
    }
    true
}

/// Whether two string slices spell the same text.
pub fn str_eq(a: &str, b: &str) -> (r: bool)
    ensures
        r == (a@ == b@),
{
    let n = a.unicode_len();
    if b.unicode_len() != n {
        proof {
            assert(a@.len() != b@.len());
        }
        return false;
    }
    let mut i: usize = 0;
    while i < n
        invariant
            i <= n,
            n == a@.len(),
            b@.len() == n,
            forall|j: int| 0 <= j < i ==> a@[j] == b@[j],
        decreases n - i,
    {
        if a.get_char(i) != b.get_char(i) {
            proof {
                assert(a@[i as int] != b@[i as int]);
            }
            return false;
        }
        i = i + 1;
    }
    proof {
        assert(a@ =~= b@);
    }
    true
}

/// Trimmed and lowercased copy of a string, as the library's identifier
/// normalization uses everywhere.
pub fn trim_lower(s: &str) -> (r: Vec<char>)
    ensures
        r@ == to_lower_spec(trim_spec(s@)),
{
    let v = chars_vec(s);
    let t = trim_chars(&v);
    lower_chars(&t)
}

/// Trimmed copy of a string, returned as an owned string.
pub fn trim_string(s: &str) -> (r: String)
    ensures
        r@ == trim_spec(s@),
{
    let v = chars_vec(s);
    let t = trim_chars(&v);
    string_from_chars(t)
}

} // verus!
