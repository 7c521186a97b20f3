//! Character and string primitives shared by the parsing and formatting
//! code: whitespace trimming, ASCII case folding, substring search and
//! decimal conversion, each specified over `Seq<char>` views.
use vstd::prelude::*;
use vstd::string::StrSliceExecFns;
use vstd::string::StringExecFns;

verus! {

/// The Unicode `White_Space` code points, the set `str::trim` removes.
pub open spec fn is_space_char(c: char) -> bool {
    let u = c as u32;
    (0x9 <= u && u <= 0xD) || u == 0x20 || u == 0x85 || u == 0xA0 || u == 0x1680 || (0x2000 <= u
        && u <= 0x200A) || u == 0x2028 || u == 0x2029 || u == 0x202F || u == 0x205F || u == 0x3000
}

pub fn is_space(c: char) -> (r: bool)
    ensures
        r == is_space_char(c),
{
    let u: u32 = c as u32;
    (0x9 <= u && u <= 0xD) || u == 0x20 || u == 0x85 || u == 0xA0 || u == 0x1680 || (0x2000 <= u
        && u <= 0x200A) || u == 0x2028 || u == 0x2029 || u == 0x202F || u == 0x205F || u == 0x3000
}

pub open spec fn trim_front(s: Seq<char>) -> Seq<char>
    decreases s.len(),
{
    if s.len() > 0 && is_space_char(s[0]) {
        trim_front(s.drop_first())
    } else {
        s
    }
}

pub open spec fn trim_back(s: Seq<char>) -> Seq<char>
    decreases s.len(),
{
    if s.len() > 0 && is_space_char(s.last()) {
        trim_back(s.drop_last())
    } else {
        s
    }
}

/// What `str::trim` returns: the view with leading and trailing
/// whitespace removed.
pub open spec fn spec_trim(s: Seq<char>) -> Seq<char> {
    trim_back(trim_front(s))
}

/// Trimming an already-trimmed sequence changes nothing.
pub proof fn lemma_trim_idempotent(s: Seq<char>)
    ensures
        spec_trim(spec_trim(s)) == spec_trim(s),
    decreases s.len(),
{
    lemma_trim_front_no_space(s);
    lemma_trim_back_no_space(trim_front(s));
    let t = spec_trim(s);
    lemma_trim_back_sub(trim_front(s));
    assert(t.len() > 0 ==> !is_space_char(t[0])) by {
        if t.len() > 0 {
            lemma_trim_back_prefix(trim_front(s));
        }
    }
    assert(trim_front(t) == t);
    assert(t.len() > 0 ==> !is_space_char(t.last()));
    assert(trim_back(t) == t);
}

/// The first element surviving `trim_front` is not whitespace.
proof fn lemma_trim_front_no_space(s: Seq<char>)
    ensures
        trim_front(s).len() > 0 ==> !is_space_char(trim_front(s)[0]),
    decreases s.len(),
{
    if s.len() > 0 && is_space_char(s[0]) {
        lemma_trim_front_no_space(s.drop_first());
    }
}

/// The last element surviving `trim_back` is not whitespace.
proof fn lemma_trim_back_no_space(s: Seq<char>)
    ensures
        trim_back(s).len() > 0 ==> !is_space_char(trim_back(s).last()),
    decreases s.len(),
{
    if s.len() > 0 && is_space_char(s.last()) {
        lemma_trim_back_no_space(s.drop_last());
    }
}

/// `trim_back` returns a prefix of its argument.
proof fn lemma_trim_back_prefix(s: Seq<char>)
    ensures
        trim_back(s).len() <= s.len(),
        forall|i: int| 0 <= i < trim_back(s).len() ==> trim_back(s)[i] == s[i],
    decreases s.len(),
{
    if s.len() > 0 && is_space_char(s.last()) {
        lemma_trim_back_prefix(s.drop_last());
        assert forall|i: int| 0 <= i < trim_back(s).len() implies trim_back(s)[i] == s[i] by {
            assert(trim_back(s) == trim_back(s.drop_last()));
            assert(trim_back(s.drop_last())[i] == s.drop_last()[i]);
            assert(s.drop_last()[i] == s[i]);
        }
    }
}

proof fn lemma_trim_back_sub(s: Seq<char>)
    ensures
        trim_back(s) == s.subrange(0, trim_back(s).len() as int),
    decreases s.len(),
{
    lemma_trim_back_prefix(s);
    assert(trim_back(s) =~= s.subrange(0, trim_back(s).len() as int));
}

/// What `str::trim` does, as executable code.
pub fn trim_str(s: &str) -> (r: String)
    ensures
        r@ == spec_trim(s@),
{
    let len: usize = s.unicode_len();
    proof {
        assert(s@.subrange(0, len as int) =~= s@);
    }
    let mut i: usize = 0;
    while i < len && is_space(s.get_char(i))
        invariant
            0 <= i <= len,
            len == s@.len(),
            trim_front(s@) == trim_front(s@.subrange(i as int, len as int)),
        decreases len - i,
    {
        proof {
            let tail = s@.subrange(i as int, len as int);
            assert(tail.drop_first() =~= s@.subrange(i as int + 1, len as int));
        }
        i = i + 1;
    }
    proof {
        assert(trim_front(s@) == s@.subrange(i as int, len as int));
    }
    let mut j: usize = len;
    while j > i && is_space(s.get_char(j - 1))
        invariant
            i <= j <= len,
            len == s@.len(),
            trim_front(s@) == s@.subrange(i as int, len as int),
            trim_back(s@.subrange(i as int, len as int)) == trim_back(
                s@.subrange(i as int, j as int),
            ),
        decreases j,
    {
        proof {
            let part = s@.subrange(i as int, j as int);
            assert(part.last() == s@[j - 1]);
            assert(part.drop_last() =~= s@.subrange(i as int, j as int - 1));
        }
        j = j - 1;
    }
    let out = s.substring_char(i, j);
    proof {
        let part = s@.subrange(i as int, j as int);
        if j > i {
            assert(!is_space_char(part.last()));
        }
        assert(trim_back(part) == part);
    }
    String::from_str(out)
}

/// ASCII case folding of one character, as `char::to_ascii_lowercase`.
pub open spec fn lower_char(c: char) -> char {
    if 'A' <= c && c <= 'Z' {
        ((c as u8) + 32) as char
    } else {
        c
    }
}

/// The view of `str::to_ascii_lowercase`.
pub open spec fn spec_lower(s: Seq<char>) -> Seq<char> {
    s.map_values(|c: char| lower_char(c))
}

pub fn char_to_lower(c: char) -> (r: char)
    ensures
        r == lower_char(c),
{
    if 'A' <= c && c <= 'Z' {
        let u: u32 = c as u32;
        let b: u8 = u as u8;
        proof {
            assert(u <= 90);
        }
        (b + 32) as char
    } else {
        c
    }
}

/// Relies on `String::push`: appends one character.
#[verifier::external_body]
pub fn push_char(s: &mut String, c: char)
    ensures
        final(s)@ == old(s)@.push(c),
{
    s.push(c);
}

/// What `str::to_ascii_lowercase` does.
pub fn ascii_lowercase(s: &str) -> (r: String)
    ensures
        r@ == spec_lower(s@),
{
    let len: usize = s.unicode_len();
    let mut out = String::new();
    let mut i: usize = 0;
    while i < len
        invariant
            0 <= i <= len,
            len == s@.len(),
            out@ == spec_lower(s@.subrange(0, i as int)),
        decreases len - i,
    {
        let c = char_to_lower(s.get_char(i));
        push_char(&mut out, c);
        proof {
            assert(s@.subrange(0, i as int + 1) =~= s@.subrange(0, i as int).push(s@[i as int]));
            assert(spec_lower(s@.subrange(0, i as int + 1)) =~= spec_lower(
                s@.subrange(0, i as int),
            ).push(lower_char(s@[i as int])));
        }
        i = i + 1;
    }
    proof {
        assert(s@.subrange(0, len as int) =~= s@);
    }
    out
}

/// `needle` occurs as a contiguous part of `hay`.
pub open spec fn spec_contains(hay: Seq<char>, needle: Seq<char>) -> bool {
    exists|k: int|
        0 <= k <= hay.len() - needle.len() && #[trigger] hay.subrange(k, k + needle.len() as int)
            == needle
}

/// Whether `needle` occurs at position `k` of `hay`.
fn matches_at(hay: &str, hay_len: usize, needle: &str, needle_len: usize, k: usize) -> (r: bool)
    requires
        hay_len == hay@.len(),
        needle_len == needle@.len(),
        k + needle_len <= hay_len,
    ensures
        r == (hay@.subrange(k as int, k as int + needle@.len() as int) == needle@),
{
    let mut m: usize = 0;
    while m < needle_len
        invariant
            0 <= m <= needle_len,
            hay_len == hay@.len(),
            needle_len == needle@.len(),
            k + needle_len <= hay_len,
            forall|t: int| 0 <= t < m ==> hay@[k + t] == needle@[t],
        decreases needle_len - m,
    {
        if hay.get_char(k + m) != needle.get_char(m) {
            proof {
                let part = hay@.subrange(k as int, k as int + needle@.len() as int);
                assert(part[m as int] != needle@[m as int]);
            }
            return false;
        }
        m = m + 1;
    }
    proof {
        assert(hay@.subrange(k as int, k as int + needle@.len() as int) =~= needle@);
    }
    true
}

/// What `str::contains` returns for a literal pattern.
pub fn contains_str(hay: &str, needle: &str) -> (r: bool)
    ensures
        r == spec_contains(hay@, needle@),
{
    let hay_len: usize = hay.unicode_len();
    let needle_len: usize = needle.unicode_len();
    if needle_len > hay_len {
        return false;
    }
    if needle_len == 0 {
        proof {
            assert(hay@.subrange(0, 0 + needle@.len() as int) =~= needle@);
        }
        return true;
    }
    let mut k: usize = 0;
    while k <= hay_len - needle_len
        invariant
            0 <= k <= hay_len - needle_len + 1,
            0 < needle_len <= hay_len,
            hay_len == hay@.len(),
            needle_len == needle@.len(),
            forall|t: int|
                0 <= t < k ==> #[trigger] hay@.subrange(t, t + needle@.len() as int) != needle@,
        decreases hay_len - k,
    {
        if matches_at(hay, hay_len, needle, needle_len, k) {
            return true;
        }
        k = k + 1;
    }
    false
}

/// Character-for-character string equality.
pub fn str_eq(a: &str, b: &str) -> (r: bool)
    ensures
        r == (a@ == b@),
{
    let a_len: usize = a.unicode_len();
    let b_len: usize = b.unicode_len();
    if a_len != b_len {
        return false;
    }
    let mut i: usize = 0;
    while i < a_len
        invariant
            0 <= i <= a_len,
            a_len == a@.len(),
            a_len == b@.len(),
            forall|t: int| 0 <= t < i ==> a@[t] == b@[t],
        decreases a_len - i,
    {
        if a.get_char(i) != b.get_char(i) {
            return false;
        }
        i = i + 1;
    }
    proof {
        assert(a@ =~= b@);
    }
    true
}

/// ASCII-case-insensitive equality, as `str::eq_ignore_ascii_case`.
pub fn str_eq_ignore_ascii_case(a: &str, b: &str) -> (r: bool)
    ensures
        r == (spec_lower(a@) == spec_lower(b@)),
{
    let a_len: usize = a.unicode_len();
    let b_len: usize = b.unicode_len();
    if a_len != b_len {
        proof {
            assert(spec_lower(a@).len() != spec_lower(b@).len());
        }
        return false;
    }
    let mut i: usize = 0;
    while i < a_len
        invariant
            0 <= i <= a_len,
            a_len == a@.len(),
            a_len == b@.len(),
            forall|t: int| 0 <= t < i ==> lower_char(a@[t]) == lower_char(b@[t]),
        decreases a_len - i,
    {
        if char_to_lower(a.get_char(i)) != char_to_lower(b.get_char(i)) {
            proof {
                assert(spec_lower(a@)[i as int] != spec_lower(b@)[i as int]);
            }
            return false;
        }
        i = i + 1;
    }
    proof {
        assert(spec_lower(a@) =~= spec_lower(b@));
    }
    true
}

pub open spec fn is_digit_char(c: char) -> bool {
    '0' <= c && c <= '9'
}

pub open spec fn all_digits(s: Seq<char>) -> bool {
    forall|i: int| 0 <= i < s.len() ==> is_digit_char(#[trigger] s[i])
}

/// The numeric value of a sequence of decimal digits.
pub open spec fn digits_val(s: Seq<char>) -> int
    decreases s.len(),
{
    if s.len() == 0 {
        0
    } else {
        digits_val(s.drop_last()) * 10 + (s.last() as int - '0' as int)
    }
}

proof fn lemma_digits_val_nonneg(s: Seq<char>)
    requires
        all_digits(s),
    ensures
        digits_val(s) >= 0,
    decreases s.len(),
{
    if s.len() > 0 {
        assert(all_digits(s.drop_last())) by {
            assert(forall|i: int|
                0 <= i < s.len() - 1 ==> s.drop_last()[i] == #[trigger] s[i]);
        }
        lemma_digits_val_nonneg(s.drop_last());
    }
}

/// A digit sequence is worth at least its own prefix.
proof fn lemma_digits_val_prefix_le(s: Seq<char>, n: int)
    requires
        all_digits(s),
        0 <= n <= s.len(),
    ensures
        digits_val(s.subrange(0, n)) <= digits_val(s),
    decreases s.len() - n,
{
    if n < s.len() {
        lemma_digits_val_prefix_le(s, n + 1);
        let p = s.subrange(0, n + 1);
        assert(p.drop_last() =~= s.subrange(0, n));
        assert(all_digits(s.subrange(0, n)));
        lemma_digits_val_nonneg(s.subrange(0, n));
        assert(digits_val(p) == digits_val(s.subrange(0, n)) * 10 + (p.last() as int - '0' as int));
        assert(digits_val(s.subrange(0, n)) * 10 >= digits_val(s.subrange(0, n))) by (nonlinear_arith)
            requires
                digits_val(s.subrange(0, n)) >= 0,
        ;
    } else {
        assert(s.subrange(0, n) =~= s);
    }
}

/// Parses a non-empty all-digit string as a value of at most `max`,
/// as `str::parse` does for the unsigned integer types.
pub fn parse_decimal_capped(s: &str, max: u64) -> (r: Option<u64>)
    requires
        max <= 0xFFFF_FFFF,
    ensures
        (r is Some) <==> (s@.len() > 0 && all_digits(s@) && digits_val(s@) <= max),
        r is Some ==> r->Some_0 == digits_val(s@) && r->Some_0 <= max,
{
    let len: usize = s.unicode_len();
    if len == 0 {
        return None;
    }
    let mut acc: u64 = 0;
    let mut i: usize = 0;
    while i < len
        invariant
            0 <= i <= len,
            len == s@.len(),
            s@.len() > 0,
            max <= 0xFFFF_FFFF,
            all_digits(s@.subrange(0, i as int)),
            acc == digits_val(s@.subrange(0, i as int)),
            acc <= max,
        decreases len - i,
    {
        let c = s.get_char(i);
        if c < '0' || c > '9' {
            proof {
                assert(!is_digit_char(s@[i as int]));
            }
            return None;
        }
        let d: u64 = ((c as u32) - ('0' as u32)) as u64;
        proof {
            assert(s@.subrange(0, i as int + 1).drop_last() =~= s@.subrange(0, i as int));
            assert(all_digits(s@.subrange(0, i as int + 1)));
        }
        let next: u64 = acc * 10 + d;
        if next > max {
            return parse_decimal_overflow_tail(s, i, max);
        }
        acc = next;
        i = i + 1;
    }
    proof {
        assert(s@.subrange(0, len as int) =~= s@);
    }
    Some(acc)
}

/// After an overflowing prefix, the parse can only fail; this finishes
/// the scan so the contract's digit test still holds for the whole string.
fn parse_decimal_overflow_tail(s: &str, from: usize, max: u64) -> (r: Option<u64>)
    requires
        from < s@.len(),
        all_digits(s@.subrange(0, from as int + 1)),
        digits_val(s@.subrange(0, from as int + 1)) > max,
    ensures
        r is None,
        !(s@.len() > 0 && all_digits(s@) && digits_val(s@) <= max),
{
    proof {
        if all_digits(s@) {
            lemma_digits_val_prefix_le(s@, from as int + 1);
        }
    }
    None
}

/// The decimal digit character for a value below ten.
pub open spec fn digit_char(d: int) -> char {
    (('0' as int) + d) as char
}

/// The decimal rendering of `n`, most significant digit first.
pub open spec fn dec_digits(n: nat) -> Seq<char>
    decreases n,
{
    if n < 10 {
        seq![digit_char(n as int)]
    } else {
        dec_digits(n / 10).push(digit_char((n % 10) as int))
    }
}

/// What `u64`'s `Display` writes.
pub fn u64_to_string(n: u64) -> (r: String)
    ensures
        r@ == dec_digits(n as nat),
    decreases n,
{
    if n < 10 {
        let c: char = ((('0' as u32) + n as u32) as u8) as char;
        let mut out = String::new();
        push_char(&mut out, c);
        proof {
            assert(out@ =~= dec_digits(n as nat));
        }
        out
    } else {
        let mut out = u64_to_string(n / 10);
        let d: u64 = n % 10;
        let c: char = ((('0' as u32) + d as u32) as u8) as char;
        push_char(&mut out, c);
        out
    }
}

/// Concatenation with a known view; relies only on vstd's `String` specs.
pub fn str_concat(a: &str, b: &str) -> (r: String)
    ensures
        r@ == a@ + b@,
{
    let mut out = String::from_str(a);
    out.append(b);
    out
}

} // verus!
