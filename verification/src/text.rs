//! Small verified helpers on strings: equality by content, byte-wise ordering
//! and Unicode whitespace trimming.
use vstd::prelude::*;
use vstd::string::*;

verus! {

broadcast use vstd::string::group_string_axioms;

/// Lexicographic "less than" on byte sequences, which is how `str` orders.
pub open spec fn bytes_lt(a: Seq<u8>, b: Seq<u8>) -> bool
    decreases a.len(),
{
    if a.len() == 0 {
        b.len() > 0
    } else if b.len() == 0 {
        false
    } else if a[0] < b[0] {
        true
    } else if a[0] > b[0] {
        false
    } else {
        bytes_lt(a.drop_first(), b.drop_first())
    }
}

/// Lexicographic order of two strings, compared on their UTF-8 bytes.
pub open spec fn text_lt(a: Seq<char>, b: Seq<char>) -> bool {
    bytes_lt(vstd::utf8::encode_utf8(a), vstd::utf8::encode_utf8(b))
}

/// Content equality of two string slices.
pub fn str_eq(a: &str, b: &str) -> (r: bool)
    ensures
        r == (a@ == b@),
{
    let ab = a.as_bytes();
    let bb = b.as_bytes();
    proof {
        vstd::utf8::encode_utf8_decode_utf8(a@);
        vstd::utf8::encode_utf8_decode_utf8(b@);
    }
    if ab.len() != bb.len() {
        return false;
    }
    let mut i: usize = 0;
    while i < ab.len()
        invariant
            ab@ == a.spec_bytes(),
            bb@ == b.spec_bytes(),
            ab@.len() == bb@.len(),
            i <= ab@.len(),
            forall|j: int| 0 <= j < i ==> ab@[j] == bb@[j],
        decreases ab@.len() - i,
    {
        if ab[i] != bb[i] {
            return false;
        }
        i = i + 1;
    }
    proof {
        assert(ab@ =~= bb@);
    }
    true
}

pub proof fn lemma_bytes_lt_irreflexive(a: Seq<u8>)
    ensures
        !bytes_lt(a, a),
    decreases a.len(),
{
    if a.len() > 0 {
        lemma_bytes_lt_irreflexive(a.drop_first());
    }
}

/// `bytes_lt` is a strict order.
pub proof fn lemma_bytes_lt_asym(a: Seq<u8>, b: Seq<u8>)
    ensures
        bytes_lt(a, b) ==> !bytes_lt(b, a),
    decreases a.len(),
{
    if a.len() > 0 && b.len() > 0 && a[0] == b[0] {
        lemma_bytes_lt_asym(a.drop_first(), b.drop_first());
    }
}

/// `bytes_lt` is transitive.
pub proof fn lemma_bytes_lt_trans(a: Seq<u8>, b: Seq<u8>, c: Seq<u8>)
    requires
        bytes_lt(a, b),
        bytes_lt(b, c),
    ensures
        bytes_lt(a, c),
    decreases a.len(),
{
    if a.len() > 0 && b.len() > 0 && c.len() > 0 && a[0] == b[0] && b[0] == c[0] {
        lemma_bytes_lt_trans(a.drop_first(), b.drop_first(), c.drop_first());
    }
}

/// Two different byte sequences are ordered one way or the other.
pub proof fn lemma_bytes_lt_total(a: Seq<u8>, b: Seq<u8>)
    requires
        a != b,
    ensures
        bytes_lt(a, b) || bytes_lt(b, a),
    decreases a.len(),
{
    if a.len() > 0 && b.len() > 0 && a[0] == b[0] {
        if a.drop_first() == b.drop_first() {
            assert(a =~= seq![a[0]] + a.drop_first());
            assert(b =~= seq![b[0]] + b.drop_first());
        }
        lemma_bytes_lt_total(a.drop_first(), b.drop_first());
    } else if a.len() == 0 && b.len() == 0 {
        assert(a =~= b);
    }
}

/// `text_lt` is a strict total order on strings.
pub proof fn lemma_text_lt_order(a: Seq<char>, b: Seq<char>, c: Seq<char>)
    ensures
        !text_lt(a, a),
        text_lt(a, b) ==> !text_lt(b, a),
        text_lt(a, b) && text_lt(b, c) ==> text_lt(a, c),
        a != b ==> text_lt(a, b) || text_lt(b, a),
{
    let ea = vstd::utf8::encode_utf8(a);
    let eb = vstd::utf8::encode_utf8(b);
    let ec = vstd::utf8::encode_utf8(c);
    lemma_bytes_lt_irreflexive(ea);
    lemma_bytes_lt_asym(ea, eb);
    if text_lt(a, b) && text_lt(b, c) {
        lemma_bytes_lt_trans(ea, eb, ec);
    }
    if a != b {
        vstd::utf8::encode_utf8_decode_utf8(a);
        vstd::utf8::encode_utf8_decode_utf8(b);
        lemma_bytes_lt_total(ea, eb);
    }
}

/// Byte-wise "less than" of two string slices (the order of `str`).
pub fn str_lt(a: &str, b: &str) -> (r: bool)
    ensures
        r == text_lt(a@, b@),
{
    let ab = a.as_bytes();
    let bb = b.as_bytes();
    let mut i: usize = 0;
    assert(ab@.skip(0) =~= ab@);
    assert(bb@.skip(0) =~= bb@);
    while i < ab.len() && i < bb.len()
        invariant
            ab@ == a.spec_bytes(),
            bb@ == b.spec_bytes(),
            i <= ab@.len(),
            i <= bb@.len(),
            bytes_lt(ab@, bb@) == bytes_lt(ab@.skip(i as int), bb@.skip(i as int)),
        decreases ab@.len() - i,
    {
        let x = ab[i];
        let y = bb[i];
        assert(ab@.skip(i as int)[0] == x);
        assert(bb@.skip(i as int)[0] == y);
        if x < y {
            return true;
        }
        if x > y {
            return false;
        }
        assert(ab@.skip(i as int).drop_first() =~= ab@.skip(i + 1));
        assert(bb@.skip(i as int).drop_first() =~= bb@.skip(i + 1));
        i = i + 1;
    }
    assert(ab@.skip(i as int).len() == ab@.len() - i);
    assert(bb@.skip(i as int).len() == bb@.len() - i);
    bb.len() > i
}

/// Unicode `White_Space` code points, as `char::is_whitespace` defines them.
pub open spec fn is_unicode_whitespace(c: char) -> bool {
    let u = c as u32;
    (0x09 <= u <= 0x0D) || u == 0x20 || u == 0x85 || u == 0xA0 || u == 0x1680 || (0x2000 <= u
        <= 0x200A) || u == 0x2028 || u == 0x2029 || u == 0x202F || u == 0x205F || u == 0x3000
}

pub(crate) fn char_is_whitespace(c: char) -> (r: bool)
    ensures
        r == is_unicode_whitespace(c),
{
    let u = c as u32;
    (0x09 <= u && u <= 0x0D) || u == 0x20 || u == 0x85 || u == 0xA0 || u == 0x1680 || (0x2000 <= u
        && u <= 0x200A) || u == 0x2028 || u == 0x2029 || u == 0x202F || u == 0x205F || u == 0x3000
}

/// Number of leading whitespace characters of `s`.
pub open spec fn leading_ws(s: Seq<char>, i: int) -> bool {
    forall|j: int| 0 <= j < i ==> is_unicode_whitespace(#[trigger] s[j])
}

/// `s` with leading and trailing Unicode whitespace removed: the characters
/// between the first and the last one that is not whitespace.
pub open spec fn trim_spec(s: Seq<char>) -> Seq<char> {
    if forall|j: int| 0 <= j < s.len() ==> is_unicode_whitespace(#[trigger] s[j]) {
        Seq::empty()
    } else {
        let start = choose|a: int|
            0 <= a < s.len() && !is_unicode_whitespace(s[a]) && leading_ws(s, a);
        let end = choose|b: int|
            0 <= b < s.len() && !is_unicode_whitespace(s[b]) && (forall|j: int|
                b < j < s.len() ==> is_unicode_whitespace(#[trigger] s[j]));
        s.subrange(start, end + 1)
    }
}

/// Removes leading and trailing Unicode whitespace, like `str::trim`.
pub fn trim(s: &str) -> (r: &str)
    ensures
        r@ == trim_spec(s@),
{
    let n = s.unicode_len();
    let mut start: usize = 0;
    while start < n && char_is_whitespace(s.get_char(start))
        invariant
            n == s@.len(),
            start <= n,
            leading_ws(s@, start as int),
        decreases n - start,
    {
        start = start + 1;
    }
    if start == n {
        return s.substring_char(0, 0);
    }
    let mut end: usize = n - 1;
    while end > start && char_is_whitespace(s.get_char(end))
        invariant
            n == s@.len(),
            start < n,
            start <= end < n,
            !is_unicode_whitespace(s@[start as int]),
            forall|j: int| end < j < n ==> is_unicode_whitespace(#[trigger] s@[j]),
        decreases end,
    {
        end = end - 1;
    }
    proof {
        let ss = s@;
        assert(!is_unicode_whitespace(ss[end as int]));
        assert(!(forall|j: int| 0 <= j < ss.len() ==> is_unicode_whitespace(#[trigger] ss[j])));
        let a = choose|a: int|
            0 <= a < ss.len() && !is_unicode_whitespace(ss[a]) && leading_ws(ss, a);
        assert(0 <= start < ss.len() && !is_unicode_whitespace(ss[start as int]) && leading_ws(
            ss,
            start as int,
        ));
        if a < start {
            assert(is_unicode_whitespace(ss[a]));
        }
        if a > start {
            assert(is_unicode_whitespace(ss[start as int]));
        }
        let b = choose|b: int|
            0 <= b < ss.len() && !is_unicode_whitespace(ss[b]) && (forall|j: int|
                b < j < ss.len() ==> is_unicode_whitespace(#[trigger] ss[j]));
        assert(0 <= end < ss.len() && !is_unicode_whitespace(ss[end as int]) && (forall|j: int|
            end < j < ss.len() ==> is_unicode_whitespace(#[trigger] ss[j])));
        if b < end {
            assert(is_unicode_whitespace(ss[end as int]));
        }
        if b > end {
            assert(is_unicode_whitespace(ss[b]));
        }
    }
    s.substring_char(start, end + 1)
}

/// Does `s` consist of whitespace only (so that `trim` leaves nothing)?
pub fn is_blank(s: &str) -> (r: bool)
    ensures
        r == (trim_spec(s@).len() == 0),
{
    let t = trim(s);
    t.unicode_len() == 0
}

/// The code of `c` after ASCII lower-casing.
pub open spec fn lower_code(c: char) -> u32 {
    if 65 <= (c as u32) <= 90 {
        ((c as u32) + 32) as u32
    } else {
        c as u32
    }
}

/// Does `s`, lower-cased in ASCII, contain `needle` at position `i`?
pub open spec fn lowered_match_at(s: Seq<char>, needle: Seq<char>, i: int) -> bool {
    0 <= i && i + needle.len() <= s.len() && forall|j: int| 0 <= j < needle.len() ==> lower_code(#[trigger] s[i + j]) == needle[j] as u32
}

/// Does `s`, lower-cased in ASCII, contain `needle`?
pub open spec fn contains_lowered(s: Seq<char>, needle: Seq<char>) -> bool {
    exists|i: int| #[trigger] lowered_match_at(s, needle, i)
}

/// The characters of `s`.
pub fn chars_of(s: &str) -> (v: Vec<char>)
    ensures
        v@ == s@,
{
    let n = s.unicode_len();
    let mut v: Vec<char> = Vec::new();
    let mut i: usize = 0;
    while i < n
        invariant
            n == s@.len(),
            i <= n,
            v@ == s@.take(i as int),
        decreases n - i,
    {
        v.push(s.get_char(i));
        proof {
            assert(s@.take(i + 1) =~= s@.take(i as int).push(s@[i as int]));
        }
        i = i + 1;
    }
    proof {
        assert(s@.take(n as int) =~= s@);
    }
    v
}

pub(crate) fn lower(c: char) -> (u: u32)
    ensures
        u == lower_code(c),
{
    let x = c as u32;
    if 65 <= x && x <= 90 {
        x + 32
    } else {
        x
    }
}

/// Does the text, lower-cased in ASCII, contain `needle`?
pub fn contains_lowercased(hay: &Vec<char>, needle: &str) -> (b: bool)
    ensures
        b == contains_lowered(hay@, needle@),
{
    let nd = chars_of(needle);
    let n = nd.len();
    let h = hay.len();
    if n > h {
        proof {
            assert forall|i: int| !#[trigger] lowered_match_at(hay@, needle@, i) by {}
        }
        return false;
    }
    let mut i: usize = 0;
    while i <= h - n
        invariant
            n == needle@.len(),
            h == hay@.len(),
            nd@ == needle@,
            n <= h,
            i <= h - n + 1,
            forall|k: int| 0 <= k < i ==> !#[trigger] lowered_match_at(hay@, needle@, k),
        decreases h - i,
    {
        let mut j: usize = 0;
        while j < n && lower(hay[i + j]) == (nd[j] as u32)
            invariant
                n == needle@.len(),
                h == hay@.len(),
                nd@ == needle@,
                i + n <= h,
                j <= n,
                forall|m: int| 0 <= m < j ==> lower_code(#[trigger] hay@[i + m]) == needle@[m] as u32,
            decreases n - j,
        {
            j = j + 1;
        }
        if j == n {
            proof {
                assert(lowered_match_at(hay@, needle@, i as int));
            }
            return true;
        }
        i = i + 1;
    }
    proof {
        assert forall|k: int| !#[trigger] lowered_match_at(hay@, needle@, k) by {
            if k >= i {
                assert(k + n > h);
            }
        }
    }
    false
}

/// A string holding exactly the characters of `v`.
#[verifier::external_body]
pub fn string_from_chars(v: &Vec<char>) -> (s: String)
    ensures
        s@ == v@,
{
    v.iter().collect()
}

/// The character of decimal digit `d`.
pub open spec fn digit_char(d: nat) -> char {
    ((48 + d) as u8) as char
}

/// The decimal representation of `n`, without leading zeros.
pub open spec fn decimal_spec(n: nat) -> Seq<char>
    decreases n,
{
    if n < 10 {
        seq![digit_char(n)]
    } else {
        decimal_spec(n / 10).push(digit_char(n % 10))
    }
}

fn push_decimal(n: u64, out: &mut Vec<char>)
    ensures
        final(out)@ == old(out)@ + decimal_spec(n as nat),
    decreases n,
{
    if n < 10 {
        let c = ((48 + n) as u8) as char;
        out.push(c);
        proof {
            assert(old(out)@ + decimal_spec(n as nat) =~= old(out)@.push(c));
        }
    } else {
        push_decimal(n / 10, out);
        let d = n % 10;
        let c = ((48 + d) as u8) as char;
        let ghost mid = out@;
        out.push(c);
        proof {
            assert(decimal_spec(n as nat) == decimal_spec((n / 10) as nat).push(digit_char((n % 10) as nat)));
            assert(out@ =~= old(out)@ + decimal_spec(n as nat));
        }
    }
}

/// `n` written in decimal, as `format!("{n}")` writes it.
pub fn decimal(n: u64) -> (s: String)
    ensures
        s@ == decimal_spec(n as nat),
{
    let mut v: Vec<char> = Vec::new();
    push_decimal(n, &mut v);
    proof {
        assert(v@ =~= decimal_spec(n as nat));
    }
    string_from_chars(&v)
}

/// Does `s`, lower-cased in ASCII, equal `lit`?
pub open spec fn lowered_eq(s: Seq<char>, lit: Seq<char>) -> bool {
    s.len() == lit.len() && forall|i: int| 0 <= i < s.len() ==> lower_code(#[trigger] s[i]) == lit[i] as u32
}

/// Whether `s.to_ascii_lowercase() == lit`.
pub fn eq_lowercased(s: &str, lit: &str) -> (b: bool)
    ensures
        b == lowered_eq(s@, lit@),
{
    let n = s.unicode_len();
    if n != lit.unicode_len() {
        return false;
    }
    let mut i: usize = 0;
    while i < n
        invariant
            n == s@.len(),
            n == lit@.len(),
            i <= n,
            forall|j: int| 0 <= j < i ==> lower_code(#[trigger] s@[j]) == lit@[j] as u32,
        decreases n - i,
    {
        if lower(s.get_char(i)) != (lit.get_char(i) as u32) {
            return false;
        }
        i = i + 1;
    }
    true
}

/// Is `c` an ASCII digit?
pub open spec fn is_digit_char(c: char) -> bool {
    '0' <= c && c <= '9'
}

/// The value of a string of decimal digits.
pub open spec fn digits_value(s: Seq<char>) -> nat
    decreases s.len(),
{
    if s.len() == 0 {
        0
    } else {
        digits_value(s.drop_last()) * 10 + ((s.last() as u32) - 48) as nat
    }
}

/// The digits after an optional leading `+`.
pub open spec fn unsigned_digits(s: Seq<char>) -> Seq<char> {
    if s.len() > 0 && s[0] == '+' {
        s.drop_first()
    } else {
        s
    }
}

/// What `str::parse::<usize>` gives: an optional `+`, then at least one
/// digit, and a value that fits.
pub open spec fn parsed_usize(s: Seq<char>) -> Option<nat> {
    let d = unsigned_digits(s);
    if d.len() > 0 && (forall|i: int| 0 <= i < d.len() ==> is_digit_char(#[trigger] d[i]))
        && digits_value(d) <= usize::MAX {
        Some(digits_value(d))
    } else {
        None
    }
}

proof fn lemma_digits_prefix_le(d: Seq<char>, i: int)
    requires
        0 <= i <= d.len(),
        forall|k: int| 0 <= k < d.len() ==> is_digit_char(#[trigger] d[k]),
    ensures
        digits_value(d.take(i)) <= digits_value(d),
    decreases d.len() - i,
{
    if i < d.len() {
        lemma_digits_prefix_le(d, i + 1);
        assert(d.take(i + 1).drop_last() =~= d.take(i));
    } else {
        assert(d.take(i) =~= d);
    }
}

/// `s.parse::<usize>().ok()`, checked digit by digit.
pub fn parse_usize(s: &str) -> (r: Option<usize>)
    ensures
        match parsed_usize(s@) {
            Some(v) => r == Some(v as usize),
            None => r is None,
        },
{
    let n = s.unicode_len();
    let start: usize = if n > 0 && s.get_char(0) == '+' { 1 } else { 0 };
    let ghost d = unsigned_digits(s@);
    proof {
        if start == 1 {
            assert(d =~= s@.subrange(1, n as int));
        } else {
            assert(d =~= s@.subrange(0, n as int));
        }
    }
    if start >= n {
        return None;
    }
    let mut value: usize = 0;
    let mut i: usize = start;
    while i < n
        invariant
            start <= i <= n,
            n == s@.len(),
            d == s@.subrange(start as int, n as int),
            d == unsigned_digits(s@),
            forall|k: int| 0 <= k < i - start ==> is_digit_char(#[trigger] d[k]),
            value == digits_value(d.take(i - start)),
        decreases n - i,
    {
        let c = s.get_char(i);
        let ghost j = i - start;
        if !('0' <= c && c <= '9') {
            proof {
                assert(d[j] == c);
                assert(!is_digit_char(d[j]));
            }
            return None;
        }
        let digit = (c as u32 - 48) as usize;
        proof {
            assert(d[j] == c);
            assert(d.take(j + 1).drop_last() =~= d.take(j));
            assert(d.take(j + 1).last() == c);
        }
        let next = value.checked_mul(10);
        let next = match next {
            Some(m) => m.checked_add(digit),
            None => None,
        };
        match next {
            Some(v2) => {
                value = v2;
            },
            None => {
                proof {
                    assert(digits_value(d.take(j + 1)) > usize::MAX);
                    if forall|k: int| 0 <= k < d.len() ==> is_digit_char(#[trigger] d[k]) {
                        lemma_digits_prefix_le(d, j + 1);
                    }
                }
                return None;
            },
        }
        i = i + 1;
    }
    proof {
        assert(d.take(d.len() as int) =~= d);
    }
    Some(value)
}

/// Does `hay` hold `needle` at position `i`?
pub open spec fn occurs_at(hay: Seq<char>, needle: Seq<char>, i: int) -> bool {
    0 <= i && i + needle.len() <= hay.len() && hay.subrange(i, i + needle.len()) == needle
}

/// Does `hay` hold `needle` somewhere (`str::contains`)?
pub open spec fn contains_text(hay: Seq<char>, needle: Seq<char>) -> bool {
    exists|i: int| #[trigger] occurs_at(hay, needle, i)
}

/// `hay.contains(needle)`.
pub fn contains_str(hay: &str, needle: &str) -> (b: bool)
    ensures
        b == contains_text(hay@, needle@),
{
    let h = chars_of(hay);
    let nd = chars_of(needle);
    let n = nd.len();
    let hl = h.len();
    if n > hl {
        proof {
            assert forall|i: int| !#[trigger] occurs_at(hay@, needle@, i) by {}
        }
        return false;
    }
    let mut i: usize = 0;
    while i <= hl - n
        invariant
            h@ == hay@,
            nd@ == needle@,
            n == needle@.len(),
            hl == hay@.len(),
            n <= hl,
            i <= hl - n + 1,
            forall|k: int| 0 <= k < i ==> !#[trigger] occurs_at(hay@, needle@, k),
        decreases hl - i,
    {
        let mut j: usize = 0;
        while j < n && h[i + j] == nd[j]
            invariant
                h@ == hay@,
                nd@ == needle@,
                n == needle@.len(),
                hl == hay@.len(),
                i + n <= hl,
                j <= n,
                forall|m: int| 0 <= m < j ==> #[trigger] hay@[i + m] == needle@[m],
            decreases n - j,
        {
            j = j + 1;
        }
        if j == n {
            proof {
                assert forall|m: int| 0 <= m < n implies hay@.subrange(i as int, i + n)[m] == needle@[m] by {
                    assert(hay@[i + m] == needle@[m]);
                }
                assert(hay@.subrange(i as int, i + n) =~= needle@);
                assert(occurs_at(hay@, needle@, i as int));
            }
            return true;
        }
        proof {
            assert(!occurs_at(hay@, needle@, i as int)) by {
                if occurs_at(hay@, needle@, i as int) {
                    assert(hay@.subrange(i as int, i + n)[j as int] == hay@[i + j]);
                }
            }
        }
        i = i + 1;
    }
    proof {
        assert forall|k: int| !#[trigger] occurs_at(hay@, needle@, k) by {
            if k >= i {
                assert(k + n > hl);
            }
        }
    }
    false
}

} // verus!
