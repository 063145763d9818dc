//! Character-level text handling shared by the device matching, the
//! configuration prompts and the listings: case folding, substring search,
//! whitespace trimming and decimal numbers.

use vstd::prelude::*;
use vstd::string::*;

verus! {

// ---------------------------------------------------------------------------
// Specifications
// ---------------------------------------------------------------------------

/// What `str::to_lowercase` returns for a string, by its characters. Unicode
/// lower-casing maps some characters to several and depends on context
/// (final sigma), so it is named rather than written out.
pub uninterp spec fn lowercase(s: Seq<char>) -> Seq<char>;

/// `needle` occurs in `hay` as a contiguous run of characters.
pub open spec fn contains_seq(hay: Seq<char>, needle: Seq<char>) -> bool {
    exists|i: int|
        0 <= i && i + needle.len() <= hay.len() && #[trigger] hay.subrange(i, i + needle.len())
            == needle
}

/// `prefix` is a prefix of `s`.
pub open spec fn starts_with_seq(s: Seq<char>, prefix: Seq<char>) -> bool {
    prefix.len() <= s.len() && s.subrange(0, prefix.len() as int) == prefix
}

/// The code of a character after ASCII lower-casing (`char::to_ascii_lowercase`):
/// `A`..=`Z` become `a`..=`z`, every other character is kept.
pub open spec fn ascii_fold(c: char) -> u32 {
    let u = c as u32;
    if 65 <= u && u <= 90 {
        (u + 32) as u32
    } else {
        u
    }
}

/// `a` and `b` are equal when ASCII letters are compared without case
/// (`str::eq_ignore_ascii_case`).
pub open spec fn eq_ignore_ascii_case_seq(a: Seq<char>, b: Seq<char>) -> bool {
    a.len() == b.len() && forall|i: int| 0 <= i < a.len() ==> ascii_fold(#[trigger] a[i]) == ascii_fold(b[i])
}

/// The ASCII lower-cased `s` starts with `prefix`, which is itself lower case
/// (`s.to_ascii_lowercase().starts_with(prefix)`).
pub open spec fn ascii_lower_starts_with(s: Seq<char>, prefix: Seq<char>) -> bool {
    prefix.len() <= s.len() && forall|k: int|
        0 <= k < prefix.len() ==> ascii_fold(#[trigger] s[k]) == prefix[k] as u32
}

/// The ASCII lower-cased `hay` matches `needle`, which is itself lower case,
/// at position `i`.
pub open spec fn ascii_lower_match_at(hay: Seq<char>, needle: Seq<char>, i: int) -> bool {
    0 <= i && i + needle.len() <= hay.len() && forall|k: int|
        0 <= k < needle.len() ==> ascii_fold(#[trigger] hay[i + k]) == needle[k] as u32
}

/// The ASCII lower-cased `hay` contains `needle`, which is itself lower case
/// (`hay.to_ascii_lowercase().contains(needle)`).
pub open spec fn ascii_lower_contains(hay: Seq<char>, needle: Seq<char>) -> bool {
    exists|i: int| #[trigger] ascii_lower_match_at(hay, needle, i)
}

/// The Unicode `White_Space` property, which `char::is_whitespace` tests.
pub open spec fn is_white_space(c: char) -> bool {
    let u = c as u32;
    (9 <= u && u <= 13) || u == 32 || u == 0x85 || u == 0xA0 || u == 0x1680 || (0x2000 <= u && u
        <= 0x200A) || u == 0x2028 || u == 0x2029 || u == 0x202F || u == 0x205F || u == 0x3000
}

/// Index of the first character at or after `i` that is not white space.
pub open spec fn skip_white_from(s: Seq<char>, i: int) -> int
    decreases s.len() - i,
{
    if 0 <= i < s.len() && is_white_space(s[i]) {
        skip_white_from(s, i + 1)
    } else {
        i
    }
}

/// End of `s` after dropping the white space that trails position `j`, not
/// going below `lo`.
pub open spec fn skip_white_back(s: Seq<char>, lo: int, j: int) -> int
    decreases j - lo,
{
    if lo < j && j <= s.len() && is_white_space(s[j - 1]) {
        skip_white_back(s, lo, j - 1)
    } else {
        j
    }
}

/// `s` without leading and trailing white space (`str::trim`).
pub open spec fn trimmed(s: Seq<char>) -> Seq<char> {
    let lo = skip_white_from(s, 0);
    s.subrange(lo, skip_white_back(s, lo, s.len() as int))
}

/// The character of a decimal digit.
pub open spec fn digit_char(d: int) -> char {
    (48 + d) as char
}

/// Whether a character is an ASCII decimal digit.
pub open spec fn is_digit(c: char) -> bool {
    48 <= (c as u32) && (c as u32) <= 57
}

/// Value of a string of decimal digits.
pub open spec fn digits_value(s: Seq<char>) -> nat
    decreases s.len(),
{
    if s.len() == 0 {
        0
    } else {
        (digits_value(s.drop_last()) * 10 + ((s.last() as u32) - 48)) as nat
    }
}

/// Decimal representation of `n` without leading zeros (`n.to_string()`).
pub open spec fn decimal(n: nat) -> Seq<char>
    decreases n,
{
    if n < 10 {
        seq![digit_char(n as int)]
    } else {
        decimal(n / 10).push(digit_char((n % 10) as int))
    }
}

/// The digits part of an unsigned number: `s` without one leading `+`.
pub open spec fn unsigned_digits(s: Seq<char>) -> Seq<char> {
    if s.len() > 0 && s[0] == '+' {
        s.drop_first()
    } else {
        s
    }
}

/// What `s.parse::<u16>()` accepts and returns: an optional `+`, then at
/// least one decimal digit, with a value that fits in 16 bits.
pub open spec fn parse_u16_spec(s: Seq<char>) -> Option<u16> {
    let d = unsigned_digits(s);
    if d.len() > 0 && (forall|i: int| 0 <= i < d.len() ==> is_digit(#[trigger] d[i]))
        && digits_value(d) <= 65535 {
        Some(digits_value(d) as u16)
    } else {
        None
    }
}

// ---------------------------------------------------------------------------
// Trusted calls into std
// ---------------------------------------------------------------------------

/// `str::to_lowercase`: its result is the named `lowercase` of the argument's
/// characters, nothing more is claimed.
#[verifier::external_body]
pub fn to_lowercase(s: &str) -> (r: String)
    ensures
        r@ == lowercase(s@),
{
    s.to_lowercase()
}

/// `String: FromIterator<char>`: collecting characters gives a string of
/// exactly those characters, in order.
#[verifier::external_body]
pub fn string_from_chars(v: &Vec<char>) -> (r: String)
    ensures
        r@ == v@,
{
    v.iter().collect()
}

// ---------------------------------------------------------------------------
// Executable text functions
// ---------------------------------------------------------------------------

/// Whether a string holds exactly the characters of a string slice.
pub fn string_eq_str(a: &String, b: &str) -> (r: bool)
    ensures
        r == (a@ == b@),
{
    let b2 = String::from_str(b);
    *a == b2
}

/// The characters of `s`, in order.
pub fn chars_of(s: &str) -> (v: Vec<char>)
    ensures
        v@ == s@,
{
    let n = s.unicode_len();
    let mut v: Vec<char> = Vec::new();
    let mut i: usize = 0;
    while i < n
        invariant
            n == s@.len(),
            i <= n,
            v@ == s@.subrange(0, i as int),
        decreases n - i,
    {
        let c = s.get_char(i);
        v.push(c);
        i = i + 1;
        assert(v@ =~= s@.subrange(0, i as int));
    }
    assert(v@ =~= s@);
    v
}

/// Whether `needle` occurs in `hay` (`str::contains` with a string pattern).
pub fn seq_contains(hay: &Vec<char>, needle: &Vec<char>) -> (r: bool)
    ensures
        r == contains_seq(hay@, needle@),
{
    let n = hay.len();
    let m = needle.len();
    if m > n {
        assert forall|i: int|
            0 <= i && i + m <= n implies !(#[trigger] hay@.subrange(i, i + m) == needle@) by {}
        return false;
    }
    let mut i: usize = 0;
    while i <= n - m
        invariant
            n == hay@.len(),
            m == needle@.len(),
            m <= n,
            i <= n - m + 1,
            forall|p: int| 0 <= p < i ==> #[trigger] hay@.subrange(p, p + m) != needle@,
        decreases n - i,
    {
        let mut j: usize = 0;
        let mut same = true;
        while j < m
            invariant
                n == hay@.len(),
                m == needle@.len(),
                i + m <= n,
                j <= m,
                same ==> forall|k: int| 0 <= k < j ==> hay@[i + k] == needle@[k],
                !same ==> exists|k: int| 0 <= k < m && hay@[i + k] != needle@[k],
            ensures
                same ==> j == m,
            decreases m - j,
        {
            if hay[i + j] != needle[j] {
                same = false;
                assert(hay@[i + j as int] != needle@[j as int]);
                break;
            }
            j = j + 1;
        }
        if same {
            assert(hay@.subrange(i as int, i + m) =~= needle@);
            return true;
        }
        let ghost k = choose|k: int| 0 <= k < m && hay@[i + k] != needle@[k];
        assert(hay@.subrange(i as int, i + m)[k] != needle@[k]);
        i = i + 1;
    }
    assert forall|p: int| 0 <= p && p + m <= n implies !(#[trigger] hay@.subrange(p, p + m)
        == needle@) by {}
    false
}

/// ASCII case folding of one character, as a code (`char::to_ascii_lowercase`).
pub fn ascii_fold_code(c: char) -> (r: u32)
    ensures
        r == ascii_fold(c),
{
    let u = c as u32;
    if 65 <= u && u <= 90 {
        u + 32
    } else {
        u
    }
}

/// `str::eq_ignore_ascii_case`.
pub fn eq_ignore_ascii_case(a: &str, b: &str) -> (r: bool)
    ensures
        r == eq_ignore_ascii_case_seq(a@, b@),
{
    let va = chars_of(a);
    let vb = chars_of(b);
    if va.len() != vb.len() {
        return false;
    }
    let mut i: usize = 0;
    while i < va.len()
        invariant
            va@ == a@,
            vb@ == b@,
            va.len() == vb.len(),
            i <= va.len(),
            forall|k: int| 0 <= k < i ==> ascii_fold(#[trigger] a@[k]) == ascii_fold(b@[k]),
        decreases va.len() - i,
    {
        if ascii_fold_code(va[i]) != ascii_fold_code(vb[i]) {
            return false;
        }
        i = i + 1;
    }
    true
}

/// `s.to_ascii_lowercase().starts_with(prefix)` for a lower-case `prefix`.
pub fn ascii_lowercase_starts_with(s: &str, prefix: &str) -> (r: bool)
    ensures
        r == ascii_lower_starts_with(s@, prefix@),
{
    let vs = chars_of(s);
    let vp = chars_of(prefix);
    if vp.len() > vs.len() {
        return false;
    }
    let mut k: usize = 0;
    while k < vp.len()
        invariant
            vs@ == s@,
            vp@ == prefix@,
            vp.len() <= vs.len(),
            k <= vp.len(),
            forall|q: int| 0 <= q < k ==> ascii_fold(#[trigger] s@[q]) == prefix@[q] as u32,
        decreases vp.len() - k,
    {
        if ascii_fold_code(vs[k]) != (vp[k] as u32) {
            return false;
        }
        k = k + 1;
    }
    true
}

/// `hay.to_ascii_lowercase().contains(needle)` for a lower-case `needle`.
pub fn ascii_lowercase_contains(hay: &str, needle: &str) -> (r: bool)
    ensures
        r == ascii_lower_contains(hay@, needle@),
{
    let vh = chars_of(hay);
    let vn = chars_of(needle);
    let n = vh.len();
    let m = vn.len();
    if m > n {
        assert forall|i: int| !(#[trigger] ascii_lower_match_at(hay@, needle@, i)) by {}
        return false;
    }
    let mut i: usize = 0;
    while i <= n - m
        invariant
            vh@ == hay@,
            vn@ == needle@,
            n == hay@.len(),
            m == needle@.len(),
            m <= n,
            i <= n - m + 1,
            forall|p: int| 0 <= p < i ==> !(#[trigger] ascii_lower_match_at(hay@, needle@, p)),
        decreases n - i,
    {
        let mut j: usize = 0;
        let mut same = true;
        while j < m
            invariant
                vh@ == hay@,
                vn@ == needle@,
                n == hay@.len(),
                m == needle@.len(),
                i + m <= n,
                j <= m,
                same ==> forall|k: int|
                    0 <= k < j ==> ascii_fold(#[trigger] hay@[i + k]) == needle@[k] as u32,
                !same ==> exists|k: int|
                    0 <= k < m && ascii_fold(#[trigger] hay@[i + k]) != needle@[k] as u32,
            ensures
                same ==> j == m,
            decreases m - j,
        {
            if ascii_fold_code(vh[i + j]) != (vn[j] as u32) {
                same = false;
                break;
            }
            j = j + 1;
        }
        if same {
            assert(ascii_lower_match_at(hay@, needle@, i as int));
            return true;
        }
        i = i + 1;
    }
    assert forall|p: int| !(#[trigger] ascii_lower_match_at(hay@, needle@, p)) by {
        if 0 <= p && p + m <= n {
        }
    }
    false
}

/// `char::is_whitespace`.
pub fn is_whitespace(c: char) -> (r: bool)
    ensures
        r == is_white_space(c),
{
    let u = c as u32;
    (9 <= u && u <= 13) || u == 32 || u == 0x85 || u == 0xA0 || u == 0x1680 || (0x2000 <= u && u
        <= 0x200A) || u == 0x2028 || u == 0x2029 || u == 0x202F || u == 0x205F || u == 0x3000
}

/// `s.trim()` as an owned string.
pub fn trim(s: &str) -> (r: String)
    ensures
        r@ == trimmed(s@),
{
    let v = chars_of(s);
    let n = v.len();
    let mut lo: usize = 0;
    while lo < n && is_whitespace(v[lo])
        invariant
            v@ == s@,
            n == s@.len(),
            lo <= n,
            skip_white_from(s@, lo as int) == skip_white_from(s@, 0),
        decreases n - lo,
    {
        lo = lo + 1;
    }
    let mut hi: usize = n;
    while hi > lo && is_whitespace(v[hi - 1])
        invariant
            v@ == s@,
            n == s@.len(),
            lo <= hi <= n,
            lo == skip_white_from(s@, 0),
            skip_white_back(s@, lo as int, hi as int) == skip_white_back(s@, lo as int, n as int),
        decreases hi - lo,
    {
        hi = hi - 1;
    }
    let mut out: Vec<char> = Vec::new();
    let mut k: usize = lo;
    while k < hi
        invariant
            v@ == s@,
            lo <= k <= hi <= n,
            n == s@.len(),
            out@ == s@.subrange(lo as int, k as int),
        decreases hi - k,
    {
        out.push(v[k]);
        k = k + 1;
        assert(out@ =~= s@.subrange(lo as int, k as int));
    }
    string_from_chars(&out)
}

/// The character of the decimal digit `d`.
pub fn digit_to_char(d: u32) -> (c: char)
    requires
        d < 10,
    ensures
        c == digit_char(d as int),
{
    if d == 0 {
        '0'
    } else if d == 1 {
        '1'
    } else if d == 2 {
        '2'
    } else if d == 3 {
        '3'
    } else if d == 4 {
        '4'
    } else if d == 5 {
        '5'
    } else if d == 6 {
        '6'
    } else if d == 7 {
        '7'
    } else if d == 8 {
        '8'
    } else {
        '9'
    }
}

/// Decimal digits of `n`.
pub fn decimal_chars(n: u32) -> (v: Vec<char>)
    ensures
        v@ == decimal(n as nat),
    decreases n,
{
    if n < 10 {
        let mut v: Vec<char> = Vec::new();
        v.push(digit_to_char(n));
        assert(v@ =~= seq![digit_char(n as int)]);
        v
    } else {
        let mut v = decimal_chars(n / 10);
        v.push(digit_to_char(n % 10));
        v
    }
}

/// `n.to_string()` for a 16-bit number.
pub fn u16_to_string(n: u16) -> (r: String)
    ensures
        r@ == decimal(n as nat),
{
    let v = decimal_chars(n as u32);
    string_from_chars(&v)
}

/// `s.parse::<u16>().ok()`.
pub fn parse_u16(s: &str) -> (r: Option<u16>)
    ensures
        r == parse_u16_spec(s@),
{
    let v = chars_of(s);
    let start: usize = if v.len() > 0 && v[0] == '+' {
        1
    } else {
        0
    };
    let ghost d = unsigned_digits(s@);
    assert(d =~= s@.subrange(start as int, s@.len() as int));
    if start == v.len() {
        return None;
    }
    let mut acc: u32 = 0;
    let mut i: usize = start;
    while i < v.len()
        invariant
            v@ == s@,
            start <= i <= v.len(),
            d == s@.subrange(start as int, s@.len() as int),
            d == unsigned_digits(s@),
            acc == digits_value(s@.subrange(start as int, i as int)),
            acc <= 65535,
            forall|k: int| start <= k < i ==> is_digit(#[trigger] s@[k]),
        decreases v.len() - i,
    {
        let c = v[i];
        let u = c as u32;
        let ghost pre = s@.subrange(start as int, i as int);
        let ghost post = s@.subrange(start as int, i + 1);
        assert(post.drop_last() =~= pre);
        if u < 48 || u > 57 {
            assert(!is_digit(d[i - start]));
            return None;
        }
        let next = acc * 10 + (u - 48);
        if next > 65535 {
            proof {
                assert(d.subrange(0, post.len() as int) =~= post);
                if forall|k: int| 0 <= k < d.len() ==> is_digit(#[trigger] d[k]) {
                    lemma_digits_value_grows(d, post.len() as int);
                }
            }
            return None;
        }
        acc = next;
        i = i + 1;
    }
    assert(s@.subrange(start as int, v.len() as int) =~= d);
    Some(acc as u16)
}

/// The value of a digit string is at least the value of any of its prefixes.
proof fn lemma_digits_value_grows(d: Seq<char>, k: int)
    requires
        0 <= k <= d.len(),
        forall|i: int| 0 <= i < d.len() ==> is_digit(#[trigger] d[i]),
    ensures
        digits_value(d.subrange(0, k)) <= digits_value(d),
    decreases d.len() - k,
{
    if k < d.len() {
        lemma_digits_value_grows(d, k + 1);
        assert(d.subrange(0, k + 1).drop_last() =~= d.subrange(0, k));
        assert(is_digit(d[k]));
    } else {
        assert(d.subrange(0, k) =~= d);
    }
}

} // verus!
