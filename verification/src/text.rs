//! Text helpers: decimal numbers, integer parsing, comparisons and
//! case mapping on strings.
use vstd::prelude::*;

verus! {

/// The character of a decimal digit `d` (`0 <= d < 10`).
pub open spec fn digit_char(d: nat) -> char {
    ((d + 48) as u32) as char
}

/// The decimal representation of `n`, without sign or leading zeros.
pub open spec fn decimal(n: nat) -> Seq<char>
    decreases n,
{
    if n < 10 {
        seq![digit_char(n)]
    } else {
        decimal(n / 10).push(digit_char(n % 10))
    }
}

/// Appends one character to a string (`String::push`).
#[verifier::external_body]
pub(crate) fn push_char(s: &mut String, c: char)
    ensures
        final(s)@ == old(s)@.push(c),
{
    s.push(c);
}

/// Appends the decimal representation of `n` to `s`.
pub fn push_decimal(s: &mut String, n: u128)
    ensures
        final(s)@ == old(s)@ + decimal(n as nat),
    decreases n,
{
    if n >= 10 {
        push_decimal(s, n / 10);
    }
    let d: u128 = n % 10;
    let c: char = ((d as u8) + 48u8) as char;
    assert(c == digit_char((n % 10) as nat));
    push_char(s, c);
    assert(decimal(n as nat) == (if n < 10 { Seq::<char>::empty() } else { decimal((n / 10) as nat) }).push(digit_char((n % 10) as nat)));
}

} // verus!

verus! {

/// The decimal representation of `n` as a new string.
pub fn to_decimal(n: u128) -> (r: String)
    ensures
        r@ == decimal(n as nat),
{
    let mut s = String::new();
    push_decimal(&mut s, n);
    assert(s@ =~= decimal(n as nat));
    s
}

/// Why a string is not the decimal representation of an unsigned integer.
#[derive(Debug, Clone, Copy, PartialEq, Eq, Structural)]
pub enum IntErrorKind {
    /// The string is empty.
    Empty,
    /// The string holds a character that is not a digit where one is expected.
    InvalidDigit,
    /// The value does not fit in the target type.
    PosOverflow,
}

/// The message that describes a parse error.
pub open spec fn int_error_text(k: IntErrorKind) -> Seq<char> {
    match k {
        IntErrorKind::Empty => "cannot parse integer from empty string"@,
        IntErrorKind::InvalidDigit => "invalid digit found in string"@,
        IntErrorKind::PosOverflow => "number too large to fit in target type"@,
    }
}

impl IntErrorKind {
    /// The message that describes this error.
    pub fn message(&self) -> (r: String)
        ensures
            r@ == int_error_text(*self),
    {
        match self {
            IntErrorKind::Empty => "cannot parse integer from empty string".to_owned(),
            IntErrorKind::InvalidDigit => "invalid digit found in string".to_owned(),
            IntErrorKind::PosOverflow => "number too large to fit in target type".to_owned(),
        }
    }
}

/// `c` is one of the ASCII digits `0` to `9`.
pub open spec fn is_digit(c: char) -> bool {
    '0' <= c && c <= '9'
}

/// The value of the ASCII digit `c`.
pub open spec fn digit_value(c: char) -> nat {
    (c as int - 48) as nat
}

/// Reads the digits of `s` from position `i` on, left to right, with `acc`
/// the value read so far: a non-digit is an error, and so is a value above
/// `max` at any step.
pub open spec fn scan_digits(s: Seq<char>, i: int, acc: nat, max: nat) -> Result<nat, IntErrorKind>
    decreases s.len() - i,
{
    if i < 0 || i >= s.len() {
        Ok(acc)
    } else if !is_digit(s[i]) {
        Err(IntErrorKind::InvalidDigit)
    } else if acc * 10 + digit_value(s[i]) > max {
        Err(IntErrorKind::PosOverflow)
    } else {
        scan_digits(s, i + 1, acc * 10 + digit_value(s[i]), max)
    }
}

/// Reading `s` as an unsigned integer no larger than `max`: an optional
/// leading `+`, then one or more decimal digits.
pub open spec fn parse_unsigned(s: Seq<char>, max: nat) -> Result<nat, IntErrorKind> {
    if s.len() == 0 {
        Err(IntErrorKind::Empty)
    } else if s.len() == 1 && (s[0] == '+' || s[0] == '-') {
        Err(IntErrorKind::InvalidDigit)
    } else if s[0] == '+' {
        scan_digits(s, 1, 0, max)
    } else {
        scan_digits(s, 0, 0, max)
    }
}

/// `r` is what `parse_unsigned(s, max)` gives, in machine integers.
pub open spec fn parsed_as(r: Result<u64, IntErrorKind>, s: Seq<char>, max: nat) -> bool {
    match r {
        Ok(v) => parse_unsigned(s, max) == Ok::<nat, IntErrorKind>(v as nat),
        Err(k) => parse_unsigned(s, max) == Err::<nat, IntErrorKind>(k),
    }
}

/// Reads `s` as an unsigned integer that is at most `max`.
pub fn parse_unsigned_upto(s: &str, max: u64) -> (r: Result<u64, IntErrorKind>)
    ensures
        parsed_as(r, s@, max as nat),
        r matches Ok(v) ==> v <= max,
{
    let n = s.unicode_len();
    if n == 0 {
        return Err(IntErrorKind::Empty);
    }
    let first = s.get_char(0);
    if n == 1 && (first == '+' || first == '-') {
        return Err(IntErrorKind::InvalidDigit);
    }
    let start: usize = if first == '+' { 1 } else { 0 };
    let ghost whole = scan_digits(s@, start as int, 0, max as nat);
    assert(parse_unsigned(s@, max as nat) == whole);
    let mut i: usize = start;
    let mut acc: u64 = 0;
    while i < n
        invariant
            n == s@.len(),
            start <= i <= n,
            acc <= max,
            whole == parse_unsigned(s@, max as nat),
            whole == scan_digits(s@, i as int, acc as nat, max as nat),
        decreases n - i,
    {
        let c = s.get_char(i);
        if !('0' <= c && c <= '9') {
            return Err(IntErrorKind::InvalidDigit);
        }
        let d: u64 = (c as u32 - 48u32) as u64;
        assert(d == digit_value(c));
        let wide: u128 = (acc as u128) * 10 + (d as u128);
        if wide > max as u128 {
            return Err(IntErrorKind::PosOverflow);
        }
        acc = wide as u64;
        i = i + 1;
    }
    Ok(acc)
}

/// Reads `s` as a `u64`, as `str::parse::<u64>` does.
pub fn parse_u64(s: &str) -> (r: Result<u64, IntErrorKind>)
    ensures
        parsed_as(r, s@, u64::MAX as nat),
{
    parse_unsigned_upto(s, u64::MAX)
}

/// Reads `s` as a `u8`, as `str::parse::<u8>` does.
pub fn parse_u8(s: &str) -> (r: Result<u8, IntErrorKind>)
    ensures
        match r {
            Ok(v) => parse_unsigned(s@, 255) == Ok::<nat, IntErrorKind>(v as nat),
            Err(k) => parse_unsigned(s@, 255) == Err::<nat, IntErrorKind>(k),
        },
{
    match parse_unsigned_upto(s, 255) {
        Ok(v) => Ok(v as u8),
        Err(k) => Err(k),
    }
}

/// Two string slices hold the same characters.
pub fn str_eq(a: &str, b: &str) -> (r: bool)
    ensures
        r == (a@ == b@),
{
    let x = a.to_owned();
    let y = b.to_owned();
    x == y
}

/// `s` begins with `p`.
pub open spec fn has_prefix(s: Seq<char>, p: Seq<char>) -> bool {
    p.len() <= s.len() && s.subrange(0, p.len() as int) == p
}

/// `s` ends with `p`.
pub open spec fn has_suffix(s: Seq<char>, p: Seq<char>) -> bool {
    p.len() <= s.len() && s.subrange(s.len() - p.len(), s.len() as int) == p
}

/// `n` occurs in `h` as a run of consecutive characters.
pub open spec fn has_infix(h: Seq<char>, n: Seq<char>) -> bool {
    exists|i: int| 0 <= i && i + n.len() <= h.len() && #[trigger] window(h, i, n.len() as int) == n
}

/// The `k` characters of `h` from position `i` on.
pub open spec fn window(h: Seq<char>, i: int, k: int) -> Seq<char> {
    h.subrange(i, i + k)
}

/// Whether `s` begins with `p` (`str::starts_with`).
pub fn starts_with(s: &str, p: &str) -> (r: bool)
    ensures
        r == has_prefix(s@, p@),
{
    let n = p.unicode_len();
    let m = s.unicode_len();
    if n > m {
        false
    } else {
        str_eq(s.substring_char(0, n), p)
    }
}

/// Whether `s` ends with `p` (`str::ends_with`).
pub fn ends_with(s: &str, p: &str) -> (r: bool)
    ensures
        r == has_suffix(s@, p@),
{
    let n = p.unicode_len();
    let m = s.unicode_len();
    if n > m {
        false
    } else {
        str_eq(s.substring_char(m - n, m), p)
    }
}

/// Whether `n` occurs in `h` (`str::contains` with a string pattern).
pub fn contains_str(h: &str, n: &str) -> (r: bool)
    ensures
        r == has_infix(h@, n@),
{
    let k = n.unicode_len();
    let m = h.unicode_len();
    if k > m {
        return false;
    }
    let last = m - k;
    let mut i: usize = 0;
    loop
        invariant
            k == n@.len(),
            m == h@.len(),
            k <= m,
            last == m - k,
            i <= last,
            forall|j: int| 0 <= j < i ==> #[trigger] window(h@, j, k as int) != n@,
        decreases last - i,
    {
        if str_eq(h.substring_char(i, i + k), n) {
            assert(window(h@, i as int, k as int) == n@);
            return true;
        }
        if i == last {
            return false;
        }
        i = i + 1;
    }
}

} // verus!

verus! {

/// The characters whose UTF-8 encoding is the bytes `a..b` of the
/// encoding of `s`.
pub open spec fn byte_slice(s: Seq<char>, a: int, b: int) -> Seq<char> {
    vstd::utf8::decode_utf8(vstd::utf8::encode_utf8(s).subrange(a, b))
}

/// Byte offset `i` of `s` is the start of a character or its end.
pub open spec fn on_boundary(s: Seq<char>, i: int) -> bool {
    vstd::utf8::is_char_boundary(vstd::utf8::encode_utf8(s), i)
}

/// The number of bytes in the UTF-8 encoding of `s`.
pub open spec fn byte_len(s: Seq<char>) -> int {
    vstd::utf8::encode_utf8(s).len() as int
}

/// The first `n` bytes of `s` (`&s[..n]`), which must end on a character
/// boundary.
pub fn byte_prefix(s: &str, n: usize) -> (r: String)
    requires
        on_boundary(s@, n as int),
    ensures
        r@ == byte_slice(s@, 0, n as int),
{
    proof {
        vstd::utf8::encode_utf8_valid_utf8(s@);
    }
    let (a, _b) = s.split_at(n);
    proof {
        vstd::utf8::encode_utf8_decode_utf8(a@);
    }
    a.to_owned()
}

/// The bytes `a..b` of `s` (`&s[a..b]`); both offsets must lie on character
/// boundaries.
pub fn byte_range(s: &str, a: usize, b: usize) -> (r: String)
    requires
        a <= b,
        on_boundary(s@, a as int),
        on_boundary(s@, b as int),
    ensures
        r@ == byte_slice(s@, a as int, b as int),
{
    let ghost bytes = vstd::utf8::encode_utf8(s@);
    proof {
        vstd::utf8::encode_utf8_valid_utf8(s@);
    }
    let (pre, _rest) = s.split_at(b);
    let ghost pb = vstd::utf8::encode_utf8(pre@);
    proof {
        vstd::utf8::valid_utf8_split(bytes, b as int);
        assert(pb =~= bytes.subrange(0, b as int));
        vstd::utf8::encode_utf8_valid_utf8(pre@);
        if a == 0 {
        } else if a == b {
            vstd::utf8::is_char_boundary_start_end_of_seq(pb);
        } else {
            vstd::utf8::is_char_boundary_iff_not_is_continuation_byte(bytes, a as int);
            vstd::utf8::is_char_boundary_iff_not_is_continuation_byte(pb, a as int);
        }
    }
    let (_x, mid) = pre.split_at(a);
    proof {
        vstd::utf8::encode_utf8_decode_utf8(mid@);
        assert(vstd::utf8::encode_utf8(mid@) =~= bytes.subrange(a as int, b as int));
    }
    mid.to_owned()
}

/// The ASCII lower-case form of `c`.
pub open spec fn ascii_lower(c: char) -> char {
    if 'A' <= c && c <= 'Z' {
        ((c as int) + 32) as char
    } else {
        c
    }
}

/// The ASCII upper-case form of `c`.
pub open spec fn ascii_upper(c: char) -> char {
    if 'a' <= c && c <= 'z' {
        ((c as int) - 32) as char
    } else {
        c
    }
}

/// The Unicode lower-case form of a string (`str::to_lowercase`).
pub uninterp spec fn lowercase_of(s: Seq<char>) -> Seq<char>;

/// The Unicode upper-case form of one character (`char::to_uppercase`).
pub uninterp spec fn uppercase_of(c: char) -> Seq<char>;

/// Calls `str::to_lowercase`.  Its result is named `lowercase_of`; on an
/// ASCII string Unicode lower-casing maps `A`-`Z` to `a`-`z` and keeps
/// every other character.
#[verifier::external_body]
pub(crate) fn to_lowercase(s: &str) -> (r: String)
    ensures
        r@ == lowercase_of(s@),
        vstd::utf8::is_ascii_chars(s@) ==> r@ == s@.map_values(|c: char| ascii_lower(c)),
{
    s.to_lowercase()
}

/// Calls `char::to_uppercase` and collects the characters it yields.  Its
/// result is named `uppercase_of`; for an ASCII character Unicode
/// upper-casing maps `a`-`z` to `A`-`Z` and keeps every other character.
#[verifier::external_body]
pub(crate) fn char_to_uppercase(c: char) -> (r: String)
    ensures
        r@ == uppercase_of(c),
        c <= '\u{7f}' ==> r@ == seq![ascii_upper(c)],
{
    c.to_uppercase().collect::<String>()
}

/// `s` with its first character upper-cased.
pub open spec fn capitalized(s: Seq<char>) -> Seq<char> {
    if s.len() == 0 {
        Seq::empty()
    } else {
        uppercase_of(s[0]) + s.drop_first()
    }
}

/// `s` with its first character upper-cased the ASCII way.
pub open spec fn ascii_capitalized(s: Seq<char>) -> Seq<char> {
    if s.len() == 0 {
        Seq::empty()
    } else {
        seq![ascii_upper(s[0])] + s.drop_first()
    }
}

/// `s` is empty or starts with an ASCII character.
pub open spec fn ascii_start(s: Seq<char>) -> bool {
    s.len() == 0 || s[0] <= '\u{7f}'
}

/// Upper-cases the first character of `i` and keeps the rest.
pub fn capitalize(i: &str) -> (r: String)
    ensures
        r@ == capitalized(i@),
        ascii_start(i@) ==> r@ == ascii_capitalized(i@),
{
    let n = i.unicode_len();
    if n == 0 {
        return String::new();
    }
    let l = i.get_char(0);
    let head = char_to_uppercase(l);
    let rest = i.substring_char(1, n);
    assert(rest@ =~= i@.drop_first());
    head.concat(rest)
}

} // verus!

verus! {

/// The value of a string of decimal digits.
pub open spec fn digits_value(s: Seq<char>) -> nat
    decreases s.len(),
{
    if s.len() == 0 {
        0
    } else {
        digits_value(s.drop_last()) * 10 + digit_value(s.last())
    }
}

/// Every character of `s` is a decimal digit.
pub open spec fn all_digits(s: Seq<char>) -> bool {
    forall|i: int| 0 <= i < s.len() ==> is_digit(#[trigger] s[i])
}

proof fn lemma_digit_char(d: nat)
    requires
        d < 10,
    ensures
        is_digit(digit_char(d)),
        digit_value(digit_char(d)) == d,
{
    assert(((d + 48) as u32) as char == digit_char(d));
    vstd::utf8::char_u32_cast(digit_char(d), (d + 48) as u32);
}

/// The decimal representation of `n` is made of digits and has value `n`.
pub proof fn lemma_decimal_digits(n: nat)
    ensures
        decimal(n).len() >= 1,
        all_digits(decimal(n)),
        digits_value(decimal(n)) == n,
        decimal(n)[0] != '+' && decimal(n)[0] != '-',
    decreases n,
{
    lemma_digit_char(n % 10);
    if n >= 10 {
        lemma_decimal_digits(n / 10);
        let s = decimal(n);
        assert(s.drop_last() =~= decimal(n / 10));
        assert forall|i: int| 0 <= i < s.len() implies is_digit(#[trigger] s[i]) by {
            if i < s.len() - 1 {
                assert(s[i] == decimal(n / 10)[i]);
            }
        }
        assert(s[0] == decimal(n / 10)[0]);
        assert(s.last() == digit_char(n % 10));
        assert(digits_value(s) == digits_value(decimal(n / 10)) * 10 + digit_value(digit_char(n % 10)));
        assert((n / 10) * 10 + n % 10 == n);
    } else {
        lemma_digit_char(n);
        let s = decimal(n);
        assert(s.drop_last() =~= Seq::<char>::empty());
        assert(s.last() == digit_char(n));
        assert(digits_value(s) == digits_value(s.drop_last()) * 10 + digit_value(s.last()));
    }
}

/// A longer prefix of a digit string is worth at least as much.
proof fn lemma_prefix_value_monotone(s: Seq<char>, j: int)
    requires
        all_digits(s),
        0 <= j <= s.len(),
    ensures
        digits_value(s.take(j)) <= digits_value(s),
    decreases s.len() - j,
{
    if j < s.len() {
        lemma_prefix_value_monotone(s, j + 1);
        let t = s.take(j + 1);
        assert(t.drop_last() =~= s.take(j));
    } else {
        assert(s.take(j) =~= s);
    }
}

/// Scanning a digit string whose value fits reads exactly that value.
proof fn lemma_scan_reads_value(s: Seq<char>, i: int, max: nat)
    requires
        all_digits(s),
        digits_value(s) <= max,
        0 <= i <= s.len(),
    ensures
        scan_digits(s, i, digits_value(s.take(i)), max) == Ok::<nat, IntErrorKind>(digits_value(s)),
    decreases s.len() - i,
{
    if i < s.len() {
        let t = s.take(i + 1);
        assert(t.drop_last() =~= s.take(i));
        assert(t.last() == s[i]);
        lemma_prefix_value_monotone(s, i + 1);
        lemma_scan_reads_value(s, i + 1, max);
    } else {
        assert(s.take(i) =~= s);
    }
}

/// Reading back the decimal representation of a number gives the number:
/// the key of a user is read back as the user's id.
pub proof fn lemma_decimal_parses_back(n: nat, max: nat)
    requires
        n <= max,
    ensures
        parse_unsigned(decimal(n), max) == Ok::<nat, IntErrorKind>(n),
{
    lemma_decimal_digits(n);
    let s = decimal(n);
    assert(s.take(0) =~= Seq::<char>::empty());
    lemma_scan_reads_value(s, 0, max);
}

} // verus!

verus! {

/// Ten to the power `k`.
pub open spec fn ten_pow(k: nat) -> nat
    decreases k,
{
    if k == 0 {
        1
    } else {
        10 * ten_pow((k - 1) as nat)
    }
}

/// A number below ten to the power `k` has at most `k` digits.
pub proof fn lemma_decimal_len(n: nat, k: nat)
    requires
        k >= 1,
        n < ten_pow(k),
    ensures
        decimal(n).len() <= k,
    decreases k,
{
    if n >= 10 {
        assert(k >= 2) by {
            if k == 1 {
                assert(ten_pow(0) == 1);
            }
        }
        assert(n / 10 < ten_pow((k - 1) as nat));
        lemma_decimal_len(n / 10, (k - 1) as nat);
    }
}

/// In ASCII text every character is one byte, so the text can be cut at
/// any byte, and the bytes `a..b` are the characters `a..b`.
pub proof fn lemma_ascii_byte_slice(s: Seq<char>, a: int, b: int)
    requires
        vstd::utf8::is_ascii_chars(s),
        0 <= a <= b <= s.len(),
    ensures
        byte_len(s) == s.len(),
        on_boundary(s, a),
        on_boundary(s, b),
        byte_slice(s, a, b) == s.subrange(a, b),
{
    let bytes = vstd::utf8::encode_utf8(s);
    let sub = s.subrange(a, b);
    vstd::utf8::is_ascii_chars_encode_utf8(s);
    vstd::utf8::encode_utf8_valid_utf8(s);
    vstd::utf8::is_char_boundary_start_end_of_seq(bytes);
    assert(vstd::utf8::is_ascii_chars(sub)) by {
        assert forall|i: int| 0 <= i < sub.len() implies '\0' <= #[trigger] sub[i] <= '\u{7f}' by {
            assert(sub[i] == s[a + i]);
        }
    }
    vstd::utf8::is_ascii_chars_encode_utf8(sub);
    assert(vstd::utf8::encode_utf8(sub) =~= bytes.subrange(a, b)) by {
        assert forall|i: int| 0 <= i < sub.len() implies #[trigger] vstd::utf8::encode_utf8(sub)[i] == bytes.subrange(a, b)[i] by {
            assert(sub[i] == s[a + i]);
            assert(bytes[a + i] == s[a + i] as u8);
        }
    }
    vstd::utf8::encode_utf8_decode_utf8(sub);
    if a < s.len() {
        vstd::utf8::is_char_boundary_iff_is_leading_byte(bytes, a);
        assert(bytes[a] == s[a] as u8);
    }
    if b < s.len() {
        vstd::utf8::is_char_boundary_iff_is_leading_byte(bytes, b);
        assert(bytes[b] == s[b] as u8);
    }
}

} // verus!

verus! {

/// Capitalizing text that starts with an ASCII character (or is empty)
/// once is enough: the result again starts with an ASCII character,
/// capitalizing it changes nothing, and it has as many bytes as the text.
pub proof fn lemma_capitalize_twice(s: Seq<char>)
    requires
        ascii_start(s),
    ensures
        ascii_start(ascii_capitalized(s)),
        ascii_capitalized(ascii_capitalized(s)) == ascii_capitalized(s),
        byte_len(ascii_capitalized(s)) == byte_len(s),
{
    if s.len() > 0 {
        let c = s[0];
        let u = ascii_upper(c);
        let t = ascii_capitalized(s);
        assert(u <= '\u{7f}');
        assert(ascii_upper(u) == u);
        assert(t[0] == u);
        assert(t.drop_first() =~= s.drop_first());
        assert(seq![ascii_upper(t[0])] + t.drop_first() =~= t);
        assert(vstd::utf8::encode_utf8(t) == vstd::utf8::encode_scalar(u as u32) + vstd::utf8::encode_utf8(s.drop_first()));
        assert(vstd::utf8::encode_utf8(s) == vstd::utf8::encode_scalar(c as u32) + vstd::utf8::encode_utf8(s.drop_first()));
    }
}

} // verus!

verus! {

/// The number of bytes of `s` (`str::len`).
pub fn byte_count(s: &str) -> (r: usize)
    ensures
        r == byte_len(s@),
{
    let b = s.as_bytes();
    proof {
        vstd::slice::axiom_spec_len(b);
    }
    b.len()
}

} // verus!
