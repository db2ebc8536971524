//! Text helpers: every string of the library is specified through its `Seq<char>` view.

use vstd::prelude::*;
use vstd::string::*;
use vstd::utf8::*;

verus! {

/// [`String::push`] appends one character.
pub assume_specification[ String::push ](s: &mut String, c: char)
    ensures
        final(s)@ == old(s)@.push(c),
;

/// The `Debug` form of a text: quoted, with escapes.
pub uninterp spec fn debug_quoted(s: Seq<char>) -> Seq<char>;

/// [`format!`] of a text with `{:?}`: the result is [`debug_quoted`] of the text, which the
/// standard library determines.
#[verifier::external_body]
pub(crate) fn quoted(s: &str) -> (text: String)
    ensures
        text@ == debug_quoted(s@),
{
    format!("{:?}", s)
}

/// The lower-case equivalent of a text with characters beyond ASCII, by the rules of Unicode.
pub uninterp spec fn unicode_lowercase(s: Seq<char>) -> Seq<char>;

/// The lower-case equivalent of an ASCII character.
pub open spec fn ascii_lowercase(c: char) -> char {
    if 'A' <= c && c <= 'Z' {
        ((c as u32 + 32) as u8) as char
    } else {
        c
    }
}

/// A text of ASCII characters.
pub open spec fn is_ascii_text(s: Seq<char>) -> bool {
    forall|i: int| 0 <= i < s.len() ==> (#[trigger] s[i]) as u32 <= 127
}

/// The lower-case equivalent of a text.
pub open spec fn lowercase(s: Seq<char>) -> Seq<char> {
    if is_ascii_text(s) {
        s.map_values(|c: char| ascii_lowercase(c))
    } else {
        unicode_lowercase(s)
    }
}

/// [`str::to_lowercase`]: a text of ASCII characters is changed character by character; what
/// becomes of any other is named [`unicode_lowercase`], which the standard library determines.
#[verifier::external_body]
pub(crate) fn to_lowercase(s: &str) -> (lower: String)
    ensures
        lower@ == if is_ascii_text(s@) {
            s@.map_values(|c: char| ascii_lowercase(c))
        } else {
            unicode_lowercase(s@)
        },
{
    s.to_lowercase()
}

/// Whether two texts hold the same characters.
pub fn same_text(a: &str, b: &str) -> (same: bool)
    ensures
        same == (a@ == b@),
{
    let n: usize = a.unicode_len();
    if n != b.unicode_len() {
        return false;
    }
    let mut i: usize = 0;
    while i < n
        invariant
            i <= n,
            n == a@.len(),
            n == b@.len(),
            forall|k: int| 0 <= k < i ==> a@[k] == b@[k],
        decreases n - i,
    {
        if a.get_char(i) != b.get_char(i) {
            assert(a@[i as int] != b@[i as int]);
            return false;
        }
        i = i + 1;
    }
    assert(a@ =~= b@);
    true
}

/// The characters of `s`, in order.
pub fn chars_of(s: &str) -> (chars: Vec<char>)
    ensures
        chars@ == s@,
{
    let mut out: Vec<char> = Vec::new();
    let n: usize = s.unicode_len();
    let mut i: usize = 0;
    while i < n
        invariant
            i <= n,
            n == s@.len(),
            out@ =~= s@.take(i as int),
        decreases n - i,
    {
        out.push(s.get_char(i));
        i = i + 1;
    }
    out
}

/// The text made of `chars[from..]`.
pub fn text_from(chars: &Vec<char>, from: usize) -> (text: String)
    requires
        from <= chars@.len(),
    ensures
        text@ == chars@.skip(from as int),
{
    let mut out = String::new();
    let mut i: usize = from;
    while i < chars.len()
        invariant
            from <= i <= chars@.len(),
            out@ =~= chars@.subrange(from as int, i as int),
        decreases chars@.len() - i,
    {
        out.push(chars[i]);
        i = i + 1;
    }
    out
}

/// `a` followed by `b`.
pub fn concat2(a: &str, b: &str) -> (text: String)
    ensures
        text@ == a@ + b@,
{
    let mut out = a.to_owned();
    out.append(b);
    out
}

/// The digits that numbers are written with.
pub open spec fn digit_char(d: int) -> char {
    "0123456789abcdef"@[d]
}

/// The number `n` written in base `base`, without leading zeros.
pub open spec fn in_base(n: nat, base: nat) -> Seq<char>
    recommends
        2 <= base <= 16,
    decreases n,
{
    if base < 2 || n < base {
        seq![digit_char(n as int)]
    } else {
        proof {
            assert(n / base < n) by (nonlinear_arith)
                requires
                    2 <= base <= n,
            ;
        }
        in_base(n / base, base).push(digit_char((n % base) as int))
    }
}

/// The number `n` in base ten.
pub open spec fn decimal(n: nat) -> Seq<char> {
    in_base(n, 10)
}

/// The number `n` in lower-case hexadecimal.
pub open spec fn lower_hex(n: nat) -> Seq<char> {
    in_base(n, 16)
}

fn write_in_base(n: u128, base: u128, out: &mut String)
    requires
        2 <= base <= 16,
    ensures
        final(out)@ == old(out)@ + in_base(n as nat, base as nat),
    decreases n,
{
    proof {
        reveal_strlit("0123456789abcdef");
    }
    if n >= base {
        assert(n / base < n) by (nonlinear_arith)
            requires
                2 <= base <= n,
        ;
        write_in_base(n / base, base, out);
    }
    let d: u128 = n % base;
    out.push("0123456789abcdef".get_char(d as usize));
    proof {
        assert(n < base ==> n % base == n) by (nonlinear_arith)
            requires
                base >= 2,
                n >= 0,
        ;
        assert(out@ =~= old(out)@ + in_base(n as nat, base as nat));
    }
}

/// Writes `n` in base ten.
pub fn to_decimal(n: u64) -> (text: String)
    ensures
        text@ == decimal(n as nat),
{
    let mut out = String::new();
    write_in_base(n as u128, 10, &mut out);
    assert(out@ =~= decimal(n as nat));
    out
}

/// Writes `n` in lower-case hexadecimal.
pub fn to_lower_hex(n: u64) -> (text: String)
    ensures
        text@ == lower_hex(n as nat),
{
    let mut out = String::new();
    write_in_base(n as u128, 16, &mut out);
    assert(out@ =~= lower_hex(n as nat));
    out
}

/// The views of a list of texts.
pub open spec fn views(texts: Seq<String>) -> Seq<Seq<char>> {
    texts.map_values(|s: String| s@)
}

/// The texts of a list, one after the other, with `sep` in between.
pub open spec fn joined(parts: Seq<Seq<char>>, sep: Seq<char>) -> Seq<char>
    decreases parts.len(),
{
    if parts.len() == 0 {
        Seq::empty()
    } else if parts.len() == 1 {
        parts[0]
    } else {
        joined(parts.drop_last(), sep) + sep + parts.last()
    }
}

/// Joins `parts[from..]` with `sep`.
pub fn join_from(parts: &Vec<String>, from: usize, sep: &str) -> (text: String)
    requires
        from <= parts@.len(),
    ensures
        text@ == joined(views(parts@).skip(from as int), sep@),
{
    let mut out = String::new();
    let mut i: usize = from;
    while i < parts.len()
        invariant
            from <= i <= parts@.len(),
            out@ == joined(views(parts@).subrange(from as int, i as int), sep@),
        decreases parts@.len() - i,
    {
        let ghost done = views(parts@).subrange(from as int, i as int);
        let ghost next = views(parts@).subrange(from as int, i + 1);
        assert(next.drop_last() =~= done);
        assert(next.last() == parts@[i as int]@);
        if i > from {
            out.append(sep);
        }
        out.append(parts[i].as_str());
        assert(out@ =~= joined(next, sep@));
        i = i + 1;
    }
    assert(views(parts@).subrange(from as int, i as int) =~= views(parts@).skip(from as int));
    out
}

/// Joins `parts` with `sep`.
pub fn join_all(parts: &Vec<String>, sep: &str) -> (text: String)
    ensures
        text@ == joined(views(parts@), sep@),
{
    assert(views(parts@).skip(0) =~= views(parts@));
    join_from(parts, 0, sep)
}

/// Three texts with `sep` in between.
pub open spec fn joined3(a: Seq<char>, b: Seq<char>, c: Seq<char>, sep: Seq<char>) -> Seq<char> {
    a + sep + b + sep + c
}

/// Joins three texts with `sep`.
pub fn join3(a: &str, b: &str, c: &str, sep: &str) -> (text: String)
    ensures
        text@ == joined3(a@, b@, c@, sep@),
{
    let mut out = a.to_owned();
    out.append(sep);
    out.append(b);
    out.append(sep);
    out.append(c);
    out
}

/// The text made of `chars[from..to]`.
pub fn text_between(chars: &Vec<char>, from: usize, to: usize) -> (text: String)
    requires
        from <= to <= chars@.len(),
    ensures
        text@ == chars@.subrange(from as int, to as int),
{
    let mut out = String::new();
    let mut i: usize = from;
    while i < to
        invariant
            from <= i <= to <= chars@.len(),
            out@ =~= chars@.subrange(from as int, i as int),
        decreases to - i,
    {
        out.push(chars[i]);
        i = i + 1;
    }
    out
}

/// A character with the Unicode property `White_Space`.
pub open spec fn is_white_space(c: char) -> bool {
    let n = c as u32;
    ||| 0x9 <= n <= 0xd
    ||| n == 0x20
    ||| n == 0x85
    ||| n == 0xa0
    ||| n == 0x1680
    ||| 0x2000 <= n <= 0x200a
    ||| n == 0x2028
    ||| n == 0x2029
    ||| n == 0x202f
    ||| n == 0x205f
    ||| n == 0x3000
}

/// Whether `c` has the Unicode property `White_Space`.
pub fn white_space(c: char) -> (found: bool)
    ensures
        found == is_white_space(c),
{
    let n: u32 = c as u32;
    (0x9 <= n && n <= 0xd) || n == 0x20 || n == 0x85 || n == 0xa0 || n == 0x1680 || (0x2000 <= n
        && n <= 0x200a) || n == 0x2028 || n == 0x2029 || n == 0x202f || n == 0x205f || n == 0x3000
}

/// A text without the white space at its start.
pub open spec fn trimmed_start(s: Seq<char>) -> Seq<char>
    decreases s.len(),
{
    if s.len() > 0 && is_white_space(s[0]) {
        trimmed_start(s.drop_first())
    } else {
        s
    }
}

/// A text without the white space at its end.
pub open spec fn trimmed_end(s: Seq<char>) -> Seq<char>
    decreases s.len(),
{
    if s.len() > 0 && is_white_space(s.last()) {
        trimmed_end(s.drop_last())
    } else {
        s
    }
}

/// A text without white space at its ends, its ASCII letters in lower case.
pub open spec fn normalized(s: Seq<char>) -> Seq<char> {
    trimmed_end(trimmed_start(s)).map_values(|c: char| ascii_lowercase(c))
}

/// The lower-case equivalent of an ASCII letter; any other character stays.
pub fn lower_ascii(c: char) -> (lower: char)
    ensures
        lower == ascii_lowercase(c),
{
    if 'A' <= c && c <= 'Z' {
        ((c as u32 + 32) as u8) as char
    } else {
        c
    }
}

/// Drops white space at the ends and writes ASCII letters in lower case.
pub fn normalize(s: &str) -> (text: String)
    ensures
        text@ == normalized(s@),
{
    let chars = chars_of(s);
    let n: usize = chars.len();
    let mut from: usize = 0;
    assert(chars@.skip(0) =~= chars@);
    while from < n && white_space(chars[from])
        invariant
            from <= n,
            n == chars@.len(),
            trimmed_start(chars@.skip(from as int)) == trimmed_start(s@),
        decreases n - from,
    {
        assert(chars@.skip(from as int).drop_first() =~= chars@.skip(from + 1));
        from = from + 1;
    }
    let mut to: usize = n;
    assert(chars@.skip(from as int) =~= chars@.subrange(from as int, to as int));
    while to > from && white_space(chars[to - 1])
        invariant
            from <= to <= n,
            n == chars@.len(),
            trimmed_end(chars@.subrange(from as int, to as int)) == trimmed_end(
                trimmed_start(s@),
            ),
        decreases to,
    {
        assert(chars@.subrange(from as int, to as int).drop_last() =~= chars@.subrange(
            from as int,
            to - 1,
        ));
        to = to - 1;
    }
    let ghost kept = chars@.subrange(from as int, to as int);
    let mut out = String::new();
    let mut i: usize = from;
    while i < to
        invariant
            from <= i <= to <= chars@.len(),
            kept == chars@.subrange(from as int, to as int),
            out@ =~= kept.take(i - from).map_values(|c: char| ascii_lowercase(c)),
        decreases to - i,
    {
        out.push(lower_ascii(chars[i]));
        assert(kept.take(i + 1 - from) =~= kept.take(i - from).push(chars@[i as int]));
        i = i + 1;
    }
    assert(kept.take(to - from) =~= kept);
    out
}

/// A decimal digit.
pub open spec fn is_digit(c: char) -> bool {
    '0' <= c && c <= '9'
}

/// The number that a text of decimal digits stands for.
pub open spec fn decimal_value(s: Seq<char>) -> nat
    decreases s.len(),
{
    if s.len() == 0 {
        0
    } else {
        (decimal_value(s.drop_last()) * 10 + (s.last() as u32 - '0' as u32)) as nat
    }
}

/// A text without a `+` at its start.
pub open spec fn without_plus(s: Seq<char>) -> Seq<char> {
    if s.len() > 0 && s[0] == '+' {
        s.drop_first()
    } else {
        s
    }
}

/// Whether a text holds only decimal digits.
pub open spec fn all_digits(s: Seq<char>) -> bool {
    forall|i: int| 0 <= i < s.len() ==> is_digit(#[trigger] s[i])
}

/// The unsigned number that a text stands for, if it is one of at most `max`: an optional `+` and
/// one or more decimal digits.
pub open spec fn unsigned_value(s: Seq<char>, max: nat) -> Option<nat> {
    let digits = without_plus(s);
    if digits.len() > 0 && all_digits(digits) && decimal_value(digits) <= max {
        Some(decimal_value(digits))
    } else {
        None
    }
}

proof fn lemma_decimal_value_grows(s: Seq<char>, n: int)
    requires
        0 <= n <= s.len(),
        forall|i: int| 0 <= i < s.len() ==> is_digit(#[trigger] s[i]),
    ensures
        decimal_value(s.take(n)) <= decimal_value(s),
    decreases s.len() - n,
{
    if n == s.len() {
        assert(s.take(n) =~= s);
    } else {
        lemma_decimal_value_grows(s, n + 1);
        assert(s.take(n + 1).drop_last() =~= s.take(n));
        assert(is_digit(s[n]));
    }
}

/// Reads an unsigned 16-bit number, as `u16::from_str` does.
pub fn parse_u16(s: &str) -> (number: Option<u16>)
    ensures
        match number {
            Some(n) => unsigned_value(s@, u16::MAX as nat) == Some(n as nat),
            None => unsigned_value(s@, u16::MAX as nat) is None,
        },
{
    let chars = chars_of(s);
    let n: usize = chars.len();
    let mut from: usize = 0;
    if n > 0 && chars[0] == '+' {
        from = 1;
    }
    let ghost digits = without_plus(s@);
    assert(digits =~= chars@.skip(from as int));
    if from == n {
        return None;
    }
    let mut value: u32 = 0;
    let mut i: usize = from;
    assert(digits.take(0) =~= Seq::empty());
    while i < n
        invariant
            from <= i <= n,
            n == chars@.len(),
            digits == chars@.skip(from as int),
            digits == without_plus(s@),
            value <= u16::MAX,
            value == decimal_value(digits.take(i - from)),
            forall|j: int| 0 <= j < i - from ==> is_digit(#[trigger] digits[j]),
        decreases n - i,
    {
        let c = chars[i];
        let ghost k = i - from;
        assert(digits[k] == c);
        if !('0' <= c && c <= '9') {
            assert(!is_digit(digits[k]));
            return None;
        }
        let d: u32 = c as u32 - '0' as u32;
        assert(digits.take(k + 1).drop_last() =~= digits.take(k));
        value = value * 10 + d;
        if value > 65535 {
            proof {
                if all_digits(digits) {
                    lemma_decimal_value_grows(digits, k + 1);
                }
            }
            return None;
        }
        i = i + 1;
    }
    assert(digits.take(n - from) =~= digits);
    Some(value as u16)
}

/// The value of a hexadecimal digit of either case.
pub open spec fn hex_digit(c: char) -> Option<nat> {
    if '0' <= c && c <= '9' {
        Some((c as u32 - '0' as u32) as nat)
    } else if 'a' <= c && c <= 'f' {
        Some((c as u32 - 'a' as u32 + 10) as nat)
    } else if 'A' <= c && c <= 'F' {
        Some((c as u32 - 'A' as u32 + 10) as nat)
    } else {
        None
    }
}

/// Whether a text holds only hexadecimal digits.
pub open spec fn all_hex_digits(s: Seq<char>) -> bool {
    forall|i: int| 0 <= i < s.len() ==> hex_digit(#[trigger] s[i]) is Some
}

/// The number that a text of hexadecimal digits stands for.
pub open spec fn hex_value(s: Seq<char>) -> nat
    decreases s.len(),
{
    if s.len() == 0 {
        0
    } else {
        match hex_digit(s.last()) {
            Some(d) => hex_value(s.drop_last()) * 16 + d,
            None => 0,
        }
    }
}

/// The signed 64-bit number that a text in hexadecimal stands for: an optional sign and one or more
/// digits.
pub open spec fn hex_i64(s: Seq<char>) -> Option<i64> {
    let signed = s.len() > 0 && (s[0] == '+' || s[0] == '-');
    let digits = if signed {
        s.drop_first()
    } else {
        s
    };
    let value: int = if signed && s[0] == '-' {
        -(hex_value(digits) as int)
    } else {
        hex_value(digits) as int
    };
    if digits.len() > 0 && all_hex_digits(digits) && i64::MIN <= value <= i64::MAX {
        Some(value as i64)
    } else {
        None
    }
}

/// Why a text is not a signed 64-bit number in hexadecimal, in the words of the standard library.
pub uninterp spec fn hex_i64_error(s: Seq<char>) -> Seq<char>;

/// [`i64::from_str_radix`] with radix 16, with the error in words: the number, where the text is an
/// optional sign and one or more digits that stand for a number of 64 bits.
#[verifier::external_body]
pub(crate) fn parse_hex_i64(s: &str) -> (number: Result<i64, String>)
    ensures
        number is Ok == hex_i64(s@) is Some,
        number is Ok ==> hex_i64(s@) == Some(number->Ok_0),
        number is Err ==> number->Err_0@ == hex_i64_error(s@),
{
    i64::from_str_radix(s, 16).map_err(|error| error.to_string())
}

/// [`String::from_utf8`]: the text that the bytes encode, if they encode one.
#[verifier::external_body]
pub(crate) fn text_of_utf8(bytes: Vec<u8>) -> (text: Option<String>)
    ensures
        text is Some == valid_utf8(bytes@),
        text is Some ==> text->Some_0@ == decode_utf8(bytes@),
{
    String::from_utf8(bytes).ok()
}

/// What becomes of bytes that encode no text, with replacements for what cannot be read.
pub uninterp spec fn repaired_utf8(bytes: Seq<u8>) -> Seq<char>;

/// The text that bytes encode, repaired where they encode none.
pub open spec fn lossy_text(bytes: Seq<u8>) -> Seq<char> {
    if valid_utf8(bytes) {
        decode_utf8(bytes)
    } else {
        repaired_utf8(bytes)
    }
}

/// [`String::from_utf8_lossy`]: the text that the bytes encode; what becomes of bytes that encode
/// none is named [`repaired_utf8`], which the standard library determines.
#[verifier::external_body]
pub(crate) fn text_of_utf8_lossy(bytes: &Vec<u8>) -> (text: String)
    ensures
        text@ == if valid_utf8(bytes@) {
            decode_utf8(bytes@)
        } else {
            repaired_utf8(bytes@)
        },
{
    String::from_utf8_lossy(bytes).into_owned()
}

/// The number `n` in lower-case hexadecimal, with zeros in front where it is shorter than `width`.
pub open spec fn padded_hex(n: nat, width: nat) -> Seq<char> {
    if lower_hex(n).len() >= width {
        lower_hex(n)
    } else {
        Seq::new((width - lower_hex(n).len()) as nat, |i: int| '0') + lower_hex(n)
    }
}

/// Writes `n` in lower-case hexadecimal, with zeros in front where it is shorter than `width`.
pub fn to_padded_hex(n: u128, width: usize) -> (text: String)
    ensures
        text@ == padded_hex(n as nat, width as nat),
{
    let mut digits = String::new();
    write_in_base(n, 16, &mut digits);
    assert(digits@ =~= lower_hex(n as nat));
    let count: usize = digits.as_str().unicode_len();
    let mut out = String::new();
    let mut i: usize = count;
    while i < width
        invariant
            i >= count,
            count >= width ==> i == count,
            count < width ==> i <= width,
            out@ =~= Seq::new((i - count) as nat, |k: int| '0'),
        decreases width - i,
    {
        out.push('0');
        i = i + 1;
    }
    out.append(digits.as_str());
    assert(out@ =~= padded_hex(n as nat, width as nat));
    out
}

/// Whether `s` starts with `prefix`.
pub fn starts_with(s: &str, prefix: &str) -> (found: bool)
    ensures
        found == prefix@.is_prefix_of(s@),
{
    let n: usize = prefix.unicode_len();
    if s.unicode_len() < n {
        return false;
    }
    let mut i: usize = 0;
    while i < n
        invariant
            i <= n,
            n == prefix@.len(),
            n <= s@.len(),
            forall|k: int| 0 <= k < i ==> s@[k] == prefix@[k],
        decreases n - i,
    {
        if s.get_char(i) != prefix.get_char(i) {
            proof {
                if prefix@.is_prefix_of(s@) {
                    assert(s@.subrange(0, n as int)[i as int] == s@[i as int]);
                }
            }
            return false;
        }
        i = i + 1;
    }
    assert(s@.subrange(0, n as int) =~= prefix@);
    true
}

/// Whether `outcome` is the specified one, of which an error is specified by its text.
pub open spec fn yields<V>(outcome: Result<V, String>, expected: Result<V, Seq<char>>) -> bool {
    match expected {
        Ok(value) => outcome == Ok::<V, String>(value),
        Err(text) => outcome is Err && outcome->Err_0@ == text,
    }
}

/// A number written in base ten reads back as itself: it is all digits, without a zero in front but
/// for zero itself.
pub proof fn law_decimal_reads_back(n: nat)
    ensures
        decimal(n).len() > 0,
        all_digits(decimal(n)),
        decimal_value(decimal(n)) == n,
        n > 0 ==> decimal(n)[0] != '0',
    decreases n,
{
    reveal_strlit("0123456789abcdef");
    let s = decimal(n);
    if n < 10 {
        assert(s =~= seq![digit_char(n as int)]);
        assert(s.drop_last() =~= Seq::empty());
        assert(decimal_value(s.drop_last()) == 0);
    } else {
        law_decimal_reads_back(n / 10);
        assert(s.drop_last() =~= decimal(n / 10));
        assert forall|i: int| 0 <= i < s.len() implies is_digit(#[trigger] s[i]) by {
            if i < s.len() - 1 {
                assert(s[i] == decimal(n / 10)[i]);
            }
        }
        assert(s[0] == decimal(n / 10)[0]);
    }
}

/// A number written in hexadecimal reads back as itself.
pub proof fn law_hex_reads_back(n: nat)
    ensures
        lower_hex(n).len() > 0,
        all_hex_digits(lower_hex(n)),
        hex_value(lower_hex(n)) == n,
        n > 0 ==> lower_hex(n)[0] != '0',
        forall|i: int| 0 <= i < lower_hex(n).len() ==> !('A' <= #[trigger] lower_hex(n)[i] <= 'F'),
    decreases n,
{
    reveal_strlit("0123456789abcdef");
    let s = lower_hex(n);
    if n < 16 {
        assert(s =~= seq![digit_char(n as int)]);
        assert(s.drop_last() =~= Seq::empty());
        assert(hex_value(s.drop_last()) == 0);
    } else {
        law_hex_reads_back(n / 16);
        assert(s.drop_last() =~= lower_hex(n / 16));
        assert forall|i: int| 0 <= i < s.len() implies hex_digit(#[trigger] s[i]) is Some && !(
        'A' <= s[i] <= 'F') by {
            if i < s.len() - 1 {
                assert(s[i] == lower_hex(n / 16)[i]);
            }
        }
        assert(s[0] == lower_hex(n / 16)[0]);
    }
}

proof fn lemma_zeros_in_front(zeros: Seq<char>, s: Seq<char>)
    requires
        forall|i: int| 0 <= i < zeros.len() ==> zeros[i] == '0',
        all_hex_digits(s),
    ensures
        hex_value(zeros + s) == hex_value(s),
        all_hex_digits(zeros + s),
    decreases zeros.len() + s.len(),
{
    let whole = zeros + s;
    if s.len() > 0 {
        assert(whole.drop_last() =~= zeros + s.drop_last());
        assert forall|i: int| 0 <= i < s.drop_last().len() implies hex_digit(
            #[trigger] s.drop_last()[i],
        ) is Some by {
            assert(hex_digit(s[i]) is Some);
        }
        lemma_zeros_in_front(zeros, s.drop_last());
        assert(hex_digit(s[s.len() - 1]) is Some);
    } else if zeros.len() > 0 {
        assert(whole =~= zeros);
        let rest = zeros.drop_last();
        assert(rest + s =~= rest);
        assert(whole.drop_last() =~= rest);
        lemma_zeros_in_front(rest, s);
    } else {
        assert(whole =~= s);
    }
    assert forall|i: int| 0 <= i < whole.len() implies hex_digit(#[trigger] whole[i]) is Some by {
        if i >= zeros.len() {
            assert(whole[i] == s[i - zeros.len()]);
        }
    }
}

/// A padded number is at least as wide as asked for, no wider than it has to be, and reads back as
/// the number.
pub proof fn law_padded_number_reads_back(n: nat, width: nat)
    ensures
        padded_hex(n, width).len() >= width,
        padded_hex(n, width).len() > width ==> padded_hex(n, width) == lower_hex(n),
        hex_value(padded_hex(n, width)) == n,
{
    law_hex_reads_back(n);
    if lower_hex(n).len() < width {
        let zeros = Seq::new((width - lower_hex(n).len()) as nat, |i: int| '0');
        lemma_zeros_in_front(zeros, lower_hex(n));
    }
}

/// A port that is written is read, and nothing else is read as a port: what is read is the value of
/// digits, of which there is at least one, behind an optional sign.
pub proof fn law_port_reads_back(port: u16, text: String, s: &str, read: Option<u16>)
    requires
        call_ensures(to_decimal, (port as u64,), text),
        s@ == text@,
        call_ensures(parse_u16, (s,), read),
    ensures
        read == Some(port),
{
    law_decimal_reads_back(port as nat);
    assert(is_digit(text@[0]));
}

/// A text with anything but digits in it, behind an optional sign, is no port.
pub proof fn law_text_is_no_port(s: &str, read: Option<u16>, i: int)
    requires
        call_ensures(parse_u16, (s,), read),
        s@.len() == 0 || (0 <= i < s@.len() && !('0' <= s@[i] <= '9') && (i > 0 || s@[i] != '+')),
    ensures
        read is None,
{
    let digits = without_plus(s@);
    if s@.len() > 0 && s@[0] == '+' {
        assert(digits[i - 1] == s@[i]);
        assert(!is_digit(digits[i - 1]));
    } else if s@.len() > 0 {
        assert(!is_digit(digits[i]));
    }
}

/// A list of texts is joined by joining its two halves and the halves with each other.
pub proof fn law_joined_halves(a: Seq<Seq<char>>, b: Seq<Seq<char>>, sep: Seq<char>)
    requires
        a.len() > 0,
        b.len() > 0,
    ensures
        joined(a + b, sep) == joined(a, sep) + sep + joined(b, sep),
        a.len() == 1 ==> joined(a, sep) == a[0],
    decreases b.len(),
{
    assert((a + b).drop_last() =~= a + b.drop_last());
    if b.len() > 1 {
        law_joined_halves(a, b.drop_last(), sep);
        assert(joined(a + b, sep) =~= joined(a, sep) + sep + joined(b, sep));
    } else {
        assert(a + b.drop_last() =~= a);
    }
}

/// Trimming takes white space from both ends and nothing else, and ASCII letters become lower case.
pub proof fn law_normalized(s: Seq<char>)
    ensures
        normalized(s).len() > 0 ==> !is_white_space(normalized(s)[0]) && !is_white_space(
            normalized(s).last(),
        ),
        exists|from: int, to: int|
            {
                &&& 0 <= from <= to <= s.len()
                &&& #[trigger] s.subrange(from, to).len() == normalized(s).len()
                &&& forall|i: int|
                    0 <= i < to - from ==> #[trigger] normalized(s)[i] == ascii_lowercase(s[from + i])
                &&& forall|i: int| 0 <= i < from || to <= i < s.len() ==> is_white_space(#[trigger] s[i])
            },
{
    lemma_trimmed_start(s);
    let t = trimmed_start(s);
    let from = s.len() - t.len();
    lemma_trimmed_end(t);
    let u = trimmed_end(t);
    let to = from + u.len();
    assert(s.subrange(from, to) =~= u);
    assert forall|i: int| 0 <= i < from || to <= i < s.len() implies is_white_space(#[trigger] s[i]) by {
        if to <= i {
            assert(t[i - from] == s[i]);
        }
    }
    if u.len() > 0 {
        assert(u[0] == t[0]);
        assert(!is_white_space(u[0]));
        lemma_lower_keeps_white_space(u[0]);
        lemma_lower_keeps_white_space(u.last());
    }
}

proof fn lemma_lower_keeps_white_space(c: char)
    ensures
        is_white_space(ascii_lowercase(c)) == is_white_space(c),
{
}

proof fn lemma_trimmed_start(s: Seq<char>)
    ensures
        trimmed_start(s).len() <= s.len(),
        trimmed_start(s) == s.skip(s.len() - trimmed_start(s).len()),
        forall|i: int| 0 <= i < s.len() - trimmed_start(s).len() ==> is_white_space(#[trigger] s[i]),
        trimmed_start(s).len() > 0 ==> !is_white_space(trimmed_start(s)[0]),
    decreases s.len(),
{
    if s.len() > 0 && is_white_space(s[0]) {
        let rest = s.drop_first();
        lemma_trimmed_start(rest);
        assert(s.skip(s.len() - trimmed_start(s).len()) =~= rest.skip(
            rest.len() - trimmed_start(rest).len(),
        ));
        assert forall|i: int| 0 <= i < s.len() - trimmed_start(s).len() implies is_white_space(
            #[trigger] s[i],
        ) by {
            if i > 0 {
                assert(rest[i - 1] == s[i]);
            }
        }
    } else {
        assert(s.skip(0) =~= s);
    }
}

proof fn lemma_trimmed_end(s: Seq<char>)
    ensures
        trimmed_end(s).len() <= s.len(),
        trimmed_end(s) == s.take(trimmed_end(s).len() as int),
        forall|i: int| trimmed_end(s).len() <= i < s.len() ==> is_white_space(#[trigger] s[i]),
        trimmed_end(s).len() > 0 ==> !is_white_space(trimmed_end(s).last()),
    decreases s.len(),
{
    if s.len() > 0 && is_white_space(s.last()) {
        let rest = s.drop_last();
        lemma_trimmed_end(rest);
        assert(rest.take(trimmed_end(rest).len() as int) =~= s.take(trimmed_end(rest).len() as int));
        assert forall|i: int| trimmed_end(s).len() <= i < s.len() implies is_white_space(
            #[trigger] s[i],
        ) by {
            if i < s.len() - 1 {
                assert(rest[i] == s[i]);
            }
        }
    } else {
        assert(s.take(s.len() as int) =~= s);
    }
}

/// White space is the tabulator up to the carriage return, the space, the next line, the space that
/// does not break, and the spaces and separators of Unicode; no letter, digit or punctuation of
/// ASCII is.
pub proof fn law_white_space(c: char, found: bool)
    requires
        call_ensures(white_space, (c,), found),
    ensures
        found <==> 9 <= c as u32 <= 13 || c == ' ' || c as u32 == 133 || c as u32 == 160
            || c as u32 == 5760 || 8192 <= c as u32 <= 8202 || c as u32 == 8232 || c as u32 == 8233
            || c as u32 == 8239 || c as u32 == 8287 || c as u32 == 12288,
        '!' <= c <= '~' ==> !found,
{
}

/// Only the letters `A` to `Z` change, each to the letter of the same place, and lower case stays
/// lower case.
pub proof fn law_lower_case_of_a_letter(c: char, lower: char, again: char)
    requires
        call_ensures(lower_ascii, (c,), lower),
        call_ensures(lower_ascii, (lower,), again),
    ensures
        'A' <= c <= 'Z' ==> 'a' <= lower <= 'z' && lower as u32 - 'a' as u32 == c as u32 - 'A' as u32,
        !('A' <= c <= 'Z') ==> lower == c,
        again == lower,
{
}

/// A text of ASCII characters in lower case has as many characters, each of them in lower case.
pub proof fn law_lower_case_of_a_text(s: Seq<char>, i: int)
    requires
        forall|j: int| 0 <= j < s.len() ==> (#[trigger] s[j]) as u32 <= 127,
        0 <= i < s.len(),
    ensures
        lowercase(s).len() == s.len(),
        'A' <= s[i] <= 'Z' ==> lowercase(s)[i] as u32 == s[i] as u32 + 32,
        !('A' <= s[i] <= 'Z') ==> lowercase(s)[i] == s[i],
{
}

/// Two texts are the same exactly if they hold the same characters, and what is joined holds its
/// parts and the separators, in order.
pub proof fn law_joined_texts(
    a: &str,
    b: &str,
    c: &str,
    sep: &str,
    same: bool,
    pair: String,
    triple: String,
)
    requires
        call_ensures(same_text, (a, b), same),
        call_ensures(concat2, (a, b), pair),
        call_ensures(join3, (a, b, c, sep), triple),
    ensures
        same == (a@ == b@),
        pair@ == a@ + b@,
        triple@ == a@ + sep@ + b@ + sep@ + c@,
{
}

/// A hexadecimal number with a sign in front reads as that number with that sign.
pub proof fn law_signed_hex_reads_back(n: nat)
    ensures
        n <= i64::MAX ==> hex_i64(lower_hex(n)) == Some(n as i64),
        n <= i64::MAX ==> hex_i64(seq!['+'] + lower_hex(n)) == Some(n as i64),
        n <= i64::MAX + 1 ==> hex_i64(seq!['-'] + lower_hex(n)) == Some((-(n as int)) as i64),
        n > i64::MAX ==> hex_i64(lower_hex(n)) is None,
        hex_i64(Seq::empty()) is None,
{
    law_hex_reads_back(n);
    let digits = lower_hex(n);
    assert(hex_digit(digits[0]) is Some);
    assert((seq!['+'] + digits).drop_first() =~= digits);
    assert((seq!['-'] + digits).drop_first() =~= digits);
}

/// A text is made of its characters, and cutting it into two and joining the halves gives it back.
pub proof fn law_cut_text_joins_again(
    s: &str,
    chars: Vec<char>,
    at: usize,
    head: String,
    tail: String,
    i: int,
)
    requires
        call_ensures(chars_of, (s,), chars),
        at <= chars@.len(),
        call_ensures(text_between, (&chars, 0usize, at), head),
        call_ensures(text_from, (&chars, at), tail),
    ensures
        chars@.len() == s@.len(),
        0 <= i < s@.len() ==> chars@[i] == s@[i],
        head@ + tail@ == s@,
        head@.len() == at,
{
    assert(head@ + tail@ =~= s@);
}

/// A text starts with another exactly if something behind the other makes it up.
pub proof fn law_start_of_a_text(s: &str, prefix: &str, found: bool)
    requires
        call_ensures(starts_with, (s, prefix), found),
    ensures
        found <==> exists|rest: Seq<char>| s@ == #[trigger] (prefix@ + rest),
{
    if found {
        let rest = s@.skip(prefix@.len() as int);
        assert(s@ =~= prefix@ + rest);
    }
    if exists|rest: Seq<char>| s@ == #[trigger] (prefix@ + rest) {
        let rest = choose|rest: Seq<char>| s@ == #[trigger] (prefix@ + rest);
        assert(s@.subrange(0, prefix@.len() as int) =~= prefix@);
    }
}

/// Joining a list is joining its first part with the rest of it.
pub proof fn law_joined_list(
    parts: &Vec<String>,
    sep: &str,
    whole: String,
    rest: String,
    none: String,
)
    requires
        parts@.len() > 0,
        call_ensures(join_all, (parts, sep), whole),
        call_ensures(join_from, (parts, 1usize, sep), rest),
        call_ensures(join_from, (parts, parts@.len() as usize, sep), none),
        parts@.len() <= usize::MAX,
    ensures
        parts@.len() == 1 ==> whole@ == parts@[0]@ && rest@.len() == 0,
        parts@.len() > 1 ==> whole@ == parts@[0]@ + sep@ + rest@,
        none@.len() == 0,
{
    let all = views(parts@);
    assert(all[0] == parts@[0]@);
    if parts@.len() > 1 {
        let head = seq![all[0]];
        let tail = all.skip(1);
        assert(all =~= head + tail);
        law_joined_halves(head, tail, sep@);
    }
}

/// The digits of hexadecimal are those of base ten and the first six letters, in either case.
pub proof fn law_hex_digits(c: char)
    ensures
        '0' <= c <= '9' ==> hex_digit(c) == Some((c as u32 - 48) as nat),
        'a' <= c <= 'f' ==> hex_digit(c) == Some((c as u32 - 87) as nat),
        'A' <= c <= 'F' ==> hex_digit(c) == Some((c as u32 - 55) as nat),
        hex_digit(c) is Some ==> ('0' <= c <= '9') || ('a' <= c <= 'f') || ('A' <= c <= 'F'),
{
}

/// A text with a character beyond ASCII is written in lower case by the rules of Unicode.
pub proof fn law_lower_case_beyond_ascii(s: Seq<char>, i: int)
    requires
        0 <= i < s.len(),
        s[i] as u32 > 127,
    ensures
        lowercase(s) == unicode_lowercase(s),
{
}

/// Bytes that encode a text are read as that text, and any others are repaired first.
pub proof fn law_lossy_text(bytes: Seq<u8>)
    ensures
        valid_utf8(bytes) ==> lossy_text(bytes) == decode_utf8(bytes),
        !valid_utf8(bytes) ==> lossy_text(bytes) == repaired_utf8(bytes),
{
}

} // verus!
