//! Percent-encoding of names.

use vstd::prelude::*;
use vstd::string::*;
use vstd::utf8::*;

use crate::text::{lossy_text, text_of_utf8_lossy};

verus! {

/// An ASCII letter or digit.
pub open spec fn is_plain(b: u8) -> bool {
    (0x30 <= b && b <= 0x39) || (0x41 <= b && b <= 0x5a) || (0x61 <= b && b <= 0x7a)
}

/// The upper-case hexadecimal digit for a number below sixteen.
pub open spec fn upper_digit(n: u8) -> u8 {
    if n < 10 {
        (0x30 + n) as u8
    } else {
        (0x41 + n - 10) as u8
    }
}

/// The value of a hexadecimal digit of either case.
pub open spec fn digit_value(b: u8) -> Option<u8> {
    if 0x30 <= b && b <= 0x39 {
        Some((b - 0x30) as u8)
    } else if 0x41 <= b && b <= 0x46 {
        Some((b - 0x41 + 10) as u8)
    } else if 0x61 <= b && b <= 0x66 {
        Some((b - 0x61 + 10) as u8)
    } else {
        None
    }
}

/// How a byte is written: as it is, or as a percent sign and two digits.
pub open spec fn escaped(b: u8) -> Seq<u8> {
    if is_plain(b) {
        seq![b]
    } else {
        seq![0x25u8, upper_digit((b / 16) as u8), upper_digit((b % 16) as u8)]
    }
}

/// How bytes are written.
pub open spec fn percent_encoded(bytes: Seq<u8>) -> Seq<u8>
    decreases bytes.len(),
{
    if bytes.len() == 0 {
        Seq::empty()
    } else {
        percent_encoded(bytes.drop_last()) + escaped(bytes.last())
    }
}

/// Whether an escape starts `s`.
pub open spec fn starts_escape(s: Seq<u8>) -> bool {
    s.len() >= 3 && s[0] == 0x25 && digit_value(s[1]) is Some && digit_value(s[2]) is Some
}

/// The byte that an escape stands for.
pub open spec fn escape_value(hi: u8, lo: u8) -> u8 {
    match (digit_value(hi), digit_value(lo)) {
        (Some(h), Some(l)) => (h * 16 + l) as u8,
        _ => 0,
    }
}

/// What written bytes stand for. A percent sign that starts no escape stands for itself.
pub open spec fn percent_decoded(s: Seq<u8>) -> Seq<u8>
    decreases s.len(),
{
    if s.len() == 0 {
        Seq::empty()
    } else if starts_escape(s) {
        seq![escape_value(s[1], s[2])] + percent_decoded(s.skip(3))
    } else {
        seq![s[0]] + percent_decoded(s.drop_first())
    }
}

/// The characters of ASCII bytes.
pub open spec fn ascii_chars(bytes: Seq<u8>) -> Seq<char> {
    bytes.map_values(|b: u8| b as char)
}

/// A name as it is escaped.
pub open spec fn safe_text(s: Seq<char>) -> Seq<char> {
    ascii_chars(percent_encoded(encode_utf8(s)))
}

/// The name that an escaped one stands for.
pub open spec fn unsafe_text(s: Seq<char>) -> Seq<char> {
    lossy_text(percent_decoded(encode_utf8(s)))
}

fn write_digit(n: u8) -> (c: char)
    requires
        n < 16,
    ensures
        c == upper_digit(n) as char,
{
    if n < 10 {
        (0x30 + n) as char
    } else {
        (0x41 + (n - 10)) as char
    }
}

/// Escapes every byte of a name but ASCII letters and digits.
pub fn percent_encode(s: &str) -> (text: String)
    ensures
        text@ == safe_text(s@),
{
    let bytes = s.as_bytes();
    let mut out = String::new();
    let mut i: usize = 0;
    assert(bytes@.take(0) =~= Seq::empty());
    assert(ascii_chars(Seq::<u8>::empty()) =~= Seq::empty());
    while i < bytes.len()
        invariant
            i <= bytes@.len(),
            bytes@ == encode_utf8(s@),
            out@ == ascii_chars(percent_encoded(bytes@.take(i as int))),
        decreases bytes@.len() - i,
    {
        let b: u8 = bytes[i];
        let ghost before = out@;
        if (0x30 <= b && b <= 0x39) || (0x41 <= b && b <= 0x5a) || (0x61 <= b && b <= 0x7a) {
            out.push(b as char);
        } else {
            out.push('%');
            out.push(write_digit(b / 16));
            out.push(write_digit(b % 16));
        }
        proof {
            let done = percent_encoded(bytes@.take(i as int));
            assert(bytes@.take(i + 1).drop_last() =~= bytes@.take(i as int));
            assert(bytes@.take(i + 1).last() == b);
            assert(percent_encoded(bytes@.take(i + 1)) == done + escaped(b));
            assert(0x25u8 as char == '%');
            assert(out@ =~= ascii_chars(done + escaped(b)));
        }
        i = i + 1;
    }
    assert(bytes@.take(i as int) =~= bytes@);
    out
}

fn read_digit(b: u8) -> (value: Option<u8>)
    ensures
        value == digit_value(b),
{
    if 0x30 <= b && b <= 0x39 {
        Some(b - 0x30)
    } else if 0x41 <= b && b <= 0x46 {
        Some(b - 0x41 + 10)
    } else if 0x61 <= b && b <= 0x66 {
        Some(b - 0x61 + 10)
    } else {
        None
    }
}

/// Reads a name that was escaped.
pub fn percent_decode(s: &str) -> (text: String)
    ensures
        text@ == unsafe_text(s@),
{
    let bytes = s.as_bytes();
    let n: usize = bytes.len();
    let mut out: Vec<u8> = Vec::new();
    let mut i: usize = 0;
    assert(bytes@.skip(0) =~= bytes@);
    assert(out@ + percent_decoded(bytes@) =~= percent_decoded(bytes@));
    while i < n
        invariant
            i <= n,
            n == bytes@.len(),
            bytes@ == encode_utf8(s@),
            out@ + percent_decoded(bytes@.skip(i as int)) == percent_decoded(bytes@),
        decreases n - i,
    {
        let ghost rest = bytes@.skip(i as int);
        let ghost before = out@;
        let escape: Option<u8> = if n - i >= 3 && bytes[i] == 0x25 {
            match (read_digit(bytes[i + 1]), read_digit(bytes[i + 2])) {
                (Some(hi), Some(lo)) => {
                    assert(hi < 16 && lo < 16);
                    Some(hi * 16 + lo)
                },
                _ => None,
            }
        } else {
            None
        };
        assert(escape is Some == starts_escape(rest));
        match escape {
            Some(b) => {
                out.push(b);
                proof {
                    assert(rest.skip(3) =~= bytes@.skip(i + 3));
                    assert(out@ + percent_decoded(rest.skip(3)) =~= before + percent_decoded(rest));
                }
                i = i + 3;
            },
            None => {
                out.push(bytes[i]);
                proof {
                    assert(rest.drop_first() =~= bytes@.skip(i + 1));
                    assert(out@ + percent_decoded(rest.drop_first()) =~= before
                        + percent_decoded(rest));
                }
                i = i + 1;
            },
        }
    }
    assert(bytes@.skip(i as int) =~= Seq::empty());
    assert(out@ =~= percent_decoded(bytes@));
    text_of_utf8_lossy(&out)
}

proof fn lemma_escape_reads_back(b: u8, rest: Seq<u8>)
    ensures
        percent_decoded(escaped(b) + rest) == seq![b] + percent_decoded(rest),
{
    let s = escaped(b) + rest;
    if is_plain(b) {
        assert(s.drop_first() =~= rest);
        assert(s[0] == b);
    } else {
        let hi = (b / 16) as u8;
        let lo = (b % 16) as u8;
        assert(hi < 16 && lo < 16);
        assert(s[0] == 0x25 && s[1] == upper_digit(hi) && s[2] == upper_digit(lo));
        assert(digit_value(upper_digit(hi)) == Some(hi));
        assert(digit_value(upper_digit(lo)) == Some(lo));
        assert(hi * 16 + lo == b);
        assert(s.skip(3) =~= rest);
    }
}

proof fn lemma_encoded_reads_back(bytes: Seq<u8>, rest: Seq<u8>)
    ensures
        percent_decoded(percent_encoded(bytes) + rest) == bytes + percent_decoded(rest),
    decreases bytes.len(),
{
    if bytes.len() == 0 {
        assert(percent_encoded(bytes) + rest =~= rest);
        assert(bytes + percent_decoded(rest) =~= percent_decoded(rest));
    } else {
        let head = bytes.drop_last();
        let last = bytes.last();
        assert(percent_encoded(bytes) + rest =~= percent_encoded(head) + (escaped(last) + rest));
        lemma_encoded_reads_back(head, escaped(last) + rest);
        lemma_escape_reads_back(last, rest);
        assert(head + (seq![last] + percent_decoded(rest)) =~= bytes + percent_decoded(rest));
    }
}

/// Escaped bytes are ASCII letters, digits and percent signs.
pub proof fn lemma_encoded_is_plain(bytes: Seq<u8>)
    ensures
        forall|i: int|
            0 <= i < percent_encoded(bytes).len() ==> is_plain(
                #[trigger] percent_encoded(bytes)[i],
            ) || percent_encoded(bytes)[i] == 0x25,
    decreases bytes.len(),
{
    if bytes.len() > 0 {
        lemma_encoded_is_plain(bytes.drop_last());
        let last = bytes.last();
        let head = percent_encoded(bytes.drop_last());
        assert forall|i: int| 0 <= i < escaped(last).len() implies is_plain(
            #[trigger] escaped(last)[i],
        ) || escaped(last)[i] == 0x25 by {}
        assert forall|i: int| 0 <= i < percent_encoded(bytes).len() implies is_plain(
            #[trigger] percent_encoded(bytes)[i],
        ) || percent_encoded(bytes)[i] == 0x25 by {
            if i < head.len() {
                assert(percent_encoded(bytes)[i] == head[i]);
            } else {
                assert(percent_encoded(bytes)[i] == escaped(last)[i - head.len()]);
            }
        }
    }
}

proof fn lemma_encoded_is_ascii(bytes: Seq<u8>)
    ensures
        forall|i: int|
            0 <= i < percent_encoded(bytes).len() ==> (#[trigger] percent_encoded(bytes)[i]) < 128
                && percent_encoded(bytes)[i] != 0x2f,
{
    lemma_encoded_is_plain(bytes);
}

proof fn lemma_ascii_utf8(bytes: Seq<u8>)
    requires
        forall|i: int| 0 <= i < bytes.len() ==> (#[trigger] bytes[i]) < 128,
    ensures
        encode_utf8(ascii_chars(bytes)) == bytes,
{
    let chars = ascii_chars(bytes);
    assert(is_ascii_chars(chars));
    is_ascii_chars_encode_utf8(chars);
    assert(encode_utf8(chars) =~= bytes);
}

/// An escaped name reads back as the name, whatever characters it holds.
pub proof fn law_escaped_name_reads_back(name: Seq<char>)
    ensures
        unsafe_text(safe_text(name)) == name,
{
    let bytes = encode_utf8(name);
    lemma_encoded_is_ascii(bytes);
    lemma_ascii_utf8(percent_encoded(bytes));
    lemma_encoded_reads_back(bytes, Seq::empty());
    assert(percent_encoded(bytes) + Seq::<u8>::empty() =~= percent_encoded(bytes));
    assert(bytes + percent_decoded(Seq::<u8>::empty()) =~= bytes);
    encode_utf8_valid_utf8(name);
    encode_utf8_decode_utf8(name);
}

/// An escaped name holds no slash, so that it is one component of a path.
pub proof fn law_escaped_name_has_no_slash(name: Seq<char>)
    ensures
        !safe_text(name).contains('/'),
{
    let bytes = percent_encoded(encode_utf8(name));
    lemma_encoded_is_ascii(encode_utf8(name));
    assert forall|i: int| 0 <= i < safe_text(name).len() implies safe_text(name)[i] != '/' by {
        assert(bytes[i] != 0x2f && bytes[i] < 128);
    }
}

/// The escaped form of a name that is not empty is not empty either, and no dot.
pub proof fn lemma_safe_text_is_a_name(name: Seq<char>)
    requires
        name.len() > 0,
    ensures
        safe_text(name).len() > 0,
        safe_text(name) != "."@,
{
    reveal_strlit(".");
    let bytes = encode_utf8(name);
    lemma_encoded_is_plain(bytes);
    assert(bytes.len() > 0);
    assert(escaped(bytes.last()).len() > 0);
    if safe_text(name) == "."@ {
        assert(safe_text(name)[0] == '.');
        assert(percent_encoded(bytes)[0] as char == '.');
    }
}

/// Whether no escape starts anywhere in `s`.
pub open spec fn has_no_escape(s: Seq<u8>) -> bool {
    forall|i: int| 0 <= i < s.len() ==> !starts_escape(#[trigger] s.skip(i))
}

proof fn lemma_plain_prefix(prefix: Seq<u8>, rest: Seq<u8>)
    requires
        forall|i: int| 0 <= i < prefix.len() ==> !starts_escape(#[trigger] (prefix + rest).skip(i)),
    ensures
        percent_decoded(prefix + rest) == prefix + percent_decoded(rest),
    decreases prefix.len(),
{
    let whole = prefix + rest;
    if prefix.len() == 0 {
        assert(whole =~= rest);
        assert(prefix + percent_decoded(rest) =~= percent_decoded(rest));
    } else {
        let tail = prefix.drop_first();
        assert(whole.skip(0) =~= whole);
        assert(whole.drop_first() =~= tail + rest);
        assert forall|i: int| 0 <= i < tail.len() implies !starts_escape(
            #[trigger] (tail + rest).skip(i),
        ) by {
            assert((tail + rest).skip(i) =~= whole.skip(i + 1));
        }
        lemma_plain_prefix(tail, rest);
        assert(seq![prefix[0]] + (tail + percent_decoded(rest)) =~= prefix + percent_decoded(rest));
    }
}

proof fn lemma_slash_ends_escapes(head: Seq<u8>, rest: Seq<u8>)
    requires
        has_no_escape(head),
    ensures
        forall|i: int|
            0 <= i <= head.len() ==> !starts_escape(#[trigger] (head + seq![0x2fu8] + rest).skip(i)),
{
    let whole = head + seq![0x2fu8] + rest;
    let n = head.len() as int;
    assert forall|i: int| 0 <= i <= n implies !starts_escape(#[trigger] whole.skip(i)) by {
        let s = whole.skip(i);
        assert(whole[n] == 0x2fu8);
        assert(s[n - i] == 0x2fu8);
        if i + 2 < n {
            let t = head.skip(i);
            assert(s[0] == t[0] && s[1] == t[1] && s[2] == t[2]);
            assert(!starts_escape(t));
        }
    }
}

proof fn lemma_utf8_concat(a: Seq<char>, b: Seq<char>)
    ensures
        encode_utf8(a + b) == encode_utf8(a) + encode_utf8(b),
    decreases a.len(),
{
    if a.len() == 0 {
        assert(a + b =~= b);
        assert(encode_utf8(a) + encode_utf8(b) =~= encode_utf8(b));
    } else {
        assert((a + b).drop_first() =~= a.drop_first() + b);
        lemma_utf8_concat(a.drop_first(), b);
        assert(encode_utf8(a + b) =~= encode_utf8(a) + encode_utf8(b));
    }
}

/// The path of an escaped name below a bucket reads back as the bucket, a slash and the name, where
/// nothing in the bucket itself reads as an escape.
pub proof fn law_path_reads_back(bucket: Seq<char>, name: Seq<char>)
    requires
        has_no_escape(encode_utf8(bucket)),
    ensures
        unsafe_text(bucket + "/"@ + safe_text(name)) == bucket + "/"@ + name,
{
    reveal_strlit("/");
    let head = bucket + "/"@;
    let bytes = encode_utf8(name);
    lemma_encoded_is_ascii(bytes);
    lemma_ascii_utf8(percent_encoded(bytes));
    lemma_utf8_concat(head, safe_text(name));
    lemma_utf8_concat(bucket, "/"@);
    let slash: Seq<u8> = seq![0x2fu8];
    assert("/"@ =~= ascii_chars(slash)) by {
        assert(0x2fu8 as char == '/');
    }
    lemma_ascii_utf8(slash);
    let prefix = encode_utf8(bucket) + slash;
    lemma_slash_ends_escapes(encode_utf8(bucket), percent_encoded(bytes));
    lemma_plain_prefix(prefix, percent_encoded(bytes));
    lemma_encoded_reads_back(bytes, Seq::empty());
    assert(percent_encoded(bytes) + Seq::<u8>::empty() =~= percent_encoded(bytes));
    assert(bytes + percent_decoded(Seq::<u8>::empty()) =~= bytes);
    let whole = head + name;
    lemma_utf8_concat(head, name);
    assert(prefix + bytes == encode_utf8(whole));
    encode_utf8_valid_utf8(whole);
    encode_utf8_decode_utf8(whole);
}

/// A name is escaped piece by piece: the escaped form of two names in a row is that of the first and
/// then that of the second.
pub proof fn law_names_are_escaped_piece_by_piece(
    a: &str,
    b: &str,
    whole: &str,
    safe_a: String,
    safe_b: String,
    safe_whole: String,
)
    requires
        whole@ == a@ + b@,
        call_ensures(percent_encode, (a,), safe_a),
        call_ensures(percent_encode, (b,), safe_b),
        call_ensures(percent_encode, (whole,), safe_whole),
    ensures
        safe_whole@ == safe_a@ + safe_b@,
{
    lemma_utf8_concat(a@, b@);
    lemma_encoded_concat(encode_utf8(a@), encode_utf8(b@));
    assert(safe_whole@ =~= safe_a@ + safe_b@);
}

proof fn lemma_encoded_concat(a: Seq<u8>, b: Seq<u8>)
    ensures
        percent_encoded(a + b) == percent_encoded(a) + percent_encoded(b),
    decreases b.len(),
{
    if b.len() == 0 {
        assert(a + b =~= a);
        assert(percent_encoded(a) + percent_encoded(b) =~= percent_encoded(a));
    } else {
        assert((a + b).drop_last() =~= a + b.drop_last());
        lemma_encoded_concat(a, b.drop_last());
        assert(percent_encoded(a + b) =~= percent_encoded(a) + percent_encoded(b));
    }
}

/// An ASCII letter or digit stays as it is; any other ASCII character becomes a percent sign and its
/// number in two upper-case hexadecimal digits.
pub proof fn law_escaped_character(c: char, text: &str, safe: String)
    requires
        c as u32 <= 127,
        text@ == seq![c],
        call_ensures(percent_encode, (text,), safe),
    ensures
        ('0' <= c <= '9') || ('a' <= c <= 'z') || ('A' <= c <= 'Z') ==> safe@ == seq![c],
        !(('0' <= c <= '9') || ('a' <= c <= 'z') || ('A' <= c <= 'Z')) ==> {
            &&& safe@.len() == 3
            &&& safe@[0] == '%'
            &&& digit_value(safe@[1] as u8) is Some && digit_value(safe@[2] as u8) is Some
            &&& digit_value(safe@[1] as u8)->Some_0 * 16 + digit_value(safe@[2] as u8)->Some_0
                == c as u32
            &&& !('a' <= safe@[1] <= 'f') && !('a' <= safe@[2] <= 'f')
        },
{
    let b = c as u8;
    let bytes = seq![b];
    assert(ascii_chars(bytes) =~= seq![c]);
    lemma_ascii_utf8(bytes);
    assert(bytes.drop_last() =~= Seq::empty());
    assert(percent_encoded(bytes.drop_last()) =~= Seq::empty());
    assert(percent_encoded(bytes) =~= escaped(b));
    assert(safe@ =~= ascii_chars(escaped(b)));
}

/// An escape is read in either case of its digits, and a text without a percent sign stays as it is.
pub proof fn law_read_escapes(hi: u8, lo: u8, rest: Seq<u8>, text: &str, read: String)
    requires
        call_ensures(percent_decode, (text,), read),
    ensures
        digit_value(hi) is Some && digit_value(lo) is Some ==> percent_decoded(
            seq![0x25u8, hi, lo] + rest,
        ) == seq![(digit_value(hi)->Some_0 * 16 + digit_value(lo)->Some_0) as u8] + percent_decoded(
            rest,
        ),
        0x30 <= hi <= 0x39 ==> digit_value(hi) == Some((hi - 0x30) as u8),
        0x41 <= hi <= 0x46 ==> digit_value(hi) == Some((hi - 0x37) as u8),
        0x61 <= hi <= 0x66 ==> digit_value(hi) == Some((hi - 0x57) as u8),
        digit_value(hi) is Some ==> (0x30 <= hi <= 0x39) || (0x41 <= hi <= 0x46) || (0x61 <= hi
            <= 0x66),
        (forall|i: int| 0 <= i < encode_utf8(text@).len() ==> (#[trigger] encode_utf8(text@)[i])
            != 0x25) ==> read@ == text@,
{
    let escape = seq![0x25u8, hi, lo];
    let s = escape + rest;
    assert(s[0] == 0x25 && s[1] == hi && s[2] == lo);
    assert(s.skip(3) =~= rest);
    let bytes = encode_utf8(text@);
    if forall|i: int| 0 <= i < bytes.len() ==> (#[trigger] bytes[i]) != 0x25 {
        assert(bytes + Seq::<u8>::empty() =~= bytes);
        assert forall|i: int| 0 <= i < bytes.len() implies !starts_escape(
            #[trigger] (bytes + Seq::<u8>::empty()).skip(i),
        ) by {
            assert((bytes + Seq::<u8>::empty()).skip(i)[0] == bytes[i]);
        }
        lemma_plain_prefix(bytes, Seq::empty());
        assert(bytes + percent_decoded(Seq::<u8>::empty()) =~= bytes);
        encode_utf8_valid_utf8(text@);
        encode_utf8_decode_utf8(text@);
    }
}

} // verus!
