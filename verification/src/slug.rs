//! Names that are safe in subjects and in paths.

use vstd::prelude::*;
use vstd::string::*;

use crate::ids::is_lower_hex_digit;
use crate::text::{chars_of, is_ascii_text, lowercase, same_text, text_from, to_lowercase};

verus! {

/// Stands in for every character that a slug cannot hold.
pub const REPLACEMENT_CHAR: char = '_';

/// A text of the characters `a-z`, `0-9`, `-` and `_`.
#[derive(Debug, Eq)]
pub struct Slug(String);

impl View for Slug {
    type V = Seq<char>;

    closed spec fn view(&self) -> Seq<char> {
        self.0@
    }
}

/// A lower-case letter or a digit.
pub open spec fn is_lower_or_digit(c: char) -> bool {
    ('a' <= c && c <= 'z') || ('0' <= c && c <= '9')
}

/// A character that a slug can hold.
pub open spec fn slug_char(c: char) -> bool {
    is_lower_or_digit(c) || c == '-' || c == '_'
}

/// A character that the readable part of a unique slug can hold.
pub open spec fn unique_slug_char(c: char) -> bool {
    is_lower_or_digit(c) || c == '_'
}

/// Whether a slug can hold `character`.
pub fn is_slug_char(character: char) -> (allowed: bool)
    ensures
        allowed == slug_char(character),
{
    ('a' <= character && character <= 'z') || ('0' <= character && character <= '9') || character
        == '-' || character == '_'
}

/// Whether the readable part of a unique slug can hold `character`.
pub fn is_unique_slug_char(character: char) -> (allowed: bool)
    ensures
        allowed == unique_slug_char(character),
{
    ('a' <= character && character <= 'z') || ('0' <= character && character <= '9') || character
        == '_'
}

/// The characters of `s`, with the replacement in place of those that `keep` rejects.
pub open spec fn replaced(s: Seq<char>, keep: spec_fn(char) -> bool) -> Seq<char> {
    s.map_values(
        |c: char|
            if keep(c) {
                c
            } else {
                REPLACEMENT_CHAR
            },
    )
}

/// `s` without the replacement characters at its start.
pub open spec fn trimmed(s: Seq<char>) -> Seq<char>
    decreases s.len(),
{
    if s.len() > 0 && s[0] == REPLACEMENT_CHAR {
        trimmed(s.drop_first())
    } else {
        s
    }
}

/// The slug of a text.
pub open spec fn slug_of(s: Seq<char>) -> Seq<char> {
    trimmed(replaced(lowercase(s), |c: char| slug_char(c)))
}

/// The unique slug of a text whose hash is written `hash`.
pub open spec fn unique_slug_of(s: Seq<char>, hash: Seq<char>) -> Seq<char> {
    trimmed(
        replaced(lowercase(s), |c: char| unique_slug_char(c)) + "_"@ + hash.skip(hash.len() - 8),
    )
}

/// Lower-cases `source` and replaces every character that `keep` rejects.
fn sanitize_with<F: Fn(char) -> bool>(
    source: &str,
    keep: F,
    Ghost(kept): Ghost<spec_fn(char) -> bool>,
) -> (sanitized: String)
    requires
        forall|c: char| call_requires(keep, (c,)),
        forall|c: char, r: bool| call_ensures(keep, (c,), r) ==> r == kept(c),
    ensures
        sanitized@ == replaced(lowercase(source@), kept),
{
    let lower = to_lowercase(source);
    let chars = chars_of(lower.as_str());
    let mut out = String::new();
    let mut i: usize = 0;
    while i < chars.len()
        invariant
            i <= chars@.len(),
            forall|c: char| call_requires(keep, (c,)),
            forall|c: char, r: bool| call_ensures(keep, (c,), r) ==> r == kept(c),
            out@ =~= replaced(chars@, kept).take(i as int),
        decreases chars@.len() - i,
    {
        let character = chars[i];
        if keep(character) {
            out.push(character);
        } else {
            out.push(REPLACEMENT_CHAR);
        }
        i = i + 1;
    }
    assert(replaced(chars@, kept).take(i as int) =~= replaced(chars@, kept));
    out
}

/// The hexadecimal BLAKE3 hash of a text's UTF-8 bytes.
pub uninterp spec fn blake3_hex(source: Seq<char>) -> Seq<char>;

/// [`blake3::hash`] of a text's bytes, written by the hash's `Display`: 64 lower-case hexadecimal
/// digits that the text determines.
#[verifier::external_body]
fn hash_text(source: &str) -> (hex: String)
    ensures
        hex@ == blake3_hex(source@),
        hex@.len() == 64,
        forall|i: int| 0 <= i < hex@.len() ==> is_lower_hex_digit(#[trigger] hex@[i]),
{
    blake3::hash(source.as_bytes()).to_string()
}

/// The last eight digits of the text's hash.
fn short_hash(source: &str) -> (suffix: String)
    ensures
        suffix@ == blake3_hex(source@).skip(blake3_hex(source@).len() - 8),
        blake3_hex(source@).len() == 64,
        forall|i: int|
            0 <= i < blake3_hex(source@).len() ==> is_lower_hex_digit(
                #[trigger] blake3_hex(source@)[i],
            ),
{
    let hash = hash_text(source);
    let digits = chars_of(hash.as_str());
    let suffix_start: usize = digits.len() - 8;
    text_from(&digits, suffix_start)
}

impl Slug {
    /// The slug of a text whose characters were replaced already: leading replacements go away.
    pub fn new(s: String) -> (slug: Slug)
        ensures
            slug@ == trimmed(s@),
    {
        let chars = chars_of(s.as_str());
        let mut start: usize = 0;
        assert(chars@.skip(0) =~= chars@);
        while start < chars.len() && chars[start] == REPLACEMENT_CHAR
            invariant
                start <= chars@.len(),
                trimmed(chars@) == trimmed(chars@.skip(start as int)),
            decreases chars@.len() - start,
        {
            assert(chars@.skip(start as int).drop_first() =~= chars@.skip(start + 1));
            start = start + 1;
        }
        Slug(text_from(&chars, start))
    }

    /// The slug of a text; see [`Self::slugify`].
    pub fn from_string(s: &str) -> (slug: Slug)
        ensures
            slug@ == slug_of(s@),
    {
        Self::slugify(s)
    }

    /// The slug of a text: lower case, with `_` in place of every other character, and without
    /// leading `_`.
    pub fn slugify(s: &str) -> (slug: Slug)
        ensures
            slug@ == slug_of(s@),
    {
        let sanitized = sanitize_with(s, is_slug_char, Ghost(|c: char| slug_char(c)));
        Self::new(sanitized)
    }

    /// The readable part and the suffix of a unique slug, given the suffix.
    pub fn with_suffix(s: &str, suffix: &str) -> (slug: Slug)
        ensures
            slug@ == trimmed(
                replaced(lowercase(s@), |c: char| unique_slug_char(c)) + "_"@ + suffix@,
            ),
    {
        let mut text = sanitize_with(s, is_unique_slug_char, Ghost(|c: char| unique_slug_char(c)));
        text.append("_");
        text.append(suffix);
        Self::new(text)
    }

    /// A slug that also tells apart texts with the same readable part, by the last eight digits
    /// of the text's hash.
    pub fn slugify_unique(s: &str) -> (slug: Slug)
        ensures
            slug@ == unique_slug_of(s@, blake3_hex(s@)),
            blake3_hex(s@).len() == 64,
            forall|i: int|
                0 <= i < blake3_hex(s@).len() ==> is_lower_hex_digit(#[trigger] blake3_hex(s@)[i]),
    {
        let suffix = short_hash(s);
        Self::with_suffix(s, suffix.as_str())
    }

    /// The text of the slug.
    pub fn as_ref(&self) -> (text: &str)
        ensures
            text@ == self@,
    {
        self.0.as_str()
    }

    /// The text of the slug.
    pub fn to_string(&self) -> (text: String)
        ensures
            text@ == self@,
    {
        self.0.clone()
    }
}

impl Default for Slug {
    fn default() -> (slug: Self)
        ensures
            slug@ == Seq::<char>::empty(),
    {
        Slug(String::new())
    }
}

impl Clone for Slug {
    fn clone(&self) -> (copy: Self)
        ensures
            copy == *self,
    {
        Slug(self.0.clone())
    }
}

impl PartialEq for Slug {
    fn eq(&self, other: &Self) -> (same: bool) {
        same_text(self.0.as_str(), other.0.as_str())
    }
}

impl vstd::std_specs::cmp::PartialEqSpecImpl for Slug {
    open spec fn obeys_eq_spec() -> bool {
        true
    }

    open spec fn eq_spec(&self, other: &Self) -> bool {
        self@ == other@
    }
}

impl PartialEq<str> for Slug {
    fn eq(&self, other: &str) -> (same: bool) {
        same_text(self.0.as_str(), other)
    }
}

impl vstd::std_specs::cmp::PartialEqSpecImpl<str> for Slug {
    open spec fn obeys_eq_spec() -> bool {
        true
    }

    open spec fn eq_spec(&self, other: &str) -> bool {
        self@ == other@
    }
}

/// The first character that kept a text from being a slug.
#[derive(Debug)]
pub struct InvalidSlugError(pub char);

impl InvalidSlugError {
    /// The error in words.
    pub fn to_string(&self) -> (text: String)
        ensures
            text@ == "Invalid char '"@.push(self.0)
                + "'. String can only contain a-z, 0-9, - and _."@,
    {
        let mut text = "Invalid char '".to_owned();
        text.push(self.0);
        text.append("'. String can only contain a-z, 0-9, - and _.");
        text
    }
}

/// The position of the first character that a slug cannot hold.
pub open spec fn first_invalid(s: Seq<char>, i: int) -> bool {
    0 <= i < s.len() && !slug_char(s[i]) && forall|j: int|
        0 <= j < i ==> slug_char(#[trigger] s[j])
}

/// Whether every character can stand in a slug.
pub open spec fn all_slug_chars(s: Seq<char>) -> bool {
    forall|i: int| 0 <= i < s.len() ==> slug_char(#[trigger] s[i])
}

/// Whether `outcome` is that of reading `s` as a slug.
pub open spec fn reads_slug(s: Seq<char>, outcome: Result<Slug, InvalidSlugError>) -> bool {
    match outcome {
        Ok(slug) => all_slug_chars(s) && slug@ == s,
        Err(error) => exists|i: int| #[trigger] first_invalid(s, i) && error.0 == s[i],
    }
}

impl TryFrom<String> for Slug {
    type Error = InvalidSlugError;

    fn try_from(s: String) -> (outcome: Result<Self, InvalidSlugError>)
        ensures
            reads_slug(s@, outcome),
    {
        let n: usize = s.as_str().unicode_len();
        let mut i: usize = 0;
        while i < n
            invariant
                i <= n,
                n == s@.len(),
                forall|j: int| 0 <= j < i ==> slug_char(#[trigger] s@[j]),
            decreases n - i,
        {
            let character = s.as_str().get_char(i);
            if !is_slug_char(character) {
                assert(first_invalid(s@, i as int));
                return Err(InvalidSlugError(character));
            }
            i = i + 1;
        }
        Ok(Slug(s))
    }
}

impl vstd::std_specs::convert::TryFromSpecImpl<String> for Slug {
    open spec fn obeys_try_from_spec() -> bool {
        false
    }

    open spec fn try_from_spec(s: String) -> Result<Self, InvalidSlugError> {
        arbitrary()
    }
}

impl TryFrom<&str> for Slug {
    type Error = InvalidSlugError;

    fn try_from(s: &str) -> (outcome: Result<Self, InvalidSlugError>)
        ensures
            reads_slug(s@, outcome),
    {
        let owned: String = s.to_owned();
        Slug::try_from(owned)
    }
}

impl vstd::std_specs::convert::TryFromSpecImpl<&str> for Slug {
    open spec fn obeys_try_from_spec() -> bool {
        false
    }

    open spec fn try_from_spec(s: &str) -> Result<Self, InvalidSlugError> {
        arbitrary()
    }
}

proof fn lemma_trimmed(s: Seq<char>)
    ensures
        trimmed(s).len() <= s.len(),
        trimmed(s) == s.skip(s.len() - trimmed(s).len()),
        trimmed(s).len() > 0 ==> trimmed(s)[0] != REPLACEMENT_CHAR,
        all_slug_chars(s) ==> all_slug_chars(trimmed(s)),
    decreases s.len(),
{
    if s.len() > 0 && s[0] == REPLACEMENT_CHAR {
        lemma_trimmed(s.drop_first());
        assert(trimmed(s) =~= s.skip(s.len() - trimmed(s).len()));
    } else {
        assert(s.skip(0) =~= s);
    }
}

/// Every slug that is made of a text holds only slug characters and does not start with `_`.
pub proof fn law_slug_is_well_formed(s: Seq<char>)
    ensures
        all_slug_chars(slug_of(s)),
        slug_of(s).len() > 0 ==> slug_of(s)[0] != '_',
{
    lemma_trimmed(replaced(lowercase(s), |c: char| slug_char(c)));
}

/// Every unique slug holds only `a-z`, `0-9` and `_`, does not start with `_`, and ends in the
/// last eight digits of the hash.
pub proof fn law_unique_slug_is_well_formed(s: Seq<char>, hash: Seq<char>)
    requires
        hash.len() >= 8,
        forall|i: int| 0 <= i < hash.len() ==> is_lower_hex_digit(#[trigger] hash[i]),
    ensures
        forall|i: int|
            0 <= i < unique_slug_of(s, hash).len() ==> unique_slug_char(
                #[trigger] unique_slug_of(s, hash)[i],
            ),
        unique_slug_of(s, hash).len() >= 8,
        unique_slug_of(s, hash)[0] != '_',
        unique_slug_of(s, hash).skip(unique_slug_of(s, hash).len() - 8) == hash.skip(
            hash.len() - 8,
        ),
{
    reveal_strlit("_");
    let suffix = hash.skip(hash.len() - 8);
    let whole = replaced(lowercase(s), |c: char| unique_slug_char(c)) + "_"@ + suffix;
    let slug = unique_slug_of(s, hash);
    lemma_trimmed(whole);
    assert(suffix =~= whole.skip(whole.len() - 8));
    lemma_trimmed_keeps_tail(whole, suffix);
    assert(forall|i: int| 0 <= i < whole.len() ==> unique_slug_char(#[trigger] whole[i]));
    assert(slug.skip(slug.len() - 8) =~= suffix);
}

/// Unique slugs tell texts apart that their slugs do not, as far as their hashes do: texts whose
/// hashes end in different digits have different unique slugs, even where they differ in case only.
pub proof fn law_unique_slugs_differ(
    a: Seq<char>,
    a_hash: Seq<char>,
    b: Seq<char>,
    b_hash: Seq<char>,
)
    requires
        a_hash.len() >= 8,
        b_hash.len() >= 8,
        forall|i: int| 0 <= i < a_hash.len() ==> is_lower_hex_digit(#[trigger] a_hash[i]),
        forall|i: int| 0 <= i < b_hash.len() ==> is_lower_hex_digit(#[trigger] b_hash[i]),
        a_hash.skip(a_hash.len() - 8) != b_hash.skip(b_hash.len() - 8),
    ensures
        unique_slug_of(a, a_hash) != unique_slug_of(b, b_hash),
{
    law_unique_slug_is_well_formed(a, a_hash);
    law_unique_slug_is_well_formed(b, b_hash);
}

proof fn lemma_trimmed_keeps_tail(s: Seq<char>, tail: Seq<char>)
    requires
        tail.len() > 0,
        s.len() >= tail.len(),
        s.skip(s.len() - tail.len()) == tail,
        tail[0] != REPLACEMENT_CHAR,
    ensures
        trimmed(s).len() >= tail.len(),
    decreases s.len(),
{
    if s[0] == REPLACEMENT_CHAR {
        assert(s.len() > tail.len()) by {
            if s.len() == tail.len() {
                assert(s.skip(0)[0] == s[0]);
            }
        }
        assert(s.drop_first().skip(s.len() - 1 - tail.len()) =~= s.skip(s.len() - tail.len()));
        lemma_trimmed_keeps_tail(s.drop_first(), tail);
    }
}

/// A text that holds only slug characters and does not start with `_` is its own slug. In
/// particular, making a slug of a slug changes nothing.
pub proof fn law_slug_of_a_slug(s: Seq<char>)
    requires
        all_slug_chars(s),
        s.len() > 0 ==> s[0] != '_',
    ensures
        slug_of(s) == s,
{
    assert(is_ascii_text(s));
    assert(lowercase(s) =~= s);
    assert(replaced(lowercase(s), |c: char| slug_char(c)) =~= s);
}

/// Slugs are accepted as slugs: reading the slug of any text back succeeds.
pub proof fn law_slug_reads_back(s: Seq<char>, outcome: Result<Slug, InvalidSlugError>)
    requires
        reads_slug(slug_of(s), outcome),
    ensures
        outcome is Ok,
        outcome->Ok_0@ == slug_of(s),
{
    law_slug_is_well_formed(s);
}

/// The slug of a text holds, for each character of the text in lower case, that character where it
/// is a letter, a digit, a dash or an underscore, and an underscore otherwise; of these only the
/// underscores at the start are left out.
pub proof fn law_slug_keeps_each_character(s: &str, slug: Slug, i: int)
    requires
        call_ensures(Slug::slugify, (s,), slug),
    ensures
        slug@.len() <= lowercase(s@).len(),
        0 <= i < slug@.len() ==> ({
            let c = lowercase(s@)[lowercase(s@).len() - slug@.len() + i];
            slug@[i] == if ('a' <= c <= 'z') || ('0' <= c <= '9') || c == '-' {
                c
            } else {
                '_'
            }
        }),
        0 <= i < lowercase(s@).len() - slug@.len() ==> ({
            let c = lowercase(s@)[i];
            !(('a' <= c <= 'z') || ('0' <= c <= '9') || c == '-')
        }),
        slug@.len() > 0 ==> slug@[0] != '_',
{
    let whole = replaced(lowercase(s@), |c: char| slug_char(c));
    lemma_trimmed(whole);
    lemma_left_out(whole);
    let k = whole.len() - slug@.len();
    if 0 <= i < slug@.len() {
        assert(slug@[i] == whole[k + i]);
    }
    if 0 <= i < k {
        assert(whole[i] == '_');
    }
}

proof fn lemma_left_out(s: Seq<char>)
    ensures
        trimmed(s).len() <= s.len(),
        forall|i: int| 0 <= i < s.len() - trimmed(s).len() ==> (#[trigger] s[i]) == REPLACEMENT_CHAR,
    decreases s.len(),
{
    if s.len() > 0 && s[0] == REPLACEMENT_CHAR {
        lemma_left_out(s.drop_first());
        assert forall|i: int| 0 <= i < s.len() - trimmed(s).len() implies (#[trigger] s[i])
            == REPLACEMENT_CHAR by {
            if i > 0 {
                assert(s.drop_first()[i - 1] == s[i]);
            }
        }
    }
}

/// The unique slug of a text is its readable part and the suffix, with an underscore in between and
/// without underscores at the start; in the readable part each letter and digit of the text in
/// lower case stays and every other character is an underscore.
pub proof fn law_suffixed_slug_keeps_each_character(s: &str, suffix: &str, slug: Slug, i: int)
    requires
        call_ensures(Slug::with_suffix, (s, suffix), slug),
    ensures
        slug@.len() <= lowercase(s@).len() + 1 + suffix@.len(),
        ({
            let n = lowercase(s@).len() as int;
            let k = n + 1 + suffix@.len() - slug@.len();
            &&& 0 <= i < slug@.len() && k + i < n ==> ({
                let c = lowercase(s@)[k + i];
                slug@[i] == if ('a' <= c <= 'z') || ('0' <= c <= '9') {
                    c
                } else {
                    '_'
                }
            })
            &&& 0 <= i < slug@.len() && k + i == n ==> slug@[i] == '_'
            &&& 0 <= i < slug@.len() && k + i > n ==> slug@[i] == suffix@[k + i - n - 1]
            &&& 0 <= i < k && i < n ==> ({
                let c = lowercase(s@)[i];
                !(('a' <= c <= 'z') || ('0' <= c <= '9'))
            })
        }),
        slug@.len() > 0 ==> slug@[0] != '_',
{
    reveal_strlit("_");
    let head = replaced(lowercase(s@), |c: char| unique_slug_char(c));
    let whole = head + "_"@ + suffix@;
    lemma_trimmed(whole);
    lemma_left_out(whole);
    let n = head.len() as int;
    let k = whole.len() - slug@.len();
    if 0 <= i < slug@.len() {
        assert(slug@[i] == whole[k + i]);
    }
    if 0 <= i < k && i < n {
        assert(whole[i] == '_');
        assert(head[i] == '_');
    }
}

/// What a slug can hold, and what the readable part of a unique slug can: the latter leaves out the
/// dash.
pub proof fn law_slug_characters(c: char, allowed: bool, unique: bool)
    requires
        call_ensures(is_slug_char, (c,), allowed),
        call_ensures(is_unique_slug_char, (c,), unique),
    ensures
        allowed <==> ('a' <= c <= 'z') || ('0' <= c <= '9') || c == '-' || c == '_',
        unique <==> allowed && c != '-',
{
}

/// A text is read as a slug exactly if every character of it can stand in one, and stays as it is;
/// else the first character that cannot is told.
pub proof fn law_reading_a_slug(s: Seq<char>, outcome: Result<Slug, InvalidSlugError>)
    requires
        reads_slug(s, outcome),
    ensures
        outcome is Ok <==> forall|i: int|
            0 <= i < s.len() ==> {
                let c = #[trigger] s[i];
                ('a' <= c <= 'z') || ('0' <= c <= '9') || c == '-' || c == '_'
            },
        outcome is Ok ==> outcome->Ok_0@ == s,
        outcome is Err ==> exists|i: int|
            {
                &&& 0 <= i < s.len()
                &&& #[trigger] s[i] == outcome->Err_0.0
                &&& !(('a' <= s[i] <= 'z') || ('0' <= s[i] <= '9') || s[i] == '-' || s[i] == '_')
                &&& forall|j: int|
                    0 <= j < i ==> {
                        let c = #[trigger] s[j];
                        ('a' <= c <= 'z') || ('0' <= c <= '9') || c == '-' || c == '_'
                    }
            },
{
    match outcome {
        Ok(slug) => {
            assert forall|i: int| 0 <= i < s.len() implies {
                let c = #[trigger] s[i];
                ('a' <= c <= 'z') || ('0' <= c <= '9') || c == '-' || c == '_'
            } by {
                assert(slug_char(s[i]));
            }
        },
        Err(error) => {
            let i = choose|i: int| #[trigger] first_invalid(s, i) && error.0 == s[i];
            assert(!slug_char(s[i]));
            assert forall|j: int| 0 <= j < i implies {
                let c = #[trigger] s[j];
                ('a' <= c <= 'z') || ('0' <= c <= '9') || c == '-' || c == '_'
            } by {
                assert(slug_char(s[j]));
            }
            assert(s[i] == outcome->Err_0.0);
        },
    }
}

/// The text of a slug is what it is shown as, and what is made of a text is its slug.
pub proof fn law_slug_as_text(
    s: &str,
    slug: Slug,
    same: Slug,
    text: String,
    shown: &str,
    error: InvalidSlugError,
    words: String,
)
    requires
        call_ensures(Slug::slugify, (s,), slug),
        call_ensures(Slug::from_string, (s,), same),
        call_ensures(Slug::to_string, (&slug,), text),
        call_ensures(Slug::as_ref, (&slug,), shown),
        call_ensures(InvalidSlugError::to_string, (&error,), words),
    ensures
        same@ == slug@,
        text@ == slug@,
        shown@ == slug@,
        words@ == "Invalid char '"@ + seq![error.0]
            + "'. String can only contain a-z, 0-9, - and _."@,
{
    assert("Invalid char '"@.push(error.0) =~= "Invalid char '"@ + seq![error.0]);
}

/// A unique slug is the readable part of the text with the last eight digits of its hash behind it.
pub proof fn law_unique_slug_ends_in_the_hash(
    s: &str,
    unique: Slug,
    suffix: &str,
    with_suffix: Slug,
)
    requires
        call_ensures(Slug::slugify_unique, (s,), unique),
        suffix@ == blake3_hex(s@).skip(56),
        call_ensures(Slug::with_suffix, (s, suffix), with_suffix),
    ensures
        unique@ == with_suffix@,
        unique@.len() >= 8,
        unique@.skip(unique@.len() - 8) == suffix@,
        suffix@.len() == 8,
{
    law_unique_slug_is_well_formed(s@, blake3_hex(s@));
}

/// Slugs are equal exactly if their texts are, also when held against a text.
pub proof fn law_equal_slugs(a: Slug, b: Slug, text: &str)
    ensures
        vstd::std_specs::cmp::PartialEqSpec::eq_spec(&a, &b) <==> a@ == b@,
        vstd::std_specs::cmp::PartialEqSpec::eq_spec(&a, text) <==> a@ == text@,
{
}

} // verus!
