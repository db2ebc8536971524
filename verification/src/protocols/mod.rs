//! Identifiers that every part of the runtime exchanges.

pub mod annotated;
pub mod maybe_error;

use vstd::prelude::*;
use vstd::string::*;

use crate::text::{
    chars_of, concat2, is_white_space, join3, join_from, joined, joined3, same_text, text_between,
    views, white_space,
};

verus! {

/// The identifier of a lease.
pub type LeaseId = i64;

/// Stands in for a namespace that was not given.
pub const DEFAULT_NAMESPACE: &'static str = "NS";

/// Stands in for a service group that was not given.
pub const DEFAULT_COMPONENT: &'static str = "C";

/// Stands in for a port name that was not given.
pub const DEFAULT_ENDPOINT: &'static str = "E";

/// The prefix of a port name written as a URL.
pub const ENDPOINT_SCHEME: &'static str = "pgd://";

/// A service group in a namespace.
#[derive(Debug, Clone, PartialEq, Eq)]
pub struct ServiceGroup {
    pub name: String,
    pub namespace: String,
}

/// A port name in a service group in a namespace.
#[derive(Debug, Eq, Hash)]
pub struct PortNameId {
    pub namespace: String,
    pub servicegroup: String,
    pub name: String,
}

impl View for PortNameId {
    type V = (Seq<char>, Seq<char>, Seq<char>);

    open spec fn view(&self) -> (Seq<char>, Seq<char>, Seq<char>) {
        (self.namespace@, self.servicegroup@, self.name@)
    }
}

/// A character between segments.
pub open spec fn is_separator(c: char) -> bool {
    c == '.' || c == '/'
}

/// A character that is dropped from both ends.
pub open spec fn is_margin(c: char) -> bool {
    is_white_space(c) || c == '/' || c == '.'
}

fn margin(c: char) -> (found: bool)
    ensures
        found == is_margin(c),
{
    white_space(c) || c == '/' || c == '.'
}

/// A text without the scheme.
pub open spec fn without_scheme(s: Seq<char>) -> Seq<char> {
    if ENDPOINT_SCHEME@.is_prefix_of(s) {
        s.skip(ENDPOINT_SCHEME@.len() as int)
    } else {
        s
    }
}

/// A text without the margin at its start.
pub open spec fn without_left_margin(s: Seq<char>) -> Seq<char>
    decreases s.len(),
{
    if s.len() > 0 && is_margin(s[0]) {
        without_left_margin(s.drop_first())
    } else {
        s
    }
}

/// A text without the margin at its end.
pub open spec fn without_right_margin(s: Seq<char>) -> Seq<char>
    decreases s.len(),
{
    if s.len() > 0 && is_margin(s.last()) {
        without_right_margin(s.drop_last())
    } else {
        s
    }
}

/// The longest runs of characters that are no separators, in order.
pub open spec fn runs(s: Seq<char>) -> Seq<Seq<char>>
    decreases s.len(),
{
    if s.len() == 0 {
        Seq::empty()
    } else if is_separator(s.last()) {
        runs(s.drop_last())
    } else {
        let n = last_run_start(s);
        proof {
            lemma_last_run_start(s.drop_last());
        }
        runs(s.take(n)).push(s.skip(n))
    }
}

/// Where the run that ends `s` starts.
pub open spec fn last_run_start(s: Seq<char>) -> int
    decreases s.len(),
{
    if s.len() == 0 || is_separator(s.last()) {
        s.len() as int
    } else {
        last_run_start(s.drop_last())
    }
}

/// The segments of a port name.
pub open spec fn segments(s: Seq<char>) -> Seq<Seq<char>> {
    runs(without_right_margin(without_left_margin(without_scheme(s))))
}

/// The identifier that a list of segments stands for.
pub open spec fn named_by(parts: Seq<Seq<char>>) -> (Seq<char>, Seq<char>, Seq<char>) {
    if parts.len() == 0 {
        (DEFAULT_NAMESPACE@, DEFAULT_COMPONENT@, DEFAULT_ENDPOINT@)
    } else if parts.len() == 1 {
        (DEFAULT_NAMESPACE@, parts[0], DEFAULT_ENDPOINT@)
    } else if parts.len() == 2 {
        (parts[0], parts[1], DEFAULT_ENDPOINT@)
    } else {
        (parts[0], parts[1], joined(parts.skip(2), "_"@))
    }
}

/// A run starts within its text.
pub proof fn lemma_last_run_start(s: Seq<char>)
    ensures
        0 <= last_run_start(s) <= s.len(),
    decreases s.len(),
{
    if s.len() > 0 && !is_separator(s.last()) {
        lemma_last_run_start(s.drop_last());
    }
}

/// The runs of a text, as texts.
fn split_runs(chars: &Vec<char>, from: usize, to: usize) -> (parts: Vec<String>)
    requires
        from <= to <= chars@.len(),
    ensures
        views(parts@) == runs(chars@.subrange(from as int, to as int)),
{
    let ghost s = chars@.subrange(from as int, to as int);
    let mut out: Vec<String> = Vec::new();
    let mut start: usize = from;
    let mut i: usize = from;
    assert(views(out@) =~= Seq::empty());
    while i < to
        invariant
            from <= start <= i <= to <= chars@.len(),
            s == chars@.subrange(from as int, to as int),
            start - from == last_run_start(s.take(i - from)),
            views(out@) == runs(s.take(start - from)),
        decreases to - i,
    {
        let ghost k = i - from;
        assert(s.take(k + 1).drop_last() =~= s.take(k));
        assert(s.take(k + 1).last() == chars@[i as int]);
        let c = chars[i];
        if c == '.' || c == '/' {
            if start < i {
                let part = text_between(chars, start, i);
                proof {
                    let whole = s.take(k);
                    let n = start - from;
                    lemma_nonempty_run(whole);
                    assert(whole.take(n) =~= s.take(n));
                    assert(part@ =~= whole.skip(n));
                    assert(views(out@.push(part)) =~= views(out@).push(part@));
                }
                out.push(part);
            }
            i = i + 1;
            start = i;
        } else {
            i = i + 1;
        }
    }
    assert(s.take(to - from) =~= s);
    if start < to {
        let part = text_between(chars, start, to);
        proof {
            let n = start - from;
            lemma_nonempty_run(s);
            assert(part@ =~= s.skip(n));
            assert(views(out@.push(part)) =~= views(out@).push(part@));
        }
        out.push(part);
    }
    out
}

/// A run that ends a text and is not empty is the last of its runs.
proof fn lemma_nonempty_run(s: Seq<char>)
    requires
        last_run_start(s) < s.len(),
    ensures
        !is_separator(s.last()),
        runs(s) == runs(s.take(last_run_start(s))).push(s.skip(last_run_start(s))),
{
}

/// Splits a port name into its segments: an optional scheme goes away, then white space, dots
/// and slashes at both ends; dots and slashes separate, and empty segments do not count.
pub fn parse_portname_segments(input: &str) -> (parts: Vec<String>)
    ensures
        views(parts@) == segments(input@),
{
    let chars = chars_of(input);
    let n: usize = chars.len();
    let mut from: usize = 0;
    proof {
        reveal_strlit("pgd://");
        assert(chars@.skip(0) =~= chars@);
    }
    if n >= 6 && chars[0] == 'p' && chars[1] == 'g' && chars[2] == 'd' && chars[3] == ':'
        && chars[4] == '/' && chars[5] == '/' {
        from = 6;
        assert(ENDPOINT_SCHEME@.is_prefix_of(chars@)) by {
            assert(chars@.subrange(0, 6) =~= ENDPOINT_SCHEME@);
        }
    } else {
        assert(!ENDPOINT_SCHEME@.is_prefix_of(chars@)) by {
            if ENDPOINT_SCHEME@.is_prefix_of(chars@) {
                assert(chars@.subrange(0, 6) == ENDPOINT_SCHEME@);
                assert(forall|i: int| 0 <= i < 6 ==> chars@.subrange(0, 6)[i] == chars@[i]);
            }
        }
    }
    assert(chars@.skip(from as int) == without_scheme(input@));
    while from < n && margin(chars[from])
        invariant
            from <= n,
            n == chars@.len(),
            without_left_margin(chars@.skip(from as int)) == without_left_margin(
                without_scheme(input@),
            ),
        decreases n - from,
    {
        assert(chars@.skip(from as int).drop_first() =~= chars@.skip(from + 1));
        from = from + 1;
    }
    let mut to: usize = n;
    assert(chars@.skip(from as int) =~= chars@.subrange(from as int, to as int));
    while to > from && margin(chars[to - 1])
        invariant
            from <= to <= n,
            n == chars@.len(),
            without_right_margin(chars@.subrange(from as int, to as int)) == without_right_margin(
                without_left_margin(without_scheme(input@)),
            ),
        decreases to,
    {
        assert(chars@.subrange(from as int, to as int).drop_last() =~= chars@.subrange(
            from as int,
            to - 1,
        ));
        to = to - 1;
    }
    split_runs(&chars, from, to)
}

impl Default for PortNameId {
    fn default() -> (id: Self)
        ensures
            id@ == (DEFAULT_NAMESPACE@, DEFAULT_COMPONENT@, DEFAULT_ENDPOINT@),
    {
        PortNameId {
            namespace: DEFAULT_NAMESPACE.to_owned(),
            servicegroup: DEFAULT_COMPONENT.to_owned(),
            name: DEFAULT_ENDPOINT.to_owned(),
        }
    }
}

impl From<&str> for PortNameId {
    fn from(s: &str) -> (id: Self)
        ensures
            id@ == named_by(segments(s@)),
    {
        let parts = parse_portname_segments(s);
        assert(forall|i: int| 0 <= i < parts@.len() ==> views(parts@)[i] == parts@[i]@);
        if parts.len() == 0 {
            PortNameId::default()
        } else if parts.len() == 1 {
            PortNameId {
                namespace: DEFAULT_NAMESPACE.to_owned(),
                servicegroup: parts[0].clone(),
                name: DEFAULT_ENDPOINT.to_owned(),
            }
        } else if parts.len() == 2 {
            PortNameId {
                namespace: parts[0].clone(),
                servicegroup: parts[1].clone(),
                name: DEFAULT_ENDPOINT.to_owned(),
            }
        } else {
            PortNameId {
                namespace: parts[0].clone(),
                servicegroup: parts[1].clone(),
                name: join_from(&parts, 2, "_"),
            }
        }
    }
}

impl vstd::std_specs::convert::FromSpecImpl<&str> for PortNameId {
    open spec fn obeys_from_spec() -> bool {
        false
    }

    open spec fn from_spec(s: &str) -> Self {
        arbitrary()
    }
}

impl std::str::FromStr for PortNameId {
    type Err = core::convert::Infallible;

    fn from_str(s: &str) -> (id: Result<Self, core::convert::Infallible>)
        ensures
            id is Ok,
            id->Ok_0@ == named_by(segments(s@)),
    {
        Ok(PortNameId::from(s))
    }
}

impl PortNameId {
    /// The identifier as `namespace/servicegroup/name`.
    pub fn to_string(&self) -> (text: String)
        ensures
            text@ == joined3(self@.0, self@.1, self@.2, "/"@),
    {
        join3(self.namespace.as_str(), self.servicegroup.as_str(), self.name.as_str(), "/")
    }

    /// The identifier as `pgd://namespace.servicegroup.name`.
    pub fn as_url(&self) -> (url: String)
        ensures
            url@ == ENDPOINT_SCHEME@ + joined3(self@.0, self@.1, self@.2, "."@),
    {
        let suffix = join3(
            self.namespace.as_str(),
            self.servicegroup.as_str(),
            self.name.as_str(),
            ".",
        );
        concat2(ENDPOINT_SCHEME, suffix.as_str())
    }
}

impl Clone for PortNameId {
    fn clone(&self) -> (copy: Self)
        ensures
            copy == *self,
    {
        PortNameId {
            namespace: self.namespace.clone(),
            servicegroup: self.servicegroup.clone(),
            name: self.name.clone(),
        }
    }
}

impl PartialEq for PortNameId {
    fn eq(&self, other: &Self) -> (same: bool) {
        same_text(self.namespace.as_str(), other.namespace.as_str()) && same_text(
            self.servicegroup.as_str(),
            other.servicegroup.as_str(),
        ) && same_text(self.name.as_str(), other.name.as_str())
    }
}

impl vstd::std_specs::cmp::PartialEqSpecImpl for PortNameId {
    open spec fn obeys_eq_spec() -> bool {
        true
    }

    open spec fn eq_spec(&self, other: &Self) -> bool {
        self@ == other@
    }
}

impl PartialEq<Vec<&str>> for PortNameId {
    fn eq(&self, other: &Vec<&str>) -> (same: bool) {
        other.len() == 3 && same_text(self.namespace.as_str(), other[0]) && same_text(
            self.servicegroup.as_str(),
            other[1],
        ) && same_text(self.name.as_str(), other[2])
    }
}

impl vstd::std_specs::cmp::PartialEqSpecImpl<Vec<&str>> for PortNameId {
    open spec fn obeys_eq_spec() -> bool {
        true
    }

    open spec fn eq_spec(&self, other: &Vec<&str>) -> bool {
        other@.len() == 3 && self@ == (other@[0]@, other@[1]@, other@[2]@)
    }
}

impl PartialEq<[&str; 3]> for PortNameId {
    fn eq(&self, other: &[&str; 3]) -> (same: bool) {
        same_text(self.namespace.as_str(), other[0]) && same_text(
            self.servicegroup.as_str(),
            other[1],
        ) && same_text(self.name.as_str(), other[2])
    }
}

impl vstd::std_specs::cmp::PartialEqSpecImpl<[&str; 3]> for PortNameId {
    open spec fn obeys_eq_spec() -> bool {
        true
    }

    open spec fn eq_spec(&self, other: &[&str; 3]) -> bool {
        self@ == (other@[0]@, other@[1]@, other@[2]@)
    }
}

impl PartialEq<PortNameId> for [&str; 3] {
    fn eq(&self, other: &PortNameId) -> (same: bool) {
        other.eq(self)
    }
}

impl vstd::std_specs::cmp::PartialEqSpecImpl<PortNameId> for [&str; 3] {
    open spec fn obeys_eq_spec() -> bool {
        true
    }

    open spec fn eq_spec(&self, other: &PortNameId) -> bool {
        other@ == (self@[0]@, self@[1]@, self@[2]@)
    }
}

impl PartialEq<PortNameId> for Vec<&str> {
    fn eq(&self, other: &PortNameId) -> (same: bool) {
        other.eq(self)
    }
}

impl vstd::std_specs::cmp::PartialEqSpecImpl<PortNameId> for Vec<&str> {
    open spec fn obeys_eq_spec() -> bool {
        true
    }

    open spec fn eq_spec(&self, other: &PortNameId) -> bool {
        self@.len() == 3 && other@ == (self@[0]@, self@[1]@, self@[2]@)
    }
}

/// A segment: not empty, and without separators.
pub open spec fn is_segment(s: Seq<char>) -> bool {
    s.len() > 0 && forall|i: int| 0 <= i < s.len() ==> !is_separator(#[trigger] s[i])
}

/// Three segments of which no white space touches either end.
pub open spec fn is_clean(id: (Seq<char>, Seq<char>, Seq<char>)) -> bool {
    &&& is_segment(id.0)
    &&& is_segment(id.1)
    &&& is_segment(id.2)
    &&& !is_white_space(id.0[0])
    &&& !is_white_space(id.2.last())
}

proof fn lemma_run_after(s: Seq<char>, part: Seq<char>)
    requires
        s.len() == 0 || is_separator(s.last()),
        forall|i: int| 0 <= i < part.len() ==> !is_separator(#[trigger] part[i]),
    ensures
        last_run_start(s + part) == s.len(),
    decreases part.len(),
{
    if part.len() == 0 {
        assert(s + part =~= s);
    } else {
        assert((s + part).drop_last() =~= s + part.drop_last());
        lemma_run_after(s, part.drop_last());
    }
}

proof fn lemma_runs_push(s: Seq<char>, part: Seq<char>)
    requires
        s.len() == 0 || is_separator(s.last()),
        is_segment(part),
    ensures
        runs(s + part) == runs(s).push(part),
{
    lemma_run_after(s, part);
    lemma_nonempty_run(s + part);
    assert((s + part).take(s.len() as int) =~= s);
    assert((s + part).skip(s.len() as int) =~= part);
}

proof fn lemma_runs_of_three(a: Seq<char>, b: Seq<char>, c: Seq<char>, sep: Seq<char>)
    requires
        is_clean((a, b, c)),
        sep.len() == 1,
        is_separator(sep[0]),
    ensures
        runs(joined3(a, b, c, sep)) == seq![a, b, c],
        without_right_margin(without_left_margin(joined3(a, b, c, sep))) == joined3(a, b, c, sep),
{
    let e = Seq::<char>::empty();
    assert(e + a =~= a);
    lemma_runs_push(e, a);
    assert((a + sep).drop_last() =~= a);
    lemma_runs_push(a + sep, b);
    assert((a + sep + b + sep).drop_last() =~= a + sep + b);
    lemma_runs_push(a + sep + b + sep, c);
    assert(runs(joined3(a, b, c, sep)) =~= seq![a, b, c]);
    let whole = joined3(a, b, c, sep);
    assert(whole[0] == a[0]);
    assert(whole.last() == c.last());
}

/// A port name written as a URL, or as a path, reads back as itself, where its segments are
/// neither empty nor broken by separators and no white space touches either end.
pub proof fn law_written_port_name_reads_back(id: (Seq<char>, Seq<char>, Seq<char>))
    requires
        is_clean(id),
    ensures
        named_by(segments(ENDPOINT_SCHEME@ + joined3(id.0, id.1, id.2, "."@))) == id,
        named_by(segments(joined3(id.0, id.1, id.2, "/"@))) == id,
{
    reveal_strlit("pgd://");
    reveal_strlit(".");
    reveal_strlit("/");
    let dotted = joined3(id.0, id.1, id.2, "."@);
    let slashed = joined3(id.0, id.1, id.2, "/"@);
    lemma_runs_of_three(id.0, id.1, id.2, "."@);
    lemma_runs_of_three(id.0, id.1, id.2, "/"@);
    let url = ENDPOINT_SCHEME@ + dotted;
    assert(ENDPOINT_SCHEME@.is_prefix_of(url)) by {
        assert(url.subrange(0, 6) =~= ENDPOINT_SCHEME@);
    }
    assert(url.skip(6) =~= dotted);
    assert(!ENDPOINT_SCHEME@.is_prefix_of(slashed)) by {
        if ENDPOINT_SCHEME@.is_prefix_of(slashed) {
            assert(slashed.subrange(0, 6) == ENDPOINT_SCHEME@);
            assert(forall|i: int| 0 <= i < 6 ==> slashed.subrange(0, 6)[i] == slashed[i]);
            let n = id.0.len() as int;
            assert(slashed[4] == '/' && slashed[5] == '/');
            assert(forall|i: int| 0 <= i < n ==> slashed[i] == id.0[i]);
            assert(slashed[n] == '/');
            assert(slashed[n + 1] == id.1[0]);
            assert(n <= 4);
            assert(n == 4);
        }
    }
    assert(seq![id.0, id.1, id.2].skip(2) =~= seq![id.2]);
    assert(joined(seq![id.2], "_"@) == id.2);
}

proof fn lemma_left_margin(margin: Seq<char>, s: Seq<char>)
    requires
        is_all_margin(margin),
    ensures
        without_left_margin(margin + s) == without_left_margin(s),
    decreases margin.len(),
{
    if margin.len() == 0 {
        assert(margin + s =~= s);
    } else {
        assert((margin + s)[0] == margin[0]);
        assert((margin + s).drop_first() =~= margin.drop_first() + s);
        lemma_left_margin(margin.drop_first(), s);
    }
}

proof fn lemma_right_margin(s: Seq<char>, margin: Seq<char>)
    requires
        is_all_margin(margin),
    ensures
        without_right_margin(s + margin) == without_right_margin(s),
    decreases margin.len(),
{
    if margin.len() == 0 {
        assert(s + margin =~= s);
    } else {
        assert((s + margin).last() == margin.last());
        assert((s + margin).drop_last() =~= s + margin.drop_last());
        lemma_right_margin(s, margin.drop_last());
    }
}

proof fn lemma_margins_swap(s: Seq<char>, margin: Seq<char>)
    requires
        is_all_margin(margin),
    ensures
        without_right_margin(without_left_margin(s + margin)) == without_right_margin(
            without_left_margin(s),
        ),
    decreases s.len(),
{
    if s.len() == 0 {
        assert(s + margin =~= margin);
        assert(margin + Seq::<char>::empty() =~= margin);
        lemma_left_margin(margin, Seq::empty());
    } else if is_margin(s[0]) {
        assert((s + margin)[0] == s[0]);
        assert((s + margin).drop_first() =~= s.drop_first() + margin);
        lemma_margins_swap(s.drop_first(), margin);
    } else {
        assert((s + margin)[0] == s[0]);
        lemma_right_margin(s, margin);
    }
}

/// Whether a text is made of white space, dots and slashes alone.
pub open spec fn is_all_margin(s: Seq<char>) -> bool {
    forall|i: int| 0 <= i < s.len() ==> is_margin(#[trigger] s[i])
}

/// White space, dots and slashes at either end of a port name make no difference, with the scheme in
/// front or without it, as long as they do not make up a scheme themselves.
pub proof fn law_margins_do_not_count(left: Seq<char>, s: Seq<char>, right: Seq<char>)
    requires
        is_all_margin(left),
        is_all_margin(right),
        !ENDPOINT_SCHEME@.is_prefix_of(s),
        !ENDPOINT_SCHEME@.is_prefix_of(left + s + right),
    ensures
        segments(left + s + right) == segments(s),
        segments(ENDPOINT_SCHEME@ + (left + s + right)) == segments(s),
{
    reveal_strlit("pgd://");
    let text = left + s + right;
    lemma_margins_swap(left + s, right);
    lemma_left_margin(left, s);
    let url = ENDPOINT_SCHEME@ + text;
    assert(url.subrange(0, 6) =~= ENDPOINT_SCHEME@);
    assert(url.skip(6) =~= text);
}

/// Whatever the text, the identifier read from it has a namespace, a service group and a name
/// that are not empty, and a namespace and a service group without separators.
pub proof fn law_parsed_port_name_is_complete(s: Seq<char>)
    ensures
        named_by(segments(s)).0.len() > 0,
        named_by(segments(s)).1.len() > 0,
        named_by(segments(s)).2.len() > 0,
        is_segment(named_by(segments(s)).0),
        is_segment(named_by(segments(s)).1),
{
    reveal_strlit("NS");
    reveal_strlit("C");
    reveal_strlit("E");
    let parts = segments(s);
    lemma_runs_are_segments(
        without_right_margin(without_left_margin(without_scheme(s))),
    );
    if parts.len() >= 3 {
        lemma_joined_nonempty(parts.skip(2), "_"@);
    }
}

proof fn lemma_joined_nonempty(parts: Seq<Seq<char>>, sep: Seq<char>)
    requires
        parts.len() > 0,
        parts[0].len() > 0,
    ensures
        joined(parts, sep).len() > 0,
    decreases parts.len(),
{
    if parts.len() > 1 {
        lemma_joined_nonempty(parts.drop_last(), sep);
    }
}

proof fn lemma_run_is_segment(s: Seq<char>)
    ensures
        0 <= last_run_start(s) <= s.len(),
        forall|i: int| last_run_start(s) <= i < s.len() ==> !is_separator(#[trigger] s[i]),
    decreases s.len(),
{
    if s.len() > 0 && !is_separator(s.last()) {
        lemma_run_is_segment(s.drop_last());
        assert forall|i: int| last_run_start(s) <= i < s.len() implies !is_separator(
            #[trigger] s[i],
        ) by {
            if i < s.len() - 1 {
                assert(s.drop_last()[i] == s[i]);
            }
        }
    }
}

proof fn lemma_runs_are_segments(s: Seq<char>)
    ensures
        forall|i: int| 0 <= i < runs(s).len() ==> is_segment(#[trigger] runs(s)[i]),
    decreases s.len(),
{
    if s.len() > 0 {
        if is_separator(s.last()) {
            lemma_runs_are_segments(s.drop_last());
            assert(runs(s) == runs(s.drop_last()));
        } else {
            let n = last_run_start(s);
            lemma_run_is_segment(s);
            lemma_last_run_start(s.drop_last());
            lemma_runs_are_segments(s.take(n));
            assert(is_segment(s.skip(n)));
            lemma_nonempty_run(s);
            assert forall|i: int| 0 <= i < runs(s).len() implies is_segment(
                #[trigger] runs(s)[i],
            ) by {
                if i < runs(s.take(n)).len() {
                    assert(runs(s)[i] == runs(s.take(n))[i]);
                } else {
                    assert(runs(s)[i] == s.skip(n));
                }
            }
        }
    } else {
        assert(runs(s).len() == 0);
    }
}

/// A separator parts a text: the runs of the whole are those in front of it and those behind it. A
/// text without separators is one run, unless it is empty.
pub proof fn law_separator_parts_runs(a: Seq<char>, sep: char, b: Seq<char>)
    requires
        sep == '.' || sep == '/',
    ensures
        runs(a + seq![sep] + b) == runs(a) + runs(b),
        !b.contains('.') && !b.contains('/') && b.len() > 0 ==> runs(b) == seq![b],
        b.len() == 0 ==> runs(b).len() == 0,
    decreases b.len(),
{
    let s = a + seq![sep] + b;
    if b.len() == 0 {
        assert(s.last() == sep);
        assert(s.drop_last() =~= a);
        assert(runs(s) == runs(s.drop_last()));
        assert(runs(b) =~= Seq::empty());
        assert(runs(a) + runs(b) =~= runs(a));
    } else if is_separator(b.last()) {
        law_separator_parts_runs(a, sep, b.drop_last());
        assert(s.drop_last() =~= a + seq![sep] + b.drop_last());
        assert(runs(s) == runs(s.drop_last()));
        assert(runs(b) == runs(b.drop_last()));
        assert(b.contains(b.last()));
    } else {
        let n = last_run_start(b);
        lemma_last_run_start(b);
        lemma_run_is_segment(b);
        lemma_last_run_start(b.drop_last());
        lemma_run_starts_behind(a + seq![sep], b);
        assert(last_run_start(s) == a.len() + 1 + n);
        lemma_nonempty_run(s);
        lemma_nonempty_run(b);
        law_separator_parts_runs(a, sep, b.take(n));
        assert(s.take(a.len() + 1 + n) =~= a + seq![sep] + b.take(n));
        assert(s.skip(a.len() + 1 + n) =~= b.skip(n));
        assert(runs(s) =~= runs(a) + runs(b));
        if !b.contains('.') && !b.contains('/') {
            assert forall|i: int| 0 <= i < b.len() implies !is_separator(#[trigger] b[i]) by {
                assert(b.contains(b[i]));
            }
            let e = Seq::<char>::empty();
            assert(e + b =~= b);
            lemma_runs_push(e, b);
            assert(runs(b) =~= seq![b]);
        }
    }
}

proof fn lemma_run_starts_behind(a: Seq<char>, b: Seq<char>)
    requires
        a.len() > 0,
        is_separator(a.last()),
    ensures
        last_run_start(a + b) == a.len() + last_run_start(b),
    decreases b.len(),
{
    if b.len() == 0 {
        assert(a + b =~= a);
    } else if !is_separator(b.last()) {
        assert((a + b).drop_last() =~= a + b.drop_last());
        lemma_run_starts_behind(a, b.drop_last());
    } else {
        assert((a + b).last() == b.last());
    }
}

/// The scheme in front of a port name makes no difference, and only what is white space, a dot or a
/// slash is dropped at the ends.
pub proof fn law_scheme_does_not_count(s: Seq<char>)
    requires
        !"pgd://"@.is_prefix_of(s),
    ensures
        segments("pgd://"@ + s) == segments(s),
        s.len() > 0 && !is_white_space(s[0]) && s[0] != '.' && s[0] != '/' && !is_white_space(
            s.last(),
        ) && s.last() != '.' && s.last() != '/' ==> segments(s) == runs(s),
{
    reveal_strlit("pgd://");
    let url = "pgd://"@ + s;
    assert(url.subrange(0, 6) =~= "pgd://"@);
    assert(url.skip(6) =~= s);
}

/// Missing parts of a port name are filled in: without any it is `NS/C/E`; a single one is the
/// service group; the first of two or more is the namespace and the second the service group. Every
/// further part is added to the name, behind an underscore.
pub proof fn law_parts_of_a_port_name(parts: Seq<Seq<char>>, part: Seq<char>)
    ensures
        parts.len() == 0 ==> named_by(parts) == ("NS"@, "C"@, "E"@),
        parts.len() == 0 ==> named_by(parts.push(part)) == ("NS"@, part, "E"@),
        parts.len() == 1 ==> named_by(parts.push(part)) == (parts[0], part, "E"@),
        parts.len() == 2 ==> named_by(parts.push(part)) == (parts[0], parts[1], part),
        parts.len() > 2 ==> named_by(parts.push(part)) == (
            named_by(parts).0,
            named_by(parts).1,
            named_by(parts).2 + "_"@ + part,
        ),
{
    let more = parts.push(part);
    if parts.len() == 2 {
        assert(more.skip(2) =~= seq![part]);
        assert(joined(seq![part], "_"@) == part);
    } else if parts.len() > 2 {
        assert(more.skip(2) =~= parts.skip(2).push(part));
        assert(parts.skip(2).push(part).drop_last() =~= parts.skip(2));
        assert(joined(more.skip(2), "_"@) == joined(more.skip(2).drop_last(), "_"@) + "_"@
            + more.skip(2).last());
    }
}

/// The segments that are parsed are those of the text.
pub proof fn law_parsed_segments(
    a: Seq<char>,
    b: Seq<char>,
    c: Seq<char>,
    sep: Seq<char>,
    input: &str,
    parts: Vec<String>,
)
    requires
        is_clean((a, b, c)),
        sep == "."@ || sep == "/"@,
        input@ == "pgd://"@ + (a + sep + b + sep + c),
        call_ensures(parse_portname_segments, (input,), parts),
    ensures
        parts@.len() == 3,
        parts@[0]@ == a && parts@[1]@ == b && parts@[2]@ == c,
{
    reveal_strlit("pgd://");
    reveal_strlit(".");
    reveal_strlit("/");
    lemma_runs_of_three(a, b, c, sep);
    let whole = joined3(a, b, c, sep);
    assert(input@.subrange(0, 6) =~= "pgd://"@);
    assert(input@.skip(6) =~= whole);
    assert(views(parts@) == seq![a, b, c]);
    assert(views(parts@).len() == parts@.len());
    assert(views(parts@)[0] == parts@[0]@);
    assert(views(parts@)[1] == parts@[1]@);
    assert(views(parts@)[2] == parts@[2]@);
}

/// How a port name is written: as a path with slashes, and as a URL with the scheme and dots.
pub proof fn law_written_port_name(id: &PortNameId, path: String, url: String)
    requires
        call_ensures(PortNameId::to_string, (id,), path),
        call_ensures(PortNameId::as_url, (id,), url),
    ensures
        path@ == id.namespace@ + "/"@ + id.servicegroup@ + "/"@ + id.name@,
        url@ == "pgd://"@ + (id.namespace@ + "."@ + id.servicegroup@ + "."@ + id.name@),
{
}

/// Port names are equal exactly if all three parts are, also when held against a list of texts.
pub proof fn law_equal_port_names(a: PortNameId, b: PortNameId, list: Vec<&str>, three: [&str; 3])
    ensures
        vstd::std_specs::cmp::PartialEqSpec::eq_spec(&a, &b) <==> a.namespace@ == b.namespace@
            && a.servicegroup@ == b.servicegroup@ && a.name@ == b.name@,
        vstd::std_specs::cmp::PartialEqSpec::eq_spec(&a, &list) <==> list@.len() == 3 && list@[0]@
            == a.namespace@ && list@[1]@ == a.servicegroup@ && list@[2]@ == a.name@,
        vstd::std_specs::cmp::PartialEqSpec::eq_spec(&a, &three) <==> three@[0]@ == a.namespace@
            && three@[1]@ == a.servicegroup@ && three@[2]@ == a.name@,
        vstd::std_specs::cmp::PartialEqSpec::eq_spec(&list, &a)
            == vstd::std_specs::cmp::PartialEqSpec::eq_spec(&a, &list),
        vstd::std_specs::cmp::PartialEqSpec::eq_spec(&three, &a)
            == vstd::std_specs::cmp::PartialEqSpec::eq_spec(&a, &three),
{
}

} // verus!
