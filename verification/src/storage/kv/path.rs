//! Paths of files, which are the same where their parts are.

use vstd::prelude::*;
use vstd::string::*;

use crate::text::{chars_of, concat2, join_all, joined, same_text, text_between, views};

verus! {

/// A path below another; an absolute one stands for itself.
pub open spec fn path_below(base: Seq<char>, name: Seq<char>) -> Seq<char> {
    if name.len() > 0 && name[0] == '/' {
        name
    } else if base.len() == 0 || base.last() == '/' {
        base + name
    } else {
        base + "/"@ + name
    }
}

/// Writes a path below another.
pub fn join_path(base: &str, name: &str) -> (path: String)
    ensures
        path@ == path_below(base@, name@),
{
    if name.unicode_len() > 0 && name.get_char(0) == '/' {
        return name.to_owned();
    }
    let n: usize = base.unicode_len();
    if n == 0 || base.get_char(n - 1) == '/' {
        return concat2(base, name);
    }
    let mut path = concat2(base, "/");
    path.append(name);
    path
}

/// Where the part that ends a path starts.
pub open spec fn last_part_start(path: Seq<char>) -> int
    decreases path.len(),
{
    if path.len() == 0 || path.last() == '/' {
        path.len() as int
    } else {
        last_part_start(path.drop_last())
    }
}

/// A part starts within its path.
pub proof fn lemma_last_part_start(path: Seq<char>)
    ensures
        0 <= last_part_start(path) <= path.len(),
    decreases path.len(),
{
    if path.len() > 0 && path.last() != '/' {
        lemma_last_part_start(path.drop_last());
    }
}

/// The parts of a path, which slashes separate. Empty parts do not count, and neither do single
/// dots, but for one that a path starts with.
pub open spec fn path_parts(path: Seq<char>) -> Seq<Seq<char>>
    decreases path.len(),
{
    if path.len() == 0 {
        Seq::empty()
    } else if path.last() == '/' {
        path_parts(path.drop_last())
    } else {
        let n = last_part_start(path);
        proof {
            lemma_last_part_start(path.drop_last());
        }
        if n > 0 && path.skip(n) == "."@ {
            path_parts(path.take(n))
        } else {
            path_parts(path.take(n)).push(path.skip(n))
        }
    }
}

/// Where the parts of a path start and end, in order.
pub open spec fn part_spans(path: Seq<char>) -> Seq<(int, int)>
    decreases path.len(),
{
    if path.len() == 0 {
        Seq::empty()
    } else if path.last() == '/' {
        part_spans(path.drop_last())
    } else {
        let n = last_part_start(path);
        proof {
            lemma_last_part_start(path.drop_last());
        }
        if n > 0 && path.skip(n) == "."@ {
            part_spans(path.take(n))
        } else {
            part_spans(path.take(n)).push((n, path.len() as int))
        }
    }
}

/// There is a span for each part, within the path, and spans are in order.
pub proof fn lemma_spans(path: Seq<char>)
    ensures
        part_spans(path).len() == path_parts(path).len(),
        forall|i: int| #![trigger part_spans(path)[i]]
            0 <= i < part_spans(path).len() ==> {
                let (start, end) = part_spans(path)[i];
                0 <= start < end <= path.len() && path_parts(path)[i] == path.subrange(start, end)
            },
        forall|i: int, j: int|
            0 <= i < j < part_spans(path).len() ==> (#[trigger] part_spans(path)[i]).1 < (
            #[trigger] part_spans(path)[j]).0,
    decreases path.len(),
{
    if path.len() > 0 {
        if path.last() == '/' {
            let rest = path.drop_last();
            lemma_spans(rest);
            assert forall|i: int| #![trigger part_spans(path)[i]]
                0 <= i < part_spans(path).len() implies ({
                let (start, end) = part_spans(path)[i];
                0 <= start < end <= path.len() && path_parts(path)[i] == path.subrange(start, end)
            }) by {
                let (start, end) = part_spans(rest)[i];
                assert(rest.subrange(start, end) =~= path.subrange(start, end));
            }
        } else {
            lemma_last_part_start(path.drop_last());
            lemma_slash_before_part(path);
            let n = last_part_start(path);
            let rest = path.take(n);
            lemma_spans(rest);
            assert(path.subrange(n, path.len() as int) =~= path.skip(n));
            if n > 0 {
                assert(rest.last() == '/');
                lemma_spans(rest.drop_last());
                assert(part_spans(rest) == part_spans(rest.drop_last()));
            }
            assert forall|i: int| #![trigger part_spans(path)[i]]
                0 <= i < part_spans(path).len() implies ({
                let (start, end) = part_spans(path)[i];
                0 <= start < end <= path.len() && path_parts(path)[i] == path.subrange(start, end)
            }) by {
                if i < part_spans(rest).len() {
                    let (start, end) = part_spans(rest)[i];
                    assert(rest.subrange(start, end) =~= path.subrange(start, end));
                }
            }
            assert forall|i: int, j: int| 0 <= i < j < part_spans(path).len() implies (
            #[trigger] part_spans(path)[i]).1 < (#[trigger] part_spans(path)[j]).0 by {
                if j == part_spans(rest).len() {
                    assert(part_spans(rest.drop_last())[i].1 <= n - 1);
                }
            }
        }
    }
}

proof fn lemma_slash_before_part(path: Seq<char>)
    ensures
        0 <= last_part_start(path) <= path.len(),
        last_part_start(path) > 0 ==> path[last_part_start(path) - 1] == '/',
        forall|i: int| last_part_start(path) <= i < path.len() ==> #[trigger] path[i] != '/',
    decreases path.len(),
{
    if path.len() > 0 && path.last() != '/' {
        lemma_slash_before_part(path.drop_last());
        assert forall|i: int| last_part_start(path) <= i < path.len() implies #[trigger] path[i]
            != '/' by {
            if i < path.len() - 1 {
                assert(path.drop_last()[i] == path[i]);
            }
        }
    }
}

/// The plainest way to write a path: its parts with single slashes in between, after a slash where
/// it is absolute.
pub open spec fn plain(path: Seq<char>) -> Seq<char> {
    if path.len() > 0 && path[0] == '/' {
        "/"@ + joined(path_parts(path), "/"@)
    } else {
        joined(path_parts(path), "/"@)
    }
}

/// The spans, as mathematical integers.
spec fn ints(spans: Seq<(usize, usize)>) -> Seq<(int, int)> {
    Seq::new(spans.len(), |i: int| (spans[i].0 as int, spans[i].1 as int))
}

fn find_parts(chars: &Vec<char>) -> (spans: Vec<(usize, usize)>)
    ensures
        ints(spans@) == part_spans(chars@),
{
    let ghost s = chars@;
    let n: usize = chars.len();
    let mut out: Vec<(usize, usize)> = Vec::new();
    let mut start: usize = 0;
    let mut i: usize = 0;
    assert(ints(out@) =~= Seq::empty());
    while i < n
        invariant
            start <= i <= n,
            n == chars@.len(),
            s == chars@,
            start == last_part_start(s.take(i as int)),
            ints(out@) == part_spans(s.take(start as int)),
        decreases n - i,
    {
        assert(s.take(i + 1).drop_last() =~= s.take(i as int));
        assert(s.take(i + 1).last() == chars@[i as int]);
        if chars[i] == '/' {
            if start < i {
                out = with_part(out, chars, start, i);
            }
            i = i + 1;
            start = i;
        } else {
            i = i + 1;
        }
    }
    assert(s.take(n as int) =~= s);
    if start < n {
        out = with_part(out, chars, start, n);
    }
    out
}

/// The parts of a path after one more part, which stands from `start` to `end`.
fn with_part(spans: Vec<(usize, usize)>, chars: &Vec<char>, start: usize, end: usize) -> (more: Vec<
    (usize, usize),
>)
    requires
        start < end <= chars@.len(),
        start == last_part_start(chars@.take(end as int)),
        ints(spans@) == part_spans(chars@.take(start as int)),
    ensures
        ints(more@) == part_spans(chars@.take(end as int)),
{
    let ghost whole = chars@.take(end as int);
    let dot = end - start == 1 && chars[start] == '.';
    proof {
        reveal_strlit(".");
        assert(whole.last() != '/');
        assert(whole.take(start as int) =~= chars@.take(start as int));
        let part = whole.skip(start as int);
        assert(dot == (part == "."@)) by {
            assert(part[0] == chars@[start as int]);
            if dot {
                assert(part =~= "."@);
            }
            if part == "."@ {
                assert(part.len() == 1);
                assert("."@[0] == '.');
            }
        }
        assert(ints(spans@.push((start, end))) =~= ints(spans@).push((start as int, end as int)));
    }
    let mut more = spans;
    if start == 0 || !dot {
        more.push((start, end));
    }
    more
}

fn split_path(chars: &Vec<char>) -> (parts: Vec<String>)
    ensures
        views(parts@) == path_parts(chars@),
{
    let spans = find_parts(chars);
    let mut parts: Vec<String> = Vec::new();
    let mut i: usize = 0;
    proof {
        lemma_spans(chars@);
        assert(views(parts@) =~= path_parts(chars@).take(0));
    }
    while i < spans.len()
        invariant
            i <= spans@.len(),
            ints(spans@) == part_spans(chars@),
            spans@.len() == path_parts(chars@).len(),
            views(parts@) == path_parts(chars@).take(i as int),
            forall|k: int| #![trigger part_spans(chars@)[k]]
                0 <= k < part_spans(chars@).len() ==> {
                    let (start, end) = part_spans(chars@)[k];
                    0 <= start < end <= chars@.len() && path_parts(chars@)[k] == chars@.subrange(
                        start,
                        end,
                    )
                },
        decreases spans@.len() - i,
    {
        let (start, end): (usize, usize) = spans[i];
        assert(part_spans(chars@)[i as int] == (start as int, end as int));
        let part = text_between(chars, start, end);
        proof {
            assert(views(parts@.push(part)) =~= views(parts@).push(part@));
            assert(path_parts(chars@).take(i + 1) =~= path_parts(chars@).take(i as int).push(
                part@,
            ));
        }
        parts.push(part);
        i = i + 1;
    }
    assert(path_parts(chars@).take(i as int) =~= path_parts(chars@));
    parts
}

/// Writes a path in the plainest way, in which paths are the same exactly where their parts are.
pub fn plain_path(path: &str) -> (text: String)
    ensures
        text@ == plain(path@),
{
    let chars = chars_of(path);
    let parts = split_path(&chars);
    let text = join_all(&parts, "/");
    if chars.len() > 0 && chars[0] == '/' {
        concat2("/", text.as_str())
    } else {
        text
    }
}

/// Whether a path starts at the root of the file system.
pub open spec fn is_absolute(path: Seq<char>) -> bool {
    path.len() > 0 && path[0] == '/'
}

/// The text of a path from the start of its part `n` to the end of its last one, where there are that
/// many.
pub open spec fn text_from_part(path: Seq<char>, n: int) -> Seq<char> {
    if n < part_spans(path).len() {
        path.subrange(part_spans(path)[n].0, part_spans(path).last().1)
    } else {
        Seq::empty()
    }
}

/// What leads from `root` to `path`, where the parts of `root` start those of `path`: the text behind
/// them, as it is written. Everything is below the empty path.
pub open spec fn part_below(root: Seq<char>, path: Seq<char>) -> Option<Seq<char>> {
    if root.len() == 0 {
        Some(
            if part_spans(path).len() > 0 {
                path.take(part_spans(path).last().1)
            } else if is_absolute(path) {
                "/"@
            } else {
                Seq::empty()
            },
        )
    } else if is_absolute(root) == is_absolute(path) && path_parts(root).is_prefix_of(
        path_parts(path),
    ) {
        Some(text_from_part(path, path_parts(root).len() as int))
    } else {
        None
    }
}

/// What leads from `root` to `path`, if `path` is below `root`.
pub fn relative_to(root: &str, path: &str) -> (rest: Option<String>)
    ensures
        match part_below(root@, path@) {
            Some(text) => rest is Some && rest->Some_0@ == text,
            None => rest is None,
        },
{
    let root_chars = chars_of(root);
    let chars = chars_of(path);
    let spans = find_parts(&chars);
    let count: usize = spans.len();
    proof {
        lemma_spans(path@);
        assert(forall|k: int| 0 <= k < count ==> part_spans(path@)[k] == (
            #[trigger] spans@[k].0 as int,
            spans@[k].1 as int,
        ));
    }
    if root_chars.len() == 0 {
        if count > 0 {
            let end: usize = spans[count - 1].1;
            let text = text_between(&chars, 0, end);
            assert(text@ =~= path@.take(end as int));
            return Some(text);
        }
        return if chars.len() > 0 && chars[0] == '/' {
            Some("/".to_owned())
        } else {
            let empty = String::new();
            assert(empty@ =~= Seq::empty());
            Some(empty)
        };
    }
    if (root_chars[0] == '/') != (chars.len() > 0 && chars[0] == '/') {
        return None;
    }
    let root_parts = split_path(&root_chars);
    let parts = split_path(&chars);
    let n: usize = root_parts.len();
    if n > parts.len() {
        return None;
    }
    let ghost start = path_parts(root@);
    let ghost whole = path_parts(path@);
    let mut i: usize = 0;
    while i < n
        invariant
            i <= n <= parts@.len(),
            n == root_parts@.len(),
            root@.len() > 0,
            start == path_parts(root@),
            whole == path_parts(path@),
            start == views(root_parts@),
            whole == views(parts@),
            forall|j: int| 0 <= j < i ==> start[j] == whole[j],
        decreases n - i,
    {
        if !same_text(root_parts[i].as_str(), parts[i].as_str()) {
            assert(start[i as int] != whole[i as int]);
            assert(!start.is_prefix_of(whole)) by {
                if start.is_prefix_of(whole) {
                    assert(whole.subrange(0, n as int)[i as int] == whole[i as int]);
                }
            }
            return None;
        }
        i = i + 1;
    }
    assert(whole.subrange(0, n as int) =~= start);
    if n < count {
        let from: usize = spans[n].0;
        let to: usize = spans[count - 1].1;
        assert(part_spans(path@)[n as int].0 == from && part_spans(path@)[count - 1].1 == to);
        Some(text_between(&chars, from, to))
    } else {
        let empty = String::new();
        assert(empty@ =~= Seq::empty());
        Some(empty)
    }
}

/// The parts of a path that stands below another one, where no single dot counts.
pub open spec fn inner_parts(path: Seq<char>) -> Seq<Seq<char>> {
    path_parts("/"@ + path)
}

proof fn lemma_part_start_after(base: Seq<char>, path: Seq<char>)
    requires
        path.len() > 0,
        path[0] == '/',
    ensures
        last_part_start(base + path) == base.len() + last_part_start(path),
        last_part_start(path) > 0,
    decreases path.len(),
{
    let whole = base + path;
    if path.last() != '/' {
        assert(whole.drop_last() =~= base + path.drop_last());
        lemma_part_start_after(base, path.drop_last());
    }
}

proof fn lemma_parts_after(base: Seq<char>, path: Seq<char>)
    requires
        base.len() > 0,
        path.len() > 0,
        path[0] == '/',
    ensures
        path_parts(base + path) == path_parts(base) + path_parts(path),
    decreases path.len(),
{
    let whole = base + path;
    if path.last() == '/' {
        assert(whole.drop_last() =~= base + path.drop_last());
        if path.len() > 1 {
            lemma_parts_after(base, path.drop_last());
        } else {
            assert(whole.drop_last() =~= base);
            assert(path_parts(path.drop_last()) =~= Seq::empty());
            assert(path_parts(base) + Seq::<Seq<char>>::empty() =~= path_parts(base));
        }
    } else {
        lemma_part_start_after(base, path);
        lemma_last_part_start(path.drop_last());
        let n = last_part_start(path);
        assert(n < path.len());
        assert(whole.skip(base.len() + n) =~= path.skip(n));
        assert(whole.take(base.len() + n) =~= base + path.take(n));
        lemma_parts_after(base, path.take(n));
        assert(path_parts(base) + path_parts(path.take(n)).push(path.skip(n)) =~= (path_parts(base)
            + path_parts(path.take(n))).push(path.skip(n)));
    }
}

/// The parts of a path below another are those of the other one and then its own.
pub proof fn lemma_parts_below(base: Seq<char>, name: Seq<char>)
    requires
        base.len() > 0,
        !is_absolute(name),
    ensures
        path_parts(path_below(base, name)) == path_parts(base) + inner_parts(name),
        path_below(base, name).len() > 0,
        is_absolute(path_below(base, name)) == is_absolute(base),
{
    reveal_strlit("/");
    let slashed = "/"@ + name;
    assert(slashed[0] == '/');
    assert(path_below(base, name)[0] == base[0]);
    if base.last() == '/' {
        let head = base.drop_last();
        assert(base + name =~= head + slashed);
        if head.len() > 0 {
            lemma_parts_after(head, slashed);
        } else {
            assert(base + name =~= slashed);
            assert(path_parts(base.drop_last()) =~= Seq::empty());
            assert(path_parts(base) + inner_parts(name) =~= inner_parts(name));
        }
    } else {
        assert(base + "/"@ + name =~= base + slashed);
        lemma_parts_after(base, slashed);
    }
}

proof fn lemma_start_of_name(name: Seq<char>)
    requires
        forall|i: int| 0 <= i < name.len() ==> name[i] != '/',
    ensures
        last_part_start("/"@ + name) == 1,
    decreases name.len(),
{
    reveal_strlit("/");
    let path = "/"@ + name;
    if name.len() > 0 {
        assert(path.last() == name.last());
        assert(path.drop_last() =~= "/"@ + name.drop_last());
        lemma_start_of_name(name.drop_last());
    } else {
        assert(path =~= "/"@);
    }
}

/// Spans, moved to the right.
pub open spec fn shifted(spans: Seq<(int, int)>, by: int) -> Seq<(int, int)> {
    Seq::new(spans.len(), |i: int| (spans[i].0 + by, spans[i].1 + by))
}

proof fn lemma_spans_after(base: Seq<char>, path: Seq<char>)
    requires
        path.len() > 0,
        path[0] == '/',
    ensures
        part_spans(base + path) == part_spans(base) + shifted(part_spans(path), base.len() as int),
    decreases path.len(),
{
    let whole = base + path;
    let by = base.len() as int;
    if path.last() == '/' {
        assert(whole.drop_last() =~= base + path.drop_last());
        if path.len() > 1 {
            lemma_spans_after(base, path.drop_last());
        } else {
            assert(whole.drop_last() =~= base);
            assert(part_spans(path.drop_last()) =~= Seq::empty());
            assert(part_spans(base) + shifted(Seq::empty(), by) =~= part_spans(base));
        }
    } else {
        lemma_part_start_after(base, path);
        lemma_last_part_start(path.drop_last());
        let n = last_part_start(path);
        assert(whole.skip(by + n) =~= path.skip(n));
        assert(whole.take(by + n) =~= base + path.take(n));
        lemma_spans_after(base, path.take(n));
        let rest = part_spans(path.take(n));
        assert(part_spans(base) + shifted(rest.push((n, path.len() as int)), by) =~= (part_spans(
            base,
        ) + shifted(rest, by)).push((by + n, whole.len() as int)));
    }
}

/// What leads from a root to a path below it is that path as it is written, from its first part to
/// its last one, whatever the root.
pub proof fn law_path_below_leads_from_root(root: Seq<char>, name: Seq<char>)
    requires
        root.len() > 0,
        !is_absolute(name),
    ensures
        part_below(root, path_below(root, name)) == Some(text_from_part("/"@ + name, 0)),
{
    reveal_strlit("/");
    let slashed = "/"@ + name;
    let path = path_below(root, name);
    let whole = path_parts(path);
    let n = path_parts(root).len() as int;
    lemma_parts_below(root, name);
    assert(whole.subrange(0, n) =~= path_parts(root));
    let head = if root.last() == '/' {
        root.drop_last()
    } else {
        root
    };
    assert(part_spans(head) == part_spans(root));
    assert(path =~= head + slashed);
    lemma_spans_after(head, slashed);
    lemma_spans(root);
    lemma_spans(path);
    lemma_spans(slashed);
    let inner = part_spans(slashed);
    if inner.len() > 0 {
        let (start, end) = (inner[0].0, inner.last().1);
        assert(part_spans(path)[n] == (start + head.len(), inner[0].1 + head.len()));
        assert(part_spans(path).last().1 == end + head.len());
        assert(start < end) by {
            if inner.len() > 1 {
                assert(inner[0].1 < inner[inner.len() - 1].0);
            }
        }
        assert(path.subrange(start + head.len(), end + head.len()) =~= slashed.subrange(start, end));
    }
}

/// A name that can be one part of a path: it is not empty, holds no slash and is no single dot.
pub open spec fn is_part_name(name: Seq<char>) -> bool {
    name.len() > 0 && !name.contains('/') && name != "."@
}

proof fn lemma_parts_are_names(path: Seq<char>)
    requires
        path.len() > 0,
        path[0] == '/',
    ensures
        forall|i: int| 0 <= i < path_parts(path).len() ==> is_part_name(#[trigger] path_parts(path)[i]),
    decreases path.len(),
{
    if path.last() == '/' {
        assert(path_parts(path) == path_parts(path.drop_last()));
        if path.len() > 1 {
            lemma_parts_are_names(path.drop_last());
        } else {
            assert(path_parts(path.drop_last()) =~= Seq::empty());
        }
    } else {
        lemma_part_start_after(Seq::empty(), path);
        lemma_slash_before_part(path);
        lemma_last_part_start(path.drop_last());
        let n = last_part_start(path);
        let part = path.skip(n);
        lemma_parts_are_names(path.take(n));
        assert(!part.contains('/')) by {
            if part.contains('/') {
                let i = choose|i: int| 0 <= i < part.len() && part[i] == '/';
                assert(path[n + i] == '/');
            }
        }
        assert forall|i: int| 0 <= i < path_parts(path).len() implies is_part_name(
            #[trigger] path_parts(path)[i],
        ) by {
            if i < path_parts(path.take(n)).len() {
                assert(path_parts(path)[i] == path_parts(path.take(n))[i]);
            }
        }
    }
}

/// The parts of a path below another are names.
pub proof fn lemma_inner_parts_are_names(path: Seq<char>)
    ensures
        forall|i: int| 0 <= i < inner_parts(path).len() ==> is_part_name(#[trigger] inner_parts(path)[i]),
{
    reveal_strlit("/");
    lemma_parts_are_names("/"@ + path);
}

proof fn lemma_spans_of_names(parts: Seq<Seq<char>>)
    requires
        parts.len() > 0,
        forall|i: int| 0 <= i < parts.len() ==> is_part_name(#[trigger] parts[i]),
    ensures
        joined(parts, "/"@).len() > 0,
        joined(parts, "/"@)[0] != '/',
        part_spans("/"@ + joined(parts, "/"@)).len() > 0,
        part_spans("/"@ + joined(parts, "/"@))[0].0 == 1,
        part_spans("/"@ + joined(parts, "/"@)).last().1 == joined(parts, "/"@).len() + 1,
    decreases parts.len(),
{
    reveal_strlit("/");
    let name = parts.last();
    let text = joined(parts, "/"@);
    let path = "/"@ + text;
    assert(is_part_name(name));
    assert forall|i: int| 0 <= i < name.len() implies name[i] != '/' by {
        assert(name.contains(name[i]));
    }
    lemma_start_of_name(name);
    let slashed = "/"@ + name;
    assert(slashed.last() == name.last());
    assert(slashed.skip(1) =~= name);
    assert(slashed.take(1) =~= "/"@);
    assert(part_spans("/"@.drop_last()) =~= Seq::empty());
    assert(part_spans("/"@) =~= Seq::empty());
    assert(part_spans(slashed) =~= seq![(1int, slashed.len() as int)]);
    if parts.len() > 1 {
        let head = parts.drop_last();
        assert forall|i: int| 0 <= i < head.len() implies is_part_name(#[trigger] head[i]) by {
            assert(head[i] == parts[i]);
        }
        lemma_spans_of_names(head);
        let before = "/"@ + joined(head, "/"@);
        assert(path =~= before + slashed);
        lemma_spans_after(before, slashed);
        assert(text[0] == joined(head, "/"@)[0]);
    }
}

/// What leads from a root to a path in its plainest form below it is that path.
pub proof fn law_plain_path_leads_from_root(root: Seq<char>, parts: Seq<Seq<char>>)
    requires
        root.len() > 0,
        forall|i: int| 0 <= i < parts.len() ==> is_part_name(#[trigger] parts[i]),
    ensures
        part_below(root, path_below(root, joined(parts, "/"@))) == Some(joined(parts, "/"@)),
{
    reveal_strlit("/");
    let text = joined(parts, "/"@);
    if parts.len() > 0 {
        lemma_spans_of_names(parts);
        law_path_below_leads_from_root(root, text);
        assert(("/"@ + text).subrange(1, text.len() as int + 1) =~= text);
    } else {
        law_path_below_leads_from_root(root, text);
        assert("/"@ + text =~= "/"@);
        assert(part_spans("/"@.drop_last()) =~= Seq::empty());
        assert(part_spans("/"@) =~= Seq::empty());
    }
}

/// Repeated and trailing slashes make no difference to a path.
pub proof fn law_slashes_do_not_count(path: Seq<char>)
    requires
        path.len() > 0,
    ensures
        plain(path.push('/')) == plain(path),
{
    assert(path.push('/').drop_last() =~= path);
}

/// A path below another is written behind it and a slash, unless the slash is there already; an
/// absolute path stands for itself.
pub proof fn law_joined_path(base: &str, name: &str, path: String)
    requires
        call_ensures(join_path, (base, name), path),
    ensures
        name@.len() > 0 && name@[0] == '/' ==> path@ == name@,
        !(name@.len() > 0 && name@[0] == '/') && base@.len() > 0 && base@.last() != '/' ==> path@
            == base@ + "/"@ + name@,
        !(name@.len() > 0 && name@[0] == '/') && (base@.len() == 0 || base@.last() == '/') ==> path@
            == base@ + name@,
{
}

/// The parts of a path are those in front of a slash and those behind it: nothing of either side is
/// lost, and a name without slashes is one part unless it is a single dot.
pub proof fn law_slash_parts_a_path(base: Seq<char>, name: Seq<char>)
    requires
        base.len() > 0,
        !name.contains('/'),
    ensures
        name.len() > 0 && name != "."@ ==> path_parts(base + "/"@ + name) == path_parts(base).push(
            name,
        ),
        name == "."@ || name.len() == 0 ==> path_parts(base + "/"@ + name) == path_parts(base),
{
    reveal_strlit("/");
    reveal_strlit(".");
    let slashed = "/"@ + name;
    assert(base + "/"@ + name =~= base + slashed);
    lemma_parts_after(base, slashed);
    assert forall|i: int| 0 <= i < name.len() implies name[i] != '/' by {
        assert(name.contains(name[i]));
    }
    lemma_start_of_name(name);
    assert(path_parts("/"@.drop_last()) =~= Seq::empty());
    assert(path_parts("/"@) =~= Seq::empty());
    if name.len() > 0 {
        assert(slashed.last() == name.last());
        assert(slashed.skip(1) =~= name);
        assert(slashed.take(1) =~= "/"@);
        if name == "."@ {
            assert(path_parts(slashed) =~= Seq::empty());
        } else {
            assert(path_parts(slashed) =~= seq![name]);
        }
    } else {
        assert(slashed =~= "/"@);
    }
    assert(path_parts(base) + Seq::<Seq<char>>::empty() =~= path_parts(base));
    assert(path_parts(base) + seq![name] =~= path_parts(base).push(name));
}

/// A name without slashes is the one part of its path.
pub proof fn law_name_is_one_part(name: Seq<char>)
    requires
        name.len() > 0,
        !name.contains('/'),
    ensures
        path_parts(name) == seq![name],
        plain(name) == name,
        name != "."@ ==> plain("/"@ + name) == "/"@ + name,
{
    reveal_strlit("/");
    lemma_slash_before_part(name);
    if last_part_start(name) > 0 {
        assert(name.contains(name[last_part_start(name) - 1]));
    }
    assert(name.last() != '/') by {
        assert(name.contains(name.last()));
    }
    assert(name.skip(0) =~= name);
    assert(name.take(0) =~= Seq::empty());
    assert(path_parts(name.take(0)) =~= Seq::empty());
    assert(path_parts(name) =~= seq![name]);
    assert(joined(seq![name], "/"@) == name);
    assert(name[0] != '/') by {
        assert(name.contains(name[0]));
    }
    if name != "."@ {
        let slashed = "/"@ + name;
        assert forall|i: int| 0 <= i < name.len() implies name[i] != '/' by {
            assert(name.contains(name[i]));
        }
        lemma_start_of_name(name);
        assert(slashed.last() == name.last());
        assert(slashed.skip(1) =~= name);
        assert(slashed.take(1) =~= "/"@);
        assert(path_parts("/"@.drop_last()) =~= Seq::empty());
        assert(path_parts("/"@) =~= Seq::empty());
        assert(path_parts(slashed) =~= seq![name]);
    }
}

/// A path is below a root exactly if both are absolute or neither is, and the parts of the root start
/// those of the path; everything is below the empty one.
pub proof fn law_what_is_below_a_root(root: &str, path: &str, rest: Option<String>)
    requires
        call_ensures(relative_to, (root, path), rest),
    ensures
        root@.len() == 0 ==> rest is Some,
        root@.len() > 0 ==> (rest is Some <==> (root@[0] == '/') == (path@.len() > 0 && path@[0]
            == '/') && path_parts(root@).len() <= path_parts(path@).len() && forall|i: int|
            0 <= i < path_parts(root@).len() ==> (#[trigger] path_parts(root@)[i]) == path_parts(
                path@,
            )[i]),
        root@.len() > 0 && path@ == root@ ==> rest is Some && rest->Some_0@.len() == 0,
{
    let a = path_parts(root@);
    let b = path_parts(path@);
    lemma_spans(root@);
    lemma_spans(path@);
    if a.is_prefix_of(b) {
        assert forall|i: int| 0 <= i < a.len() implies (#[trigger] a[i]) == b[i] by {
            assert(b.subrange(0, a.len() as int)[i] == b[i]);
        }
    }
    if a.len() <= b.len() && forall|i: int| 0 <= i < a.len() ==> (#[trigger] a[i]) == b[i] {
        assert(b.subrange(0, a.len() as int) =~= a);
    }
}

/// The plainest form of a path is made of its parts: it starts with a slash exactly where the path
/// does, and paths with the same parts have the same form.
pub proof fn law_plainest_form(a: &str, b: &str, plain_a: String, plain_b: String)
    requires
        call_ensures(plain_path, (a,), plain_a),
        call_ensures(plain_path, (b,), plain_b),
        (a@.len() > 0 && a@[0] == '/') == (b@.len() > 0 && b@[0] == '/'),
        path_parts(a@) == path_parts(b@),
    ensures
        plain_a@ == plain_b@,
        a@.len() > 0 && a@[0] == '/' ==> plain_a@ == "/"@ + joined(path_parts(a@), "/"@),
        !(a@.len() > 0 && a@[0] == '/') ==> plain_a@ == joined(path_parts(a@), "/"@),
{
}

/// Below the empty path a path is itself, up to the end of its last part.
pub proof fn law_below_the_empty_path(root: &str, path: &str, rest: Option<String>)
    requires
        root@.len() == 0,
        call_ensures(relative_to, (root, path), rest),
    ensures
        rest is Some,
        path_parts(path@).len() > 0 ==> rest->Some_0@.is_prefix_of(path@) && rest->Some_0@.len() > 0
            && rest->Some_0@ == path@.take(rest->Some_0@.len() as int),
        path@.len() > 0 && path@.last() != '/' && path@.last() != '.' ==> rest->Some_0@ == path@,
        path_parts(path@).len() == 0 && path@.len() > 0 && path@[0] == '/' ==> rest->Some_0@ == "/"@,
        path_parts(path@).len() == 0 && !(path@.len() > 0 && path@[0] == '/') ==> rest->Some_0@.len()
            == 0,
{
    lemma_spans(path@);
    if part_spans(path@).len() > 0 {
        let end = part_spans(path@).last().1;
        assert(part_spans(path@)[part_spans(path@).len() - 1].1 == end);
        assert(path@.subrange(0, end) =~= path@.take(end));
    }
    if path@.len() > 0 && path@.last() != '/' && path@.last() != '.' {
        reveal_strlit(".");
        lemma_last_part_start(path@.drop_last());
        let n = last_part_start(path@);
        assert(path@.skip(n).last() == path@.last());
        assert("."@.last() == '.');
        assert(part_spans(path@).last().1 == path@.len());
        assert(path@.take(path@.len() as int) =~= path@);
    }
}

} // verus!
