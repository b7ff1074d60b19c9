//! Text helpers for the repository root that git reports: trimming white
//! space and taking one path relative to another.

use vstd::prelude::*;

verus! {

/// Whether `c` is white space: a character with the Unicode property
/// `White_Space`.
pub open spec fn spec_is_blank(c: char) -> bool {
    ||| '\u{9}' <= c <= '\u{d}'
    ||| c == ' '
    ||| c == '\u{85}'
    ||| c == '\u{a0}'
    ||| c == '\u{1680}'
    ||| '\u{2000}' <= c <= '\u{200a}'
    ||| c == '\u{2028}'
    ||| c == '\u{2029}'
    ||| c == '\u{202f}'
    ||| c == '\u{205f}'
    ||| c == '\u{3000}'
}

/// Whether `c` is white space.
#[verifier::when_used_as_spec(spec_is_blank)]
pub fn is_blank(c: char) -> (b: bool)
    ensures
        b == spec_is_blank(c),
{
    ('\u{9}' <= c && c <= '\u{d}') || c == ' ' || c == '\u{85}' || c == '\u{a0}' || c
        == '\u{1680}' || ('\u{2000}' <= c && c <= '\u{200a}') || c == '\u{2028}' || c
        == '\u{2029}' || c == '\u{202f}' || c == '\u{205f}' || c == '\u{3000}'
}

/// The characters of `text`, one by one.
pub fn chars_of(text: &str) -> (chars: Vec<char>)
    ensures
        chars@ == text@,
{
    let mut chars: Vec<char> = Vec::new();
    for c in it: text.chars()
        invariant
            it.seq() == text@,
            chars@ == text@.take(it.index() as int),
    {
        chars.push(c);
    }
    chars
}

/// `text` without the white space at its start.
pub open spec fn trim_start(text: Seq<char>) -> Seq<char>
    decreases text.len(),
{
    if text.len() > 0 && spec_is_blank(text.first()) {
        trim_start(text.drop_first())
    } else {
        text
    }
}

/// `text` without the white space at its end.
pub open spec fn trim_end(text: Seq<char>) -> Seq<char>
    decreases text.len(),
{
    if text.len() > 0 && spec_is_blank(text.last()) {
        trim_end(text.drop_last())
    } else {
        text
    }
}

/// `text` without the white space at its start and at its end.
pub open spec fn trimmed(text: Seq<char>) -> Seq<char> {
    trim_end(trim_start(text))
}

/// `path` without the separators at its start.
pub open spec fn skip_separators(path: Seq<char>) -> Seq<char>
    decreases path.len(),
{
    if path.len() > 0 && path.first() == '/' {
        skip_separators(path.drop_first())
    } else {
        path
    }
}

/// What is left of `path` below the directory `base`, or `None` if `path`
/// is not `base` or a path below it. `base` must be a prefix of `path` that
/// ends where a component of `path` ends; the empty `base` names no
/// directory. The result does not start with a separator.
pub open spec fn spec_relative_to(path: Seq<char>, base: Seq<char>) -> Option<Seq<char>> {
    let rest = path.skip(base.len() as int);
    if base.len() > 0 && base.is_prefix_of(path) && (rest.len() == 0 || base.last() == '/'
        || rest.first() == '/') {
        Some(skip_separators(rest))
    } else {
        None
    }
}

/// The white space at the start ends at the first character that is none.
pub proof fn lemma_trim_start(text: Seq<char>, from: int)
    requires
        0 <= from <= text.len(),
        forall|i: int| 0 <= i < from ==> spec_is_blank(text[i]),
        from == text.len() || !spec_is_blank(text[from]),
    ensures
        trim_start(text) == text.skip(from),
    decreases from,
{
    if from == 0 {
        assert(text.skip(0) =~= text);
    } else {
        let rest = text.drop_first();
        assert forall|i: int| 0 <= i < from - 1 implies spec_is_blank(rest[i]) by {
            assert(rest[i] == text[i + 1]);
        }
        lemma_trim_start(rest, from - 1);
        assert(rest.skip(from - 1) =~= text.skip(from));
    }
}

/// The white space at the end starts after the last character that is none.
pub proof fn lemma_trim_end(text: Seq<char>, to: int)
    requires
        0 <= to <= text.len(),
        forall|i: int| to <= i < text.len() ==> spec_is_blank(text[i]),
        to == 0 || !spec_is_blank(text[to - 1]),
    ensures
        trim_end(text) == text.take(to),
    decreases text.len() - to,
{
    if to == text.len() {
        assert(text.take(to) =~= text);
    } else {
        let rest = text.drop_last();
        lemma_trim_end(rest, to);
        assert(rest.take(to) =~= text.take(to));
    }
}

/// Separators at the start of a path can be skipped one by one.
pub proof fn lemma_skip_separators(path: Seq<char>, from: int)
    requires
        0 <= from <= path.len(),
        forall|i: int| 0 <= i < from ==> path[i] == '/',
    ensures
        skip_separators(path) == skip_separators(path.skip(from)),
    decreases from,
{
    if from == 0 {
        assert(path.skip(0) =~= path);
    } else {
        let rest = path.drop_first();
        assert forall|i: int| 0 <= i < from - 1 implies rest[i] == '/' by {
            assert(rest[i] == path[i + 1]);
        }
        lemma_skip_separators(rest, from - 1);
        assert(rest.skip(from - 1) =~= path.skip(from));
    }
}

/// How many separators `path` starts with.
spec fn leading_separators(path: Seq<char>) -> int
    decreases path.len(),
{
    if path.len() > 0 && path.first() == '/' {
        1 + leading_separators(path.drop_first())
    } else {
        0
    }
}

proof fn lemma_leading_separators(path: Seq<char>)
    ensures
        0 <= leading_separators(path) <= path.len(),
        forall|i: int| 0 <= i < leading_separators(path) ==> path[i] == '/',
        leading_separators(path) == path.len() || path[leading_separators(path)] != '/',
    decreases path.len(),
{
    if path.len() > 0 && path.first() == '/' {
        let rest = path.drop_first();
        lemma_leading_separators(rest);
        assert forall|i: int| 0 <= i < leading_separators(path) implies path[i] == '/' by {
            if i > 0 {
                assert(path[i] == rest[i - 1]);
            }
        }
        assert(leading_separators(rest) < rest.len() ==> path[leading_separators(path)]
            == rest[leading_separators(rest)]);
    }
}

/// A relative path, put behind its base again, gives the path it was taken
/// from: between the two stand only separators, at least one unless the
/// base ends in one or nothing is left, and what is left starts with none.
pub proof fn lemma_relative_to_rejoins(path: Seq<char>, base: Seq<char>)
    requires
        spec_relative_to(path, base) is Some,
    ensures
        ({
            let rest = spec_relative_to(path, base)->0;
            let gap = path.subrange(base.len() as int, path.len() - rest.len());
            &&& base.len() + rest.len() <= path.len()
            &&& path == base + gap + rest
            &&& forall|i: int| 0 <= i < gap.len() ==> gap[i] == '/'
            &&& rest.len() > 0 ==> rest.first() != '/'
            &&& rest.len() > 0 ==> gap.len() > 0 || base.last() == '/'
        }),
{
    let tail = path.skip(base.len() as int);
    let skipped = leading_separators(tail);
    lemma_leading_separators(tail);
    lemma_skip_separators(tail, skipped);
    let rest = tail.skip(skipped);
    assert(skip_separators(rest) == rest);
    let gap = path.subrange(base.len() as int, path.len() - rest.len());
    assert(gap =~= tail.take(skipped));
    assert(path =~= base + gap + rest);
}

/// Trimming leaves no white space at either end, and takes nothing else
/// away: what it gives is a stretch of the text with only white space before
/// it and only white space after it.
pub proof fn lemma_trimmed(text: Seq<char>)
    ensures
        trimmed(text).len() > 0 ==> !spec_is_blank(trimmed(text).first()) && !spec_is_blank(
            trimmed(text).last(),
        ),
        exists|from: int, to: int|
            {
                &&& 0 <= from <= to <= text.len()
                &&& #[trigger] text.subrange(from, to) == trimmed(text)
                &&& forall|i: int| 0 <= i < from ==> spec_is_blank(text[i])
                &&& forall|i: int| to <= i < text.len() ==> spec_is_blank(text[i])
            },
{
    let from = trim_bound_start(text, 0);
    lemma_trim_bound_start(text, 0);
    lemma_trim_start(text, from);
    let tail = text.skip(from);
    let len = trim_bound_end(tail, tail.len() as int);
    lemma_trim_bound_end(tail, tail.len() as int);
    lemma_trim_end(tail, len);
    assert(tail.take(len) =~= text.subrange(from, from + len));
    assert forall|i: int| from + len <= i < text.len() implies spec_is_blank(text[i]) by {
        assert(tail[i - from] == text[i]);
    }
}

/// The first index at or after `at` that holds no white space, or the
/// length of `text` if there is none.
spec fn trim_bound_start(text: Seq<char>, at: int) -> int
    decreases text.len() - at,
{
    if 0 <= at < text.len() && spec_is_blank(text[at]) {
        trim_bound_start(text, at + 1)
    } else {
        at
    }
}

proof fn lemma_trim_bound_start(text: Seq<char>, at: int)
    requires
        0 <= at <= text.len(),
    ensures
        at <= trim_bound_start(text, at) <= text.len(),
        forall|i: int| at <= i < trim_bound_start(text, at) ==> spec_is_blank(text[i]),
        trim_bound_start(text, at) == text.len() || !spec_is_blank(
            text[trim_bound_start(text, at)],
        ),
    decreases text.len() - at,
{
    if at < text.len() && spec_is_blank(text[at]) {
        lemma_trim_bound_start(text, at + 1);
    }
}

/// The end of the last stretch before `at` that holds no white space, or 0
/// if there is none.
spec fn trim_bound_end(text: Seq<char>, at: int) -> int
    decreases at,
{
    if 0 < at <= text.len() && spec_is_blank(text[at - 1]) {
        trim_bound_end(text, at - 1)
    } else {
        at
    }
}

proof fn lemma_trim_bound_end(text: Seq<char>, at: int)
    requires
        0 <= at <= text.len(),
    ensures
        0 <= trim_bound_end(text, at) <= at,
        forall|i: int| trim_bound_end(text, at) <= i < at ==> spec_is_blank(text[i]),
        trim_bound_end(text, at) == 0 || !spec_is_blank(text[trim_bound_end(text, at) - 1]),
    decreases at,
{
    if 0 < at && spec_is_blank(text[at - 1]) {
        lemma_trim_bound_end(text, at - 1);
    }
}

/// `text` without the white space at its start and at its end.
pub fn trim(text: &str) -> (kept: &str)
    ensures
        kept@ == trimmed(text@),
{
    let chars = chars_of(text);
    let mut from: usize = 0;
    while from < chars.len() && is_blank(chars[from])
        invariant
            from <= chars.len(),
            forall|i: int| 0 <= i < from ==> spec_is_blank(chars@[i]),
        decreases chars.len() - from,
    {
        from += 1;
    }
    let mut to: usize = chars.len();
    while to > from && is_blank(chars[to - 1])
        invariant
            from <= to <= chars.len(),
            forall|i: int| to <= i < chars.len() ==> spec_is_blank(chars@[i]),
        decreases to,
    {
        to -= 1;
    }
    proof {
        let tail = text@.skip(from as int);
        lemma_trim_start(text@, from as int);
        assert forall|i: int| to - from <= i < tail.len() implies spec_is_blank(tail[i]) by {
            assert(tail[i] == text@[i + from]);
        }
        lemma_trim_end(tail, to - from);
        assert(tail.take(to - from) =~= text@.subrange(from as int, to as int));
    }
    text.substring_char(from, to)
}

/// What is left of `path` below the directory `base`, if `path` is `base`
/// or a path below it.
pub fn relative_to<'a>(path: &'a str, base: &str) -> (rest: Option<&'a str>)
    ensures
        rest.deep_view() == spec_relative_to(path@, base@),
{
    let p = chars_of(path);
    let b = chars_of(base);
    let n = b.len();
    if n == 0 || n > p.len() {
        return None;
    }
    let mut i: usize = 0;
    while i < n
        invariant
            i <= n,
            n == b.len(),
            n <= p.len(),
            p@ == path@,
            b@ == base@,
            forall|j: int| 0 <= j < i ==> p@[j] == b@[j],
        decreases n - i,
    {
        if p[i] != b[i] {
            assert(p@.subrange(0, n as int)[i as int] != b@[i as int]);
            return None;
        }
        i += 1;
    }
    assert(b@ =~= p@.subrange(0, n as int));
    if n < p.len() && b[n - 1] != '/' && p[n] != '/' {
        return None;
    }
    let ghost rest = p@.skip(n as int);
    let mut from: usize = n;
    while from < p.len() && p[from] == '/'
        invariant
            n <= from <= p.len(),
            forall|j: int| n <= j < from ==> p@[j] == '/',
        decreases p.len() - from,
    {
        from += 1;
    }
    proof {
        assert forall|j: int| 0 <= j < from - n implies rest[j] == '/' by {
            assert(rest[j] == p@[j + n]);
        }
        lemma_skip_separators(rest, from - n);
        assert(rest.skip(from - n) =~= p@.subrange(from as int, p@.len() as int));
    }
    Some(path.substring_char(from, p.len()))
}

} // verus!
