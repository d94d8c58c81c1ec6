//! Operations on text that the collectors and the configuration loader share.
//! Each is stated over the characters of its arguments.

use vstd::prelude::*;
use vstd::string::*;
use vstd::utf8::*;

verus! {

/// Whether `pattern` stands in `text` at position `at`.
pub open spec fn occurs_at(text: Seq<char>, pattern: Seq<char>, at: int) -> bool {
    0 <= at && at + pattern.len() <= text.len() && text.subrange(at, at + pattern.len())
        == pattern
}

/// `text` with every occurrence of `pattern` replaced by `with`, the
/// occurrences taken from the left and not overlapping. An empty pattern
/// occurs before every character and at the end.
pub open spec fn replaced(text: Seq<char>, pattern: Seq<char>, with: Seq<char>) -> Seq<char>
    decreases text.len(),
{
    if pattern.len() == 0 {
        if text.len() == 0 {
            with
        } else {
            with + seq![text[0]] + replaced(text.subrange(1, text.len() as int), pattern, with)
        }
    } else if text.len() < pattern.len() {
        text
    } else if occurs_at(text, pattern, 0) {
        with + replaced(text.subrange(pattern.len() as int, text.len() as int), pattern, with)
    } else {
        seq![text[0]] + replaced(text.subrange(1, text.len() as int), pattern, with)
    }
}

/// The characters of a string slice, one by one.
pub fn chars_of(text: &str) -> (chars: Vec<char>)
    ensures
        chars@ == text@,
{
    let mut chars: Vec<char> = Vec::new();
    for c in it: text.chars()
        invariant
            chars@ == it.seq().take(it.index() as int),
            it.seq() == text@,
    {
        chars.push(c);
    }
    chars
}

/// Whether two string slices hold the same characters.
pub fn str_eq(left: &str, right: &str) -> (same: bool)
    ensures
        same == (left@ == right@),
{
    let a = left.as_bytes();
    let b = right.as_bytes();
    proof {
        encode_utf8_decode_utf8(left@);
        encode_utf8_decode_utf8(right@);
    }
    if a.len() != b.len() {
        return false;
    }
    let mut i: usize = 0;
    while i < a.len()
        invariant
            a@.len() == b@.len(),
            i <= a@.len(),
            forall|k: int| 0 <= k < i ==> a@[k] == b@[k],
            a@ == encode_utf8(left@),
            b@ == encode_utf8(right@),
        decreases a@.len() - i,
    {
        if a[i] != b[i] {
            return false;
        }
        i += 1;
    }
    assert(a@ =~= b@);
    true
}

/// Whether `pattern` stands in `text` at position `at`.
pub fn matches_at(text: &Vec<char>, pattern: &Vec<char>, at: usize) -> (found: bool)
    ensures
        found == occurs_at(text@, pattern@, at as int),
{
    if pattern.len() > text.len() || at > text.len() - pattern.len() {
        return false;
    }
    let mut k: usize = 0;
    while k < pattern.len()
        invariant
            at + pattern.len() <= text.len(),
            k <= pattern.len(),
            forall|j: int| 0 <= j < k ==> text@[at + j] == pattern@[j],
        decreases pattern@.len() - k,
    {
        if text[at + k] != pattern[k] {
            return false;
        }
        k += 1;
    }
    assert(text@.subrange(at as int, at + pattern@.len()) =~= pattern@);
    true
}

/// Whether `text` begins with `prefix`.
pub fn starts_with(text: &str, prefix: &str) -> (found: bool)
    ensures
        found == occurs_at(text@, prefix@, 0),
{
    let text_chars = chars_of(text);
    let prefix_chars = chars_of(prefix);
    matches_at(&text_chars, &prefix_chars, 0)
}

/// `text` followed by `more`.
pub fn followed_by(text: &str, more: &str) -> (whole: String)
    ensures
        whole@ == text@ + more@,
{
    let mut whole = text.to_owned();
    whole.append(more);
    whole
}

/// `with` before every character of `text` and at its end: what replacing
/// the empty pattern gives.
fn between_all(text: &str, pattern: &str, with: &str) -> (out: String)
    requires
        pattern@.len() == 0,
    ensures
        out@ == replaced(text@, pattern@, with@),
{
    let n: usize = text.unicode_len();
    let mut out = String::new();
    let mut at: usize = 0;
    assert(text@.subrange(0, n as int) =~= text@);
    while at < n
        invariant
            at <= n,
            n == text@.len(),
            pattern@.len() == 0,
            replaced(text@, pattern@, with@) == out@ + replaced(
                text@.subrange(at as int, n as int),
                pattern@,
                with@,
            ),
        decreases n - at,
    {
        let ghost rest = text@.subrange(at as int, n as int);
        proof {
            assert(rest.subrange(1, rest.len() as int) =~= text@.subrange(at + 1, n as int));
            assert(text@.subrange(at as int, at + 1) =~= seq![rest[0]]);
        }
        let ghost before = out@;
        out.append(with);
        out.append(text.substring_char(at, at + 1));
        assert(out@ =~= before + (with@ + seq![rest[0]]));
        at += 1;
    }
    out.append(with);
    out
}

/// `text` with every occurrence of `pattern` replaced by `with`.
pub fn replace(text: &str, pattern: &str, with: &str) -> (out: String)
    ensures
        out@ == replaced(text@, pattern@, with@),
{
    let text_chars = chars_of(text);
    let pattern_chars = chars_of(pattern);
    let n: usize = text_chars.len();
    let m: usize = pattern_chars.len();
    if m == 0 {
        return between_all(text, pattern, with);
    }
    if n < m {
        return text.to_owned();
    }
    let mut out = String::new();
    let mut at: usize = 0;
    assert(text@.subrange(0, n as int) =~= text@);
    while n - at >= m
        invariant
            0 < m <= n,
            at <= n,
            n == text@.len(),
            m == pattern@.len(),
            text_chars@ == text@,
            pattern_chars@ == pattern@,
            replaced(text@, pattern@, with@) == out@ + replaced(
                text@.subrange(at as int, n as int),
                pattern@,
                with@,
            ),
        decreases n - at,
    {
        let ghost rest = text@.subrange(at as int, n as int);
        if matches_at(&text_chars, &pattern_chars, at) {
            proof {
                assert(rest.subrange(0, m as int) =~= text@.subrange(at as int, at + m));
                assert(rest.subrange(m as int, rest.len() as int) =~= text@.subrange(
                    at + m,
                    n as int,
                ));
            }
            out.append(with);
            at += m;
        } else {
            proof {
                assert(rest.subrange(0, m as int) =~= text@.subrange(at as int, at + m));
                assert(rest.subrange(1, rest.len() as int) =~= text@.subrange(at + 1, n as int));
            }
            out.append(text.substring_char(at, at + 1));
            at += 1;
        }
    }
    out.append(text.substring_char(at, n));
    out
}

/// Where the part of `text` after its last `mark` begins: 0 where the text
/// holds no `mark`.
pub open spec fn tail_start(text: Seq<char>, mark: char) -> int
    decreases text.len(),
{
    if text.len() == 0 {
        0
    } else if text.last() == mark {
        text.len() as int
    } else {
        tail_start(text.drop_last(), mark)
    }
}

/// The part of `text` after its last `mark`: the whole text where it holds
/// no `mark`.
pub open spec fn after_last(text: Seq<char>, mark: char) -> Seq<char> {
    text.subrange(tail_start(text, mark), text.len() as int)
}

/// The part after the last `mark` holds no `mark`, and a `mark` stands right
/// before it unless it is the whole text.
pub proof fn law_tail_holds_no_mark(text: Seq<char>, mark: char)
    ensures
        0 <= tail_start(text, mark) <= text.len(),
        !after_last(text, mark).contains(mark),
        tail_start(text, mark) > 0 ==> text[tail_start(text, mark) - 1] == mark,
    decreases text.len(),
{
    if text.len() > 0 && text.last() != mark {
        let shorter = text.drop_last();
        law_tail_holds_no_mark(shorter, mark);
        let tail = after_last(text, mark);
        assert forall|i: int| 0 <= i < tail.len() implies tail[i] != mark by {
            if i < tail.len() - 1 {
                assert(after_last(shorter, mark)[i] == tail[i]);
            }
        }
    }
}

/// The part of `text` after its last `mark`.
pub fn text_after_last(text: &str, mark: char) -> (tail: String)
    ensures
        tail@ == after_last(text@, mark),
{
    let chars = chars_of(text);
    let n: usize = chars.len();
    let mut start: usize = n;
    assert(text@.subrange(0, n as int) =~= text@);
    while start > 0 && chars[start - 1] != mark
        invariant
            start <= n,
            n == text@.len(),
            chars@ == text@,
            tail_start(text@.subrange(0, start as int), mark) == tail_start(text@, mark),
        decreases start,
    {
        proof {
            let upto = text@.subrange(0, start as int);
            assert(upto.drop_last() =~= text@.subrange(0, start - 1));
        }
        start -= 1;
    }
    text.substring_char(start, n).to_owned()
}

/// The texts one after another, with `separator` between each two.
pub open spec fn joined(items: Seq<Seq<char>>, separator: Seq<char>) -> Seq<char>
    decreases items.len(),
{
    if items.len() == 0 {
        Seq::empty()
    } else if items.len() == 1 {
        items[0]
    } else {
        joined(items.drop_last(), separator) + separator + items.last()
    }
}

/// The texts one after another, with `separator` between each two.
pub fn join(items: &Vec<String>, separator: &str) -> (out: String)
    ensures
        out@ == joined(items.deep_view(), separator@),
{
    let mut out = String::new();
    let mut i: usize = 0;
    while i < items.len()
        invariant
            i <= items.len(),
            out@ == joined(items.deep_view().take(i as int), separator@),
        decreases items.len() - i,
    {
        proof {
            let upto = items.deep_view().take(i + 1);
            assert(upto.drop_last() =~= items.deep_view().take(i as int));
        }
        if i > 0 {
            out.append(separator);
        }
        out.append(items[i].as_str());
        i += 1;
    }
    assert(items.deep_view().take(items.len() as int) =~= items.deep_view());
    out
}

} // verus!
