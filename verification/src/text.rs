//! Prefixes and surrounding whitespace of texts.

use vstd::prelude::*;

verus! {

/// Whether `char::is_whitespace` holds of `c`.
pub uninterp spec fn is_whitespace(c: char) -> bool;

/// `text` begins with `prefix`.
pub open spec fn has_prefix(text: Seq<char>, prefix: Seq<char>) -> bool {
    prefix.len() <= text.len() && text.subrange(0, prefix.len() as int) == prefix
}

/// `text` without every leading repetition of `prefix`.
pub open spec fn strip_prefixes(text: Seq<char>, prefix: Seq<char>) -> Seq<char>
    decreases text.len(),
{
    if prefix.len() > 0 && has_prefix(text, prefix) {
        strip_prefixes(text.skip(prefix.len() as int), prefix)
    } else {
        text
    }
}

/// `text` without its leading whitespace.
pub open spec fn trim_start(text: Seq<char>) -> Seq<char>
    decreases text.len(),
{
    if text.len() > 0 && is_whitespace(text.first()) {
        trim_start(text.drop_first())
    } else {
        text
    }
}

/// `text` without its trailing whitespace.
pub open spec fn trim_end(text: Seq<char>) -> Seq<char>
    decreases text.len(),
{
    if text.len() > 0 && is_whitespace(text.last()) {
        trim_end(text.drop_last())
    } else {
        text
    }
}

/// `text` without the whitespace at either end.
pub open spec fn trimmed(text: Seq<char>) -> Seq<char> {
    trim_end(trim_start(text))
}

/// Whether `text` begins with `prefix`.
pub fn starts_with(text: &str, prefix: &str) -> (r: bool)
    ensures
        r == has_prefix(text@, prefix@),
{
    let n: usize = prefix.unicode_len();
    let m: usize = text.unicode_len();
    if m < n {
        return false;
    }
    let mut i: usize = 0;
    while i < n
        invariant
            i <= n,
            n == prefix@.len(),
            n <= text@.len(),
            forall|j: int| 0 <= j < i ==> text@[j] == prefix@[j],
        decreases n - i,
    {
        if text.get_char(i) != prefix.get_char(i) {
            proof {
                assert(text@.subrange(0, n as int)[i as int] == text@[i as int]);
            }
            return false;
        }
        i += 1;
    }
    proof {
        assert(text@.subrange(0, n as int) =~= prefix@);
    }
    true
}

/// `text` without every leading repetition of `prefix`.
pub fn trim_start_matches<'a>(text: &'a str, prefix: &str) -> (r: &'a str)
    ensures
        r@ == strip_prefixes(text@, prefix@),
{
    let n: usize = prefix.unicode_len();
    if n == 0 {
        return text;
    }
    let mut rest: &'a str = text;
    while starts_with(rest, prefix)
        invariant
            n == prefix@.len(),
            n > 0,
            strip_prefixes(rest@, prefix@) == strip_prefixes(text@, prefix@),
        decreases rest@.len(),
    {
        let len: usize = rest.unicode_len();
        let next = rest.substring_char(n, len);
        proof {
            assert(rest@.subrange(n as int, len as int) =~= rest@.skip(n as int));
        }
        rest = next;
    }
    rest
}

/// Leading whitespace is all that `trim_start` removes.
pub proof fn lemma_trim_start_skip(text: Seq<char>, start: int)
    requires
        0 <= start <= text.len(),
        forall|j: int| 0 <= j < start ==> is_whitespace(#[trigger] text[j]),
    ensures
        trim_start(text) == trim_start(text.skip(start)),
    decreases start,
{
    if start > 0 {
        assert(text.first() == text[0]);
        let rest = text.drop_first();
        assert forall|j: int| 0 <= j < start - 1 implies is_whitespace(#[trigger] rest[j]) by {
            assert(rest[j] == text[j + 1]);
        }
        lemma_trim_start_skip(rest, start - 1);
        assert(rest.skip(start - 1) =~= text.skip(start));
    } else {
        assert(text.skip(0) =~= text);
    }
}

/// Trailing whitespace is all that `trim_end` removes.
pub proof fn lemma_trim_end_take(text: Seq<char>, end: int)
    requires
        0 <= end <= text.len(),
        forall|j: int| end <= j < text.len() ==> is_whitespace(#[trigger] text[j]),
    ensures
        trim_end(text) == trim_end(text.take(end)),
    decreases text.len() - end,
{
    if end < text.len() {
        assert(text.last() == text[text.len() - 1]);
        let rest = text.drop_last();
        assert forall|j: int| end <= j < rest.len() implies is_whitespace(#[trigger] rest[j]) by {
            assert(rest[j] == text[j]);
        }
        lemma_trim_end_take(rest, end);
        assert(rest.take(end) =~= text.take(end));
    } else {
        assert(text.take(end) =~= text);
    }
}

/// `text` without the whitespace at either end.
pub fn trim<'a>(text: &'a str) -> (r: &'a str)
    ensures
        r@ == trimmed(text@),
{
    let len: usize = text.unicode_len();
    let mut start: usize = 0;
    while start < len && char_is_whitespace(text.get_char(start))
        invariant
            start <= len,
            len == text@.len(),
            forall|j: int| 0 <= j < start ==> is_whitespace(#[trigger] text@[j]),
        decreases len - start,
    {
        start += 1;
    }
    let mut end: usize = len;
    while end > start && char_is_whitespace(text.get_char(end - 1))
        invariant
            start <= end <= len,
            len == text@.len(),
            forall|j: int| end <= j < len ==> is_whitespace(#[trigger] text@[j]),
        decreases end - start,
    {
        end -= 1;
    }
    proof {
        let front = text@.skip(start as int);
        lemma_trim_start_skip(text@, start as int);
        if start < len {
            assert(front.first() == text@[start as int]);
        }
        assert(trim_start(text@) == front);
        assert forall|j: int| end - start <= j < front.len() implies is_whitespace(
            #[trigger] front[j],
        ) by {
            assert(front[j] == text@[j + start]);
        }
        lemma_trim_end_take(front, end - start);
        let kept = front.take(end - start);
        if end > start {
            assert(kept.last() == text@[end - 1]);
        }
        assert(trim_end(front) == kept);
        assert(kept =~= text@.subrange(start as int, end as int));
    }
    text.substring_char(start, end)
}

/// Calls `char::is_whitespace`. Trusted: the answer depends on the
/// character alone.
#[verifier::external_body]
fn char_is_whitespace(c: char) -> (r: bool)
    ensures
        r == is_whitespace(c),
{
    c.is_whitespace()
}

} // verus!
