//! Splitting a line into whitespace-separated tokens.

use vstd::prelude::*;

verus! {

/// ASCII whitespace: space, tab, line feed, form feed, carriage return.
pub open spec fn is_space(b: u8) -> bool {
    b == 0x20 || b == 0x09 || b == 0x0a || b == 0x0c || b == 0x0d
}

/// Whether no byte of `s` is whitespace.
pub open spec fn no_space(s: Seq<u8>) -> bool {
    forall|i: int| 0 <= i < s.len() ==> !is_space(#[trigger] s[i])
}

/// The first position at or after `i` that holds no whitespace, or the end of `s`.
pub open spec fn skip_spaces(s: Seq<u8>, i: int) -> int
    decreases s.len() - i,
{
    if 0 <= i < s.len() && is_space(s[i]) {
        skip_spaces(s, i + 1)
    } else {
        i
    }
}

/// The first position at or after `i` that holds whitespace, or the end of `s`.
pub open spec fn token_end(s: Seq<u8>, i: int) -> int
    decreases s.len() - i,
{
    if 0 <= i < s.len() && !is_space(s[i]) {
        token_end(s, i + 1)
    } else {
        i
    }
}

/// The tokens of `s` that begin at or after position `i`, in order.
pub open spec fn tokens_from(s: Seq<u8>, i: int) -> Seq<Seq<u8>>
    decreases s.len() - i,
{
    let start = skip_spaces(s, i);
    if 0 <= i && start < s.len() {
        let end = token_end(s, start);
        proof {
            lemma_skip_spaces(s, i);
            lemma_token_end(s, start);
        }
        seq![s.subrange(start, end)] + tokens_from(s, end)
    } else {
        Seq::empty()
    }
}

/// The maximal runs of non-whitespace bytes of `s`, in order.
pub open spec fn tokens(s: Seq<u8>) -> Seq<Seq<u8>> {
    tokens_from(s, 0)
}

/// `skip_spaces` moves forward over whitespace only, and stops at the end or
/// at a byte that is not whitespace.
pub proof fn lemma_skip_spaces(s: Seq<u8>, i: int)
    requires
        0 <= i <= s.len(),
    ensures
        i <= skip_spaces(s, i) <= s.len(),
        forall|j: int| i <= j < skip_spaces(s, i) ==> is_space(#[trigger] s[j]),
        skip_spaces(s, i) < s.len() ==> !is_space(s[skip_spaces(s, i)]),
    decreases s.len() - i,
{
    if i < s.len() && is_space(s[i]) {
        lemma_skip_spaces(s, i + 1);
    }
}

/// `token_end` moves forward over non-whitespace only, and stops at the end
/// or at a whitespace byte.
pub proof fn lemma_token_end(s: Seq<u8>, i: int)
    requires
        0 <= i <= s.len(),
    ensures
        i <= token_end(s, i) <= s.len(),
        forall|j: int| i <= j < token_end(s, i) ==> !is_space(#[trigger] s[j]),
        token_end(s, i) < s.len() ==> is_space(s[token_end(s, i)]),
        i < s.len() && !is_space(s[i]) ==> i < token_end(s, i),
    decreases s.len() - i,
{
    if i < s.len() && !is_space(s[i]) {
        lemma_token_end(s, i + 1);
    }
}

/// A position reached by skipping only whitespace is where `skip_spaces` stops.
pub proof fn lemma_skip_spaces_is(s: Seq<u8>, i: int, k: int)
    requires
        0 <= i <= k <= s.len(),
        forall|j: int| i <= j < k ==> is_space(#[trigger] s[j]),
        k < s.len() ==> !is_space(s[k]),
    ensures
        skip_spaces(s, i) == k,
    decreases k - i,
{
    if i < k {
        lemma_skip_spaces_is(s, i + 1, k);
    }
}

/// A position reached by passing only non-whitespace is where `token_end` stops.
pub proof fn lemma_token_end_is(s: Seq<u8>, i: int, k: int)
    requires
        0 <= i <= k <= s.len(),
        forall|j: int| i <= j < k ==> !is_space(#[trigger] s[j]),
        k < s.len() ==> is_space(s[k]),
    ensures
        token_end(s, i) == k,
    decreases k - i,
{
    if i < k {
        lemma_token_end_is(s, i + 1, k);
    }
}

/// Every token is non-empty and free of whitespace.
pub proof fn lemma_tokens_are_words(s: Seq<u8>, i: int)
    requires
        0 <= i <= s.len(),
    ensures
        forall|k: int|
            0 <= k < tokens_from(s, i).len() ==> (#[trigger] tokens_from(s, i)[k]).len() > 0
                && no_space(tokens_from(s, i)[k]),
    decreases s.len() - i,
{
    lemma_skip_spaces(s, i);
    let start = skip_spaces(s, i);
    if start < s.len() {
        lemma_token_end(s, start);
        let end = token_end(s, start);
        lemma_tokens_are_words(s, end);
        let first = s.subrange(start, end);
        assert(no_space(first)) by {
            assert forall|j: int| 0 <= j < first.len() implies !is_space(#[trigger] first[j]) by {
                assert(first[j] == s[start + j]);
            }
        }
        assert forall|k: int| 0 <= k < tokens_from(s, i).len() implies (
        #[trigger] tokens_from(s, i)[k]).len() > 0 && no_space(tokens_from(s, i)[k]) by {
            if k > 0 {
                assert(tokens_from(s, i)[k] == tokens_from(s, end)[k - 1]);
            }
        }
    }
}

/// Bytes put in front of a string shift where `skip_spaces` stops, and nothing else.
pub proof fn lemma_skip_spaces_shift(front: Seq<u8>, rest: Seq<u8>, i: int)
    requires
        0 <= i <= rest.len(),
    ensures
        skip_spaces(front + rest, front.len() + i) == front.len() + skip_spaces(rest, i),
    decreases rest.len() - i,
{
    if i < rest.len() {
        assert((front + rest)[front.len() + i] == rest[i]);
        if is_space(rest[i]) {
            lemma_skip_spaces_shift(front, rest, i + 1);
        }
    }
}

/// Bytes put in front of a string shift where `token_end` stops, and nothing else.
pub proof fn lemma_token_end_shift(front: Seq<u8>, rest: Seq<u8>, i: int)
    requires
        0 <= i <= rest.len(),
    ensures
        token_end(front + rest, front.len() + i) == front.len() + token_end(rest, i),
    decreases rest.len() - i,
{
    if i < rest.len() {
        assert((front + rest)[front.len() + i] == rest[i]);
        if !is_space(rest[i]) {
            lemma_token_end_shift(front, rest, i + 1);
        }
    }
}

/// The tokens found past a prefix are the tokens of what follows the prefix.
pub proof fn lemma_tokens_shift(front: Seq<u8>, rest: Seq<u8>, i: int)
    requires
        0 <= i <= rest.len(),
    ensures
        tokens_from(front + rest, front.len() + i) == tokens_from(rest, i),
    decreases rest.len() - i,
{
    lemma_skip_spaces_shift(front, rest, i);
    lemma_skip_spaces(rest, i);
    let start = skip_spaces(rest, i);
    if start < rest.len() {
        lemma_token_end_shift(front, rest, start);
        lemma_token_end(rest, start);
        let end = token_end(rest, start);
        lemma_tokens_shift(front, rest, end);
        assert((front + rest).subrange(front.len() + start, front.len() + end) =~= rest.subrange(
            start,
            end,
        ));
    }
}

/// A word followed by whitespace is the first token, and the tokens after it
/// are those of the rest of the line.
pub proof fn lemma_tokens_of_word_then_space(word: Seq<u8>, sp: u8, rest: Seq<u8>)
    requires
        word.len() > 0,
        no_space(word),
        is_space(sp),
    ensures
        tokens(word.push(sp) + rest) == seq![word] + tokens(rest),
{
    let front = word.push(sp);
    let s = front + rest;
    let n = word.len() as int;
    assert forall|j: int| 0 <= j < n implies !is_space(#[trigger] s[j]) by {
        assert(s[j] == word[j]);
    }
    assert(s[n] == sp);
    lemma_token_end_is(s, 0, n);
    assert(skip_spaces(s, 0) == 0);
    assert(s.subrange(0, n) =~= word);
    assert(skip_spaces(s, n) == skip_spaces(s, n + 1));
    assert(tokens_from(s, n) == tokens_from(s, n + 1));
    lemma_tokens_shift(front, rest, 0);
}

/// The bounds of the next token at or after `from`, or `None` when only
/// whitespace is left.
pub fn next_token(line: &[u8], from: usize) -> (res: Option<(usize, usize)>)
    ensures
        match res {
            Some((start, end)) => {
                &&& start == skip_spaces(line@, from as int)
                &&& end == token_end(line@, start as int)
                &&& from <= start < end <= line.len()
                &&& tokens_from(line@, from as int) == seq![
                    line@.subrange(start as int, end as int),
                ] + tokens_from(line@, end as int)
            },
            None => tokens_from(line@, from as int) == Seq::<Seq<u8>>::empty(),
        },
{
    if from >= line.len() {
        return None;
    }
    let mut start: usize = from;
    while start < line.len() && is_space_byte(line[start])
        invariant
            from <= start <= line.len(),
            forall|j: int| from <= j < start ==> is_space(#[trigger] line@[j]),
        decreases line.len() - start,
    {
        start = start + 1;
    }
    proof {
        lemma_skip_spaces_is(line@, from as int, start as int);
    }
    if start >= line.len() {
        return None;
    }
    let mut end: usize = start + 1;
    while end < line.len() && !is_space_byte(line[end])
        invariant
            start < end <= line.len(),
            forall|j: int| start <= j < end ==> !is_space(#[trigger] line@[j]),
        decreases line.len() - end,
    {
        end = end + 1;
    }
    proof {
        lemma_token_end_is(line@, start as int, end as int);
    }
    Some((start, end))
}

/// Whether a byte is ASCII whitespace.
pub fn is_space_byte(b: u8) -> (res: bool)
    ensures
        res == is_space(b),
{
    b == 0x20 || b == 0x09 || b == 0x0a || b == 0x0c || b == 0x0d
}

} // verus!
