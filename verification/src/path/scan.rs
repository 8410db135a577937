//! The scanners that the functions on paths share: they walk a text once
//! and check or gather its components.

use super::lemmas::{lemma_first_violation_prefix, lemma_split_concat, lemma_split_push};
use super::model::{
    component_violation, first_index, first_violation, is_absolute, is_ascii_letter, is_letter,
    is_port_digit, is_real, is_reserved_name, push_component, resolve, split, stem,
    PathError,
};
use crate::spans::{span_items, spans_get, spans_len, spans_new, spans_pop, spans_push, SpanStack};
use vstd::prelude::*;

verus! {

/// Every span lies inside a text of `len` characters.
pub open spec fn spans_within(spans: Seq<(usize, usize)>, len: nat) -> bool {
    forall|i: int| 0 <= i < spans.len() ==> (#[trigger] spans[i]).0 <= spans[i].1 <= len
}

/// The pieces of `text` that the spans stand for.
pub open spec fn span_texts(text: Seq<char>, spans: Seq<(usize, usize)>) -> Seq<Seq<char>> {
    Seq::new(spans.len(), |i: int| text.subrange(spans[i].0 as int, spans[i].1 as int))
}

pub(crate) fn is_letter_char(c: char) -> (r: bool)
    ensures
        r == is_ascii_letter(c),
{
    let n: u32 = c as u32;
    (65 <= n && n <= 90) || (97 <= n && n <= 122)
}

/// Whether the text is absolute.
pub(crate) fn absolute(text: &Vec<char>) -> (r: bool)
    ensures
        r == is_absolute(text@),
{
    let n = text.len();
    if n > 0 && (text[0] == '/' || text[0] == '\\') {
        return true;
    }
    n >= 2 && is_letter_char(text[0]) && text[1] == ':'
}

/// Whether the characters `from..to` of the text hold `c`.
pub(crate) fn holds_char(text: &Vec<char>, from: usize, to: usize, c: char) -> (r: bool)
    requires
        from <= to <= text.len(),
    ensures
        r == text@.subrange(from as int, to as int).contains(c),
{
    let ghost piece = text@.subrange(from as int, to as int);
    let mut i: usize = from;
    while i < to
        invariant
            from <= i <= to <= text.len(),
            piece == text@.subrange(from as int, to as int),
            forall|j: int| 0 <= j < i - from ==> piece[j] != c,
        decreases to - i,
    {
        if text[i] == c {
            assert(piece[i - from] == c);
            return true;
        }
        i += 1;
    }
    false
}

/// What pins down the index of the first `c`.
pub proof fn lemma_first_index(s: Seq<char>, c: char, k: int)
    requires
        0 <= k <= s.len(),
        forall|j: int| 0 <= j < k ==> s[j] != c,
        k < s.len() ==> s[k] == c,
    ensures
        first_index(s, c) == k,
    decreases s.len(),
{
    if s.len() == 0 || s[0] == c {
    } else {
        let rest = s.drop_first();
        assert forall|j: int| 0 <= j < k - 1 implies rest[j] != c by {
            assert(rest[j] == s[j + 1]);
        }
        lemma_first_index(rest, c, k - 1);
    }
}

pub(crate) fn letter_is(c: char, upper: char) -> (r: bool)
    requires
        upper as u32 <= 127,
    ensures
        r == is_letter(c, upper),
{
    c == upper || c as u32 == upper as u32 + 32
}

pub(crate) fn has_letters(text: &Vec<char>, from: usize, a: char, b: char, c: char) -> (r: bool)
    requires
        from + 3 <= text.len(),
        a as u32 <= 127,
        b as u32 <= 127,
        c as u32 <= 127,
    ensures
        r == (is_letter(text@[from as int], a) && is_letter(text@[from + 1], b) && is_letter(
            text@[from + 2],
            c,
        )),
{
    letter_is(text[from], a) && letter_is(text[from + 1], b) && letter_is(text[from + 2], c)
}

pub(crate) fn port_digit(c: char) -> (r: bool)
    ensures
        r == is_port_digit(c),
{
    let n: u32 = c as u32;
    (49 <= n && n <= 57) || c == '\u{b9}' || c == '\u{b2}' || c == '\u{b3}'
}

/// Whether the characters `from..to` of the text are a reserved device
/// name.
pub(crate) fn reserved(text: &Vec<char>, from: usize, to: usize) -> (r: bool)
    requires
        from <= to <= text.len(),
    ensures
        r == is_reserved_name(text@.subrange(from as int, to as int)),
{
    let ghost s = text@.subrange(from as int, to as int);
    let len = to - from;
    if len == 3 {
        assert(s[0] == text@[from as int] && s[1] == text@[from + 1] && s[2] == text@[from + 2]);
        has_letters(text, from, 'C', 'O', 'N') || has_letters(text, from, 'P', 'R', 'N')
            || has_letters(text, from, 'A', 'U', 'X') || has_letters(text, from, 'N', 'U', 'L')
    } else if len == 4 {
        assert(s[0] == text@[from as int] && s[1] == text@[from + 1] && s[2] == text@[from + 2]
            && s[3] == text@[from + 3]);
        (has_letters(text, from, 'C', 'O', 'M') || has_letters(text, from, 'L', 'P', 'T'))
            && port_digit(text[from + 3])
    } else {
        false
    }
}

/// Holds the component `from..to` of the text against the rules.
pub(crate) fn check_path_name_is_valid(text: &Vec<char>, from: usize, to: usize) -> (r: Result<
    (),
    PathError,
>)
    requires
        from <= to <= text.len(),
    ensures
        r is Ok <==> component_violation(text@.subrange(from as int, to as int)) is None,
        r matches Err(e) ==> component_violation(text@.subrange(from as int, to as int)) == Some(
            e,
        ),
{
    let ghost piece = text@.subrange(from as int, to as int);
    if holds_char(text, from, to, '\0') {
        return Err(PathError::InvalidCharacter("\\0"));
    }
    if holds_char(text, from, to, '<') {
        return Err(PathError::InvalidCharacter("<"));
    }
    if holds_char(text, from, to, '>') {
        return Err(PathError::InvalidCharacter(">"));
    }
    if holds_char(text, from, to, ':') {
        return Err(PathError::InvalidCharacter(":"));
    }
    if holds_char(text, from, to, '"') {
        return Err(PathError::InvalidCharacter("\""));
    }
    if holds_char(text, from, to, '|') {
        return Err(PathError::InvalidCharacter("|"));
    }
    if holds_char(text, from, to, '?') {
        return Err(PathError::InvalidCharacter("?"));
    }
    if holds_char(text, from, to, '*') {
        return Err(PathError::InvalidCharacter("*"));
    }
    if to > from && text[to - 1] == ' ' {
        assert(piece.last() == text@[to - 1]);
        return Err(PathError::InvalidFormat("space ` ` at the end"));
    }
    assert(piece.len() > 0 ==> piece.last() == text@[to - 1]);
    let mut dot: usize = from;
    while dot < to && text[dot] != '.'
        invariant
            from <= dot <= to <= text.len(),
            piece == text@.subrange(from as int, to as int),
            forall|j: int| 0 <= j < dot - from ==> piece[j] != '.',
        decreases to - dot,
    {
        dot += 1;
    }
    proof {
        lemma_first_index(piece, '.', dot - from);
        assert(stem(piece) =~= text@.subrange(from as int, dot as int));
    }
    if reserved(text, from, dot) {
        return Err(
            PathError::InvalidCharacter("reserved name from windows(e.g. NUL COM or LPT\u{b9}"),
        );
    }
    if holds_char(text, from, to, '\'') {
        return Err(PathError::InvalidCharacter("\'"));
    }
    Ok(())
}

/// Applies the component `from..to` of the text to the stack of
/// components gathered so far; where `check` is set, a real component is
/// first held against the rules.
pub(crate) fn push_span(
    text: &Vec<char>,
    stack: &mut SpanStack,
    from: usize,
    to: usize,
    check: bool,
) -> (r: Result<(), PathError>)
    requires
        from <= to <= text.len(),
        spans_within(span_items(*old(stack)), text@.len()),
    ensures
        r is Ok ==> spans_within(span_items(*final(stack)), text@.len()),
        r is Ok ==> span_texts(text@, span_items(*final(stack))) == push_component(
            span_texts(text@, span_items(*old(stack))),
            text@.subrange(from as int, to as int),
        ),
        r is Ok && check && is_real(text@.subrange(from as int, to as int))
            ==> component_violation(text@.subrange(from as int, to as int)) is None,
        r matches Err(e) ==> check && is_real(text@.subrange(from as int, to as int))
            && component_violation(text@.subrange(from as int, to as int)) == Some(e),
{
    let ghost piece = text@.subrange(from as int, to as int);
    let ghost before = span_items(*stack);
    let ghost parts = span_texts(text@, before);
    let len = to - from;
    if len == 0 || (len == 1 && text[from] == '.') {
        assert(len == 1 ==> piece[0] == text@[from as int]);
        return Ok(());
    }
    if len == 2 && text[from] == '.' && text[from + 1] == '.' {
        assert(piece[0] == text@[from as int] && piece[1] == text@[from + 1]);
        let n = spans_len(stack);
        if n > 0 {
            let last = spans_get(stack, n - 1);
            let ghost top = parts.last();
            assert(top == text@.subrange(last.0 as int, last.1 as int));
            assert(last.1 - last.0 == 2 ==> top[0] == text@[last.0 as int] && top[1] == text@[last.0
                + 1]);
            if last.1 - last.0 == 2 && text[last.0] == '.' && text[last.0 + 1] == '.' {
                spans_push(stack, (from, to));
                assert(span_texts(text@, span_items(*stack)) =~= parts.push(piece));
            } else {
                let _ = spans_pop(stack);
                assert(span_texts(text@, span_items(*stack)) =~= parts.drop_last());
            }
        } else {
            spans_push(stack, (from, to));
            assert(span_texts(text@, span_items(*stack)) =~= parts.push(piece));
        }
        return Ok(());
    }
    assert(is_real(piece)) by {
        assert(piece[0] == text@[from as int]);
        if len == 2 {
            assert(piece[1] == text@[from + 1]);
        }
    }
    if check {
        match check_path_name_is_valid(text, from, to) {
            Err(e) => {
                return Err(e);
            },
            Ok(()) => {},
        }
    }
    spans_push(stack, (from, to));
    assert(span_texts(text@, span_items(*stack)) =~= parts.push(piece));
    Ok(())
}

/// Gathers the normalized components of the text, as spans of it. Where
/// `check` is set, the first real component that breaks a rule ends the
/// scan with its error.
pub(crate) fn scan(text: &Vec<char>, check: bool) -> (r: Result<SpanStack, PathError>)
    ensures
        r matches Ok(stack) ==> spans_within(span_items(stack), text@.len()) && span_texts(
            text@,
            span_items(stack),
        ) == resolve(split(text@, true)),
        r is Ok && check ==> first_violation(split(text@, true)) is None,
        r matches Err(e) ==> check && first_violation(split(text@, true)) == Some(e),
{
    let n = text.len();
    let mut stack = spans_new();
    let mut start: usize = 0;
    let mut i: usize = 0;
    let ghost mut done: Seq<Seq<char>> = Seq::empty();
    proof {
        assert(text@.take(0) =~= Seq::<char>::empty());
        assert(done.push(text@.subrange(0, 0)) =~= seq![Seq::<char>::empty()]);
        assert(span_texts(text@, span_items(stack)) =~= resolve(done));
    }
    while i < n
        invariant
            n == text.len(),
            start <= i <= n,
            split(text@.take(i as int), true) == done.push(text@.subrange(start as int, i as int)),
            spans_within(span_items(stack), text@.len()),
            span_texts(text@, span_items(stack)) == resolve(done),
            check ==> first_violation(done) is None,
        decreases n - i,
    {
        let c = text[i];
        let ghost piece = text@.subrange(start as int, i as int);
        proof {
            assert(text@.take(i + 1) =~= text@.take(i as int).push(c));
            lemma_split_push(text@.take(i as int), c, true);
            assert(done.push(piece).drop_last() =~= done);
        }
        if c == '/' || c == '\\' {
            match push_span(text, &mut stack, start, i, check) {
                Err(e) => {
                    proof {
                        let rest = text@.subrange(i + 1, n as int);
                        assert(text@.take(i as int).push(c) + rest =~= text@);
                        lemma_split_concat(text@.take(i as int), c, rest, true);
                        lemma_first_violation_prefix(done.push(piece), split(rest, true));
                    }
                    return Err(e);
                },
                Ok(()) => {},
            }
            proof {
                assert(done.push(piece).drop_last() =~= done);
                done = done.push(piece);
            }
            start = i + 1;
            assert(text@.subrange(start as int, i + 1) =~= Seq::<char>::empty());
        } else {
            assert(text@.subrange(start as int, i + 1) =~= piece.push(c));
        }
        i += 1;
    }
    let ghost piece = text@.subrange(start as int, n as int);
    proof {
        assert(text@.take(n as int) =~= text@);
        assert(done.push(piece).drop_last() =~= done);
    }
    match push_span(text, &mut stack, start, n, check) {
        Err(e) => Err(e),
        Ok(()) => Ok(stack),
    }
}

} // verus!
