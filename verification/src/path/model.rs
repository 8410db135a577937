//! The mathematical model of neutral paths: texts are sequences of
//! characters, components are the pieces between separators.

use vstd::prelude::*;

verus! {

/// Why a text is not accepted as a neutral path.
#[derive(Debug)]
pub enum PathError {
    /// The text is empty.
    EmptyPath,
    /// A component has a forbidden shape; the payload names it.
    InvalidFormat(&'static str),
    /// A component holds a forbidden character or is a reserved device
    /// name; the payload names it.
    InvalidCharacter(&'static str),
    /// The text is absolute where a relative one is required.
    PathIsAbsolute(),
}

/// `/` separates components; `\` does too where `wide` is set.
pub open spec fn is_separator(c: char, wide: bool) -> bool {
    c == '/' || (wide && c == '\\')
}

/// No character of `s` is a separator.
pub open spec fn separator_free(s: Seq<char>, wide: bool) -> bool {
    forall|i: int| 0 <= i < s.len() ==> !is_separator(#[trigger] s[i], wide)
}

/// The pieces of `s` between separators, in order. There is always at
/// least one piece; pieces may be empty.
pub open spec fn split(s: Seq<char>, wide: bool) -> Seq<Seq<char>>
    decreases s.len(),
{
    if s.len() == 0 {
        seq![Seq::empty()]
    } else {
        let before = split(s.drop_last(), wide);
        if is_separator(s.last(), wide) {
            before.push(Seq::empty())
        } else {
            before.drop_last().push(before.last().push(s.last()))
        }
    }
}

/// The component `.`.
pub open spec fn is_dot(c: Seq<char>) -> bool {
    c.len() == 1 && c[0] == '.'
}

/// The component `..`.
pub open spec fn is_dot_dot(c: Seq<char>) -> bool {
    c.len() == 2 && c[0] == '.' && c[1] == '.'
}

/// A component that names something: not empty, not `.`, not `..`.
pub open spec fn is_real(c: Seq<char>) -> bool {
    c.len() > 0 && !is_dot(c) && !is_dot_dot(c)
}

/// One step of normalization: what the component `c` does to the
/// components gathered so far.
pub open spec fn push_component(stack: Seq<Seq<char>>, c: Seq<char>) -> Seq<Seq<char>> {
    if c.len() == 0 || is_dot(c) {
        stack
    } else if is_dot_dot(c) {
        if stack.len() > 0 && !is_dot_dot(stack.last()) {
            stack.drop_last()
        } else {
            stack.push(c)
        }
    } else {
        stack.push(c)
    }
}

/// The components that remain once `.` and empty components are dropped
/// and each `..` has cancelled the real component before it. A `..` with
/// nothing to cancel stays.
pub open spec fn resolve(parts: Seq<Seq<char>>) -> Seq<Seq<char>>
    decreases parts.len(),
{
    if parts.len() == 0 {
        Seq::empty()
    } else {
        push_component(resolve(parts.drop_last()), parts.last())
    }
}

/// The steps of `parts`, applied in order to components gathered
/// earlier.
pub open spec fn resolve_onto(stack: Seq<Seq<char>>, parts: Seq<Seq<char>>) -> Seq<Seq<char>>
    decreases parts.len(),
{
    if parts.len() == 0 {
        stack
    } else {
        push_component(resolve_onto(stack, parts.drop_last()), parts.last())
    }
}

/// The parts written one after the other with `/` between them.
pub open spec fn join(parts: Seq<Seq<char>>) -> Seq<char>
    decreases parts.len(),
{
    if parts.len() == 0 {
        Seq::empty()
    } else if parts.len() == 1 {
        parts[0]
    } else {
        join(parts.drop_last()).push('/') + parts.last()
    }
}

/// The text of a component list: the joined parts, or `.` for none.
pub open spec fn render(parts: Seq<Seq<char>>) -> Seq<char> {
    if parts.len() == 0 {
        seq!['.']
    } else {
        join(parts)
    }
}

/// The normalized components of a text.
pub open spec fn components(s: Seq<char>) -> Seq<Seq<char>> {
    resolve(split(s, true))
}

/// The normal form of a text.
pub open spec fn normalized(s: Seq<char>) -> Seq<char> {
    render(components(s))
}

/// An ASCII letter.
pub open spec fn is_ascii_letter(c: char) -> bool {
    let n = c as u32;
    (65 <= n <= 90) || (97 <= n <= 122)
}

/// The text starts with a drive prefix: one ASCII letter followed by
/// `:`.
pub open spec fn has_drive_prefix(s: Seq<char>) -> bool {
    s.len() >= 2 && is_ascii_letter(s[0]) && s[1] == ':'
}

/// The text is absolute: it starts with `/` or `\`, or with a drive
/// prefix.
pub open spec fn is_absolute(s: Seq<char>) -> bool {
    (s.len() > 0 && (s[0] == '/' || s[0] == '\\')) || has_drive_prefix(s)
}

/// The index of the first `c` in `s`, or the length of `s` where there is
/// none.
pub open spec fn first_index(s: Seq<char>, c: char) -> int
    decreases s.len(),
{
    if s.len() == 0 || s[0] == c {
        0
    } else {
        1 + first_index(s.drop_first(), c)
    }
}

/// The part of a component before its first `.`; the whole component
/// where it has none.
pub open spec fn stem(c: Seq<char>) -> Seq<char> {
    c.take(first_index(c, '.'))
}

/// `c` is the upper-case ASCII letter `upper` or its lower-case form.
pub open spec fn is_letter(c: char, upper: char) -> bool {
    c == upper || c as u32 == upper as u32 + 32
}

/// `s` starts with the three given letters, in either case.
pub open spec fn starts_with_letters(s: Seq<char>, a: char, b: char, c: char) -> bool {
    s.len() >= 3 && is_letter(s[0], a) && is_letter(s[1], b) && is_letter(s[2], c)
}

/// A port number of a device name: `1` to `9`, or a superscript one, two
/// or three.
pub open spec fn is_port_digit(c: char) -> bool {
    (49 <= c as u32 <= 57) || c == '\u{b9}' || c == '\u{b2}' || c == '\u{b3}'
}

/// A reserved device name, in any case: CON, PRN, AUX, NUL, or COM or LPT
/// followed by a port digit.
pub open spec fn is_reserved_name(s: Seq<char>) -> bool {
    ||| s.len() == 3 && (starts_with_letters(s, 'C', 'O', 'N') || starts_with_letters(
        s,
        'P',
        'R',
        'N',
    ) || starts_with_letters(s, 'A', 'U', 'X') || starts_with_letters(s, 'N', 'U', 'L'))
    ||| s.len() == 4 && (starts_with_letters(s, 'C', 'O', 'M') || starts_with_letters(
        s,
        'L',
        'P',
        'T',
    )) && is_port_digit(s[3])
}

/// The first rule that the component `c` breaks, if any. The rules, in
/// order: no NUL; none of `<`, `>`, `:`, `"`, `|`, `?`, `*`; no space at
/// the end; the stem is no reserved device name; no `'`.
pub open spec fn component_violation(c: Seq<char>) -> Option<PathError> {
    if c.contains('\0') {
        Some(PathError::InvalidCharacter("\\0"))
    } else if c.contains('<') {
        Some(PathError::InvalidCharacter("<"))
    } else if c.contains('>') {
        Some(PathError::InvalidCharacter(">"))
    } else if c.contains(':') {
        Some(PathError::InvalidCharacter(":"))
    } else if c.contains('"') {
        Some(PathError::InvalidCharacter("\""))
    } else if c.contains('|') {
        Some(PathError::InvalidCharacter("|"))
    } else if c.contains('?') {
        Some(PathError::InvalidCharacter("?"))
    } else if c.contains('*') {
        Some(PathError::InvalidCharacter("*"))
    } else if c.len() > 0 && c.last() == ' ' {
        Some(PathError::InvalidFormat("space ` ` at the end"))
    } else if is_reserved_name(stem(c)) {
        Some(PathError::InvalidCharacter("reserved name from windows(e.g. NUL COM or LPT\u{b9}"))
    } else if c.contains('\'') {
        Some(PathError::InvalidCharacter("\'"))
    } else {
        None
    }
}

/// The violation of the first real component of `parts` that breaks a
/// rule, if any does.
pub open spec fn first_violation(parts: Seq<Seq<char>>) -> Option<PathError>
    decreases parts.len(),
{
    if parts.len() == 0 {
        None
    } else {
        match first_violation(parts.drop_last()) {
            Some(e) => Some(e),
            None => if is_real(parts.last()) {
                component_violation(parts.last())
            } else {
                None
            },
        }
    }
}

/// What constructing a path from the text `s` gives: the error that
/// rejects it, or the normal form.
pub open spec fn parse(s: Seq<char>) -> Result<Seq<char>, PathError> {
    if s.len() == 0 {
        Err(PathError::EmptyPath)
    } else if is_absolute(s) {
        Err(PathError::PathIsAbsolute())
    } else {
        match first_violation(split(s, true)) {
            Some(e) => Err(e),
            None => Ok(normalized(s)),
        }
    }
}

/// A text is neutral when it is its own normal form and none of its
/// components breaks a rule.
pub open spec fn is_neutral(s: Seq<char>) -> bool {
    normalized(s) == s && first_violation(split(s, true)) is None
}

/// `base` and `part` with a `/` between them.
pub open spec fn with_part(base: Seq<char>, part: Seq<char>) -> Seq<char> {
    base.push('/') + part
}

/// What joining `part` onto `base` gives.
pub open spec fn parse_joined(base: Seq<char>, part: Seq<char>) -> Result<Seq<char>, PathError> {
    if is_absolute(part) {
        Err(PathError::PathIsAbsolute())
    } else {
        parse(with_part(base, part))
    }
}

/// `base` with each of `parts` joined on in turn.
pub open spec fn with_parts(base: Seq<char>, parts: Seq<Seq<char>>) -> Seq<char>
    decreases parts.len(),
{
    if parts.len() == 0 {
        base
    } else {
        with_part(with_parts(base, parts.drop_last()), parts.last())
    }
}

/// What joining all of `parts` onto `base` gives.
pub open spec fn parse_joined_all(base: Seq<char>, parts: Seq<Seq<char>>) -> Result<
    Seq<char>,
    PathError,
> {
    if exists|i: int| 0 <= i < parts.len() && is_absolute(#[trigger] parts[i]) {
        Err(PathError::PathIsAbsolute())
    } else {
        parse(with_parts(base, parts))
    }
}

/// The texts of a list of strings.
pub open spec fn texts_of(parts: Seq<&str>) -> Seq<Seq<char>> {
    Seq::new(parts.len(), |i: int| parts[i]@)
}

/// The length of the longest common prefix of two component lists.
pub open spec fn common_len(a: Seq<Seq<char>>, b: Seq<Seq<char>>) -> nat
    decreases a.len(),
{
    if a.len() > 0 && b.len() > 0 && a[0] == b[0] {
        1 + common_len(a.drop_first(), b.drop_first())
    } else {
        0
    }
}

/// `n` components `..`.
pub open spec fn climbs(n: nat) -> Seq<Seq<char>> {
    Seq::new(n, |i: int| seq!['.', '.'])
}

/// The components that lead from `from` to `to`: one `..` for each
/// component of `from` past the common prefix, then what is left of
/// `to`.
pub open spec fn relative_parts(from: Seq<Seq<char>>, to: Seq<Seq<char>>) -> Seq<Seq<char>> {
    let c = common_len(from, to);
    climbs((from.len() - c) as nat) + to.skip(c as int)
}

/// The text of the relative path from `from` to `to`.
pub open spec fn relative_text(from: Seq<char>, to: Seq<char>) -> Seq<char> {
    render(relative_parts(components(from), components(to)))
}

/// The text starts with the two characters `..`.
pub open spec fn begins_with_dot_dot(s: Seq<char>) -> bool {
    s.len() >= 2 && s[0] == '.' && s[1] == '.'
}

/// `path` lies in `dir`: the way from `dir` to `path` does not start
/// with `..`.
pub open spec fn lies_in(path: Seq<char>, dir: Seq<char>) -> bool {
    !begins_with_dot_dot(relative_text(dir, path))
}

/// The last component of a text as it is written: what follows the last
/// `/`.
pub open spec fn last_piece(s: Seq<char>) -> Seq<char> {
    split(s, false).last()
}

/// The file name of a text: its last piece, unless that is `.` or `..`.
pub open spec fn file_name(s: Seq<char>) -> Option<Seq<char>> {
    let last = last_piece(s);
    if is_dot(last) || is_dot_dot(last) {
        None
    } else {
        Some(last)
    }
}

/// What follows the last `c` in `s`, if `s` holds one.
pub open spec fn after_last(s: Seq<char>, c: char) -> Option<Seq<char>>
    decreases s.len(),
{
    if s.len() == 0 {
        None
    } else if s.last() == c {
        Some(Seq::empty())
    } else {
        match after_last(s.drop_last(), c) {
            Some(t) => Some(t.push(s.last())),
            None => None,
        }
    }
}

/// The extension of a text: what follows the last `.` of its file name.
pub open spec fn extension(s: Seq<char>) -> Option<Seq<char>> {
    match file_name(s) {
        Some(name) => after_last(name, '.'),
        None => None,
    }
}

} // verus!
