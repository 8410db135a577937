//! Neutral paths: relative paths in one normal form that is valid on
//! every platform.

pub mod equality;
pub mod laws;
pub mod lemmas;
pub mod model;
pub mod scan;

use crate::spans::{span_items, spans_get, spans_len, SpanStack};
use crate::text::{chars_of, string_of};
use lemmas::{
    lemma_common_len, lemma_join_push, lemma_parent_neutral, lemma_parse_neutral,
    lemma_relative_neutral, lemma_render_neutral, lemma_split_push,
};
use model::{
    after_last, climbs, common_len, components, extension, file_name, first_violation,
    is_absolute, is_dot, is_dot_dot, is_neutral, join, last_piece, lies_in, normalized, parse,
    parse_joined, parse_joined_all, relative_text, render, split, texts_of, with_part, with_parts,
};
pub use model::PathError;
use scan::{absolute, scan, span_texts, spans_within};
use vstd::prelude::*;

verus! {

/// A relative path in normal form: components separated by `/`, no `.`
/// and no empty component, `..` only at the front, every component valid
/// as a file name on every platform. The path of no components is `.`.
#[derive(Debug, Hash)]
pub struct NeutralPath(String);

impl View for NeutralPath {
    type V = Seq<char>;

    closed spec fn view(&self) -> Seq<char> {
        self.0@
    }
}

impl Clone for NeutralPath {
    fn clone(&self) -> (r: Self)
        ensures
            r@ == self@,
    {
        NeutralPath(self.0.clone())
    }
}

/// Appends the characters `from..to` of `text` to `out`, after a `/`
/// unless they are the first piece.
fn append_piece(out: &mut Vec<char>, first: bool, text: &Vec<char>, from: usize, to: usize)
    requires
        from <= to <= text.len(),
    ensures
        first ==> final(out)@ == old(out)@ + text@.subrange(from as int, to as int),
        !first ==> final(out)@ == old(out)@.push('/') + text@.subrange(from as int, to as int),
{
    if !first {
        out.push('/');
    }
    let ghost base = out@;
    let mut i: usize = from;
    while i < to
        invariant
            from <= i <= to <= text.len(),
            out@ == base + text@.subrange(from as int, i as int),
        decreases to - i,
    {
        out.push(text[i]);
        i += 1;
        assert(out@ =~= base + text@.subrange(from as int, i as int));
    }
}

/// The text of the components that the spans stand for.
fn render_spans(text: &Vec<char>, stack: &SpanStack) -> (out: Vec<char>)
    requires
        spans_within(span_items(*stack), text@.len()),
    ensures
        out@ == render(span_texts(text@, span_items(*stack))),
{
    let n = spans_len(stack);
    let mut out: Vec<char> = Vec::new();
    if n == 0 {
        out.push('.');
        assert(out@ =~= seq!['.']);
        return out;
    }
    let ghost parts = span_texts(text@, span_items(*stack));
    let mut i: usize = 0;
    while i < n
        invariant
            i <= n,
            n == span_items(*stack).len(),
            spans_within(span_items(*stack), text@.len()),
            parts == span_texts(text@, span_items(*stack)),
            out@ == join(parts.take(i as int)),
        decreases n - i,
    {
        let span = spans_get(stack, i);
        proof {
            lemma_join_push(parts.take(i as int), parts[i as int]);
            assert(parts.take(i + 1) =~= parts.take(i as int).push(parts[i as int]));
            assert(i == 0 ==> out@ =~= Seq::<char>::empty());
        }
        append_piece(&mut out, i == 0, text, span.0, span.1);
        assert(i == 0 ==> out@ =~= parts[i as int]);
        i += 1;
    }
    assert(parts.take(n as int) =~= parts);
    out
}

/// Where the last piece of the text starts: after its last `/`.
fn last_piece_start(text: &Vec<char>) -> (start: usize)
    ensures
        start <= text.len(),
        text@.subrange(start as int, text@.len() as int) == last_piece(text@),
{
    let n = text.len();
    let mut start: usize = 0;
    let mut i: usize = 0;
    proof {
        assert(text@.take(0) =~= Seq::<char>::empty());
        assert(text@.subrange(0, 0) =~= Seq::<char>::empty());
    }
    while i < n
        invariant
            n == text.len(),
            start <= i <= n,
            split(text@.take(i as int), false).last() == text@.subrange(start as int, i as int),
        decreases n - i,
    {
        let c = text[i];
        proof {
            assert(text@.take(i + 1) =~= text@.take(i as int).push(c));
            lemma_split_push(text@.take(i as int), c, false);
        }
        if c == '/' {
            start = i + 1;
            assert(text@.subrange(start as int, i + 1) =~= Seq::<char>::empty());
        } else {
            assert(text@.subrange(start as int, i + 1) =~= text@.subrange(
                start as int,
                i as int,
            ).push(c));
        }
        i += 1;
    }
    assert(text@.take(n as int) =~= text@);
    start
}

/// Whether the characters `from..to` of the text are `.` or `..`.
fn dots_only(text: &Vec<char>, from: usize, to: usize) -> (r: bool)
    requires
        from <= to <= text.len(),
    ensures
        r == (is_dot(text@.subrange(from as int, to as int)) || is_dot_dot(
            text@.subrange(from as int, to as int),
        )),
{
    let ghost piece = text@.subrange(from as int, to as int);
    let len = to - from;
    if len == 1 {
        assert(piece[0] == text@[from as int]);
        text[from] == '.'
    } else if len == 2 {
        assert(piece[0] == text@[from as int] && piece[1] == text@[from + 1]);
        text[from] == '.' && text[from + 1] == '.'
    } else {
        false
    }
}

/// Whether two spans, each of its own text, stand for the same piece.
fn same_piece(a: &Vec<char>, x: (usize, usize), b: &Vec<char>, y: (usize, usize)) -> (r: bool)
    requires
        x.0 <= x.1 <= a.len(),
        y.0 <= y.1 <= b.len(),
    ensures
        r == (a@.subrange(x.0 as int, x.1 as int) == b@.subrange(y.0 as int, y.1 as int)),
{
    let ghost left = a@.subrange(x.0 as int, x.1 as int);
    let ghost right = b@.subrange(y.0 as int, y.1 as int);
    let len = x.1 - x.0;
    if len != y.1 - y.0 {
        assert(left.len() != right.len());
        return false;
    }
    let mut i: usize = 0;
    while i < len
        invariant
            i <= len,
            len == x.1 - x.0,
            len == y.1 - y.0,
            x.1 <= a.len(),
            y.1 <= b.len(),
            left == a@.subrange(x.0 as int, x.1 as int),
            right == b@.subrange(y.0 as int, y.1 as int),
            forall|j: int| 0 <= j < i ==> left[j] == right[j],
        decreases len - i,
    {
        if a[x.0 + i] != b[y.0 + i] {
            assert(left[i as int] != right[i as int]);
            return false;
        }
        i += 1;
    }
    assert(left =~= right);
    true
}

/// The number of leading components that two scanned texts share.
fn shared_prefix(a_text: &Vec<char>, a_parts: &SpanStack, b_text: &Vec<char>, b_parts: &SpanStack) -> (n:
    usize)
    requires
        spans_within(span_items(*a_parts), a_text@.len()),
        spans_within(span_items(*b_parts), b_text@.len()),
    ensures
        n == common_len(
            span_texts(a_text@, span_items(*a_parts)),
            span_texts(b_text@, span_items(*b_parts)),
        ),
        n <= span_items(*a_parts).len(),
        n <= span_items(*b_parts).len(),
{
    let ghost a = span_texts(a_text@, span_items(*a_parts));
    let ghost b = span_texts(b_text@, span_items(*b_parts));
    let a_len = spans_len(a_parts);
    let b_len = spans_len(b_parts);
    let mut n: usize = 0;
    while n < a_len && n < b_len
        invariant
            n <= a_len,
            n <= b_len,
            a_len == span_items(*a_parts).len(),
            b_len == span_items(*b_parts).len(),
            spans_within(span_items(*a_parts), a_text@.len()),
            spans_within(span_items(*b_parts), b_text@.len()),
            a == span_texts(a_text@, span_items(*a_parts)),
            b == span_texts(b_text@, span_items(*b_parts)),
            forall|j: int| 0 <= j < n ==> a[j] == b[j],
        decreases a_len - n,
    {
        if !same_piece(a_text, spans_get(a_parts, n), b_text, spans_get(b_parts, n)) {
            proof {
                lemma_common_len(a, b, n as int);
            }
            return n;
        }
        n += 1;
    }
    proof {
        lemma_common_len(a, b, n as int);
    }
    n
}

/// The text of `climb` components `..` followed by the components of a
/// scanned text from position `skip` on.
fn render_way(climb: usize, text: &Vec<char>, parts: &SpanStack, skip: usize) -> (out: Vec<char>)
    requires
        spans_within(span_items(*parts), text@.len()),
        skip <= span_items(*parts).len(),
    ensures
        out@ == render(
            climbs(climb as nat) + span_texts(text@, span_items(*parts)).skip(skip as int),
        ),
{
    let ghost b = span_texts(text@, span_items(*parts));
    let ghost up: Seq<char> = seq!['.', '.'];
    let mut dots: Vec<char> = Vec::new();
    dots.push('.');
    dots.push('.');
    assert(dots@.subrange(0, 2) =~= up);
    let mut out: Vec<char> = Vec::new();
    let mut first = true;
    let ghost mut emitted: Seq<Seq<char>> = Seq::empty();
    assert(emitted =~= climbs(0));
    let mut k: usize = 0;
    while k < climb
        invariant
            k <= climb,
            dots@.len() == 2,
            dots@.subrange(0, 2) == up,
            up == seq!['.', '.'],
            emitted == climbs(k as nat),
            out@ == join(emitted),
            first == (emitted.len() == 0),
        decreases climb - k,
    {
        proof {
            lemma_join_push(emitted, up);
            assert(first ==> out@ =~= Seq::<char>::empty());
        }
        let ghost before = out@;
        append_piece(&mut out, first, &dots, 0, 2);
        proof {
            assert(first ==> out@ =~= up) by {
                if first {
                    assert(Seq::<char>::empty() + up =~= up);
                }
            }
            assert(climbs((k + 1) as nat) =~= emitted.push(up));
            emitted = emitted.push(up);
        }
        first = false;
        k += 1;
    }
    let len = spans_len(parts);
    let mut j: usize = skip;
    let ghost head = emitted;
    proof {
        assert(b.subrange(skip as int, skip as int) =~= Seq::<Seq<char>>::empty());
        assert(head + b.subrange(skip as int, skip as int) =~= head);
    }
    while j < len
        invariant
            skip <= j <= len,
            len == span_items(*parts).len(),
            spans_within(span_items(*parts), text@.len()),
            b == span_texts(text@, span_items(*parts)),
            emitted == head + b.subrange(skip as int, j as int),
            out@ == join(emitted),
            first == (emitted.len() == 0),
        decreases len - j,
    {
        let span = spans_get(parts, j);
        let ghost piece = b[j as int];
        proof {
            assert(piece == text@.subrange(span.0 as int, span.1 as int));
            lemma_join_push(emitted, piece);
            assert(first ==> out@ =~= Seq::<char>::empty());
        }
        append_piece(&mut out, first, text, span.0, span.1);
        proof {
            if first {
                assert(Seq::<char>::empty() + piece =~= piece);
            }
            assert(b.subrange(skip as int, j + 1) =~= b.subrange(skip as int, j as int).push(
                piece,
            ));
            assert(emitted.push(piece) =~= head + b.subrange(skip as int, j + 1));
            emitted = emitted.push(piece);
        }
        first = false;
        j += 1;
    }
    proof {
        assert(b.subrange(skip as int, len as int) =~= b.skip(skip as int));
    }
    if first {
        out.push('.');
        assert(out@ =~= seq!['.']);
    }
    out
}

impl NeutralPath {
    /// The value is a neutral path.
    pub open spec fn wf(&self) -> bool {
        is_neutral(self@)
    }

    /// Rejects an absolute text.
    fn check_if_absolute(text: &Vec<char>) -> (r: Result<(), PathError>)
        ensures
            r is Err <==> is_absolute(text@),
            r matches Err(e) ==> e == PathError::PathIsAbsolute(),
    {
        if absolute(text) {
            Err(PathError::PathIsAbsolute())
        } else {
            Ok(())
        }
    }

    /// Normalizes the text; where `check` is set, the first real
    /// component that breaks a rule rejects it.
    fn internal_normalize(text: &Vec<char>, check: bool) -> (r: Result<NeutralPath, PathError>)
        ensures
            r matches Ok(p) ==> p@ == normalized(text@),
            r is Ok && check ==> first_violation(split(text@, true)) is None,
            r matches Err(e) ==> check && first_violation(split(text@, true)) == Some(e),
            !check ==> r is Ok,
    {
        match scan(text, check) {
            Err(e) => Err(e),
            Ok(stack) => {
                let out = render_spans(text, &stack);
                let s = string_of(&out, 0, out.len());
                assert(out@.subrange(0, out@.len() as int) =~= out@);
                Ok(NeutralPath(s))
            },
        }
    }

    /// What `new` does once the text is at hand as characters.
    fn from_chars(text: &Vec<char>) -> (r: Result<NeutralPath, PathError>)
        ensures
            r matches Ok(p) ==> (parse(text@) matches Ok(t) && t == p@) && p.wf(),
            r matches Err(e) ==> (parse(text@) matches Err(x) && x == e),
    {
        if text.len() == 0 {
            return Err(PathError::EmptyPath);
        }
        match Self::check_if_absolute(text) {
            Err(e) => {
                return Err(e);
            },
            Ok(()) => {},
        }
        let r = Self::checked_normalize(text);
        proof {
            if r is Ok {
                lemma_parse_neutral(text@);
            }
        }
        r
    }

    /// Makes a path of a text. An empty text is rejected with
    /// `EmptyPath`, an absolute one with `PathIsAbsolute`, one with a
    /// component that breaks a rule with the error of the first such
    /// component; any other text gives the path of its normal form.
    pub fn new(s: &str) -> (r: Result<NeutralPath, PathError>)
        ensures
            r matches Ok(p) ==> (parse(s@) matches Ok(t) && t == p@) && p.wf(),
            r matches Err(e) ==> (parse(s@) matches Err(x) && x == e),
    {
        let text = chars_of(s);
        Self::from_chars(&text)
    }

    /// The path of no components, `.`.
    pub fn current_dir() -> (r: NeutralPath)
        ensures
            r@ == seq!['.'],
            r.wf(),
    {
        let mut s = String::new();
        s.push('.');
        proof {
            assert(s@ =~= seq!['.']);
            lemma_render_neutral(Seq::empty());
        }
        NeutralPath(s)
    }

    /// The text of the path.
    pub fn as_str(&self) -> (s: &str)
        ensures
            s@ == self@,
    {
        self.0.as_str()
    }

    /// The text of the path, as a string of its own.
    pub fn to_string(&self) -> (s: String)
        ensures
            s@ == self@,
    {
        self.0.clone()
    }

    /// The text of the path, taken out of it.
    pub fn into_string(self) -> (s: String)
        ensures
            s@ == self@,
    {
        self.0
    }

    /// Normalizes the text and checks its components.
    fn checked_normalize(text: &Vec<char>) -> (r: Result<NeutralPath, PathError>)
        ensures
            r matches Ok(p) ==> p@ == normalized(text@),
            r is Ok <==> first_violation(split(text@, true)) is None,
            r matches Err(e) ==> first_violation(split(text@, true)) == Some(e),
    {
        Self::internal_normalize(text, true)
    }

    /// Normalizes the text of a path without checking its components
    /// again.
    fn unchecked_normalize(path: &NeutralPath) -> (r: NeutralPath)
        ensures
            r@ == normalized(path@),
    {
        let text = chars_of(path.0.as_str());
        match Self::internal_normalize(&text, false) {
            Ok(p) => p,
            Err(_) => vstd::pervasive::unreached(),
        }
    }

    /// The path in normal form: the path itself.
    pub fn normalize(&self) -> (r: NeutralPath)
        requires
            self.wf(),
        ensures
            r@ == normalized(self@),
            r@ == self@,
            r.wf(),
    {
        Self::unchecked_normalize(self)
    }

    /// The path that `part` leads to from this one: both texts with a
    /// `/` between them, made a path as `new` does. An absolute `part`
    /// is rejected with `PathIsAbsolute`.
    pub fn join(&self, part: &str) -> (r: Result<NeutralPath, PathError>)
        ensures
            r matches Ok(p) ==> (parse_joined(self@, part@) matches Ok(t) && t == p@) && p.wf(),
            r matches Err(e) ==> (parse_joined(self@, part@) matches Err(x) && x == e),
    {
        let piece = chars_of(part);
        match Self::check_if_absolute(&piece) {
            Err(e) => {
                return Err(e);
            },
            Ok(()) => {},
        }
        let mut all = chars_of(self.0.as_str());
        append_piece(&mut all, false, &piece, 0, piece.len());
        assert(piece@.subrange(0, piece@.len() as int) =~= piece@);
        Self::from_chars(&all)
    }

    /// The path that the parts lead to, one after the other, from this
    /// one. An absolute part is rejected with `PathIsAbsolute`.
    pub fn join_all(&self, parts: &[&str]) -> (r: Result<NeutralPath, PathError>)
        ensures
            r matches Ok(p) ==> (parse_joined_all(self@, texts_of(parts@)) matches Ok(t) && t
                == p@) && p.wf(),
            r matches Err(e) ==> (parse_joined_all(self@, texts_of(parts@)) matches Err(x) && x
                == e),
    {
        let ghost texts = texts_of(parts@);
        let mut all = chars_of(self.0.as_str());
        let n = parts.len();
        let mut i: usize = 0;
        while i < n
            invariant
                i <= n,
                n == parts@.len(),
                texts == texts_of(parts@),
                forall|j: int| 0 <= j < i ==> !is_absolute(#[trigger] texts[j]),
                all@ == with_parts(self@, texts.take(i as int)),
            decreases n - i,
        {
            let piece = chars_of(parts[i]);
            assert(piece@ == texts[i as int]);
            match Self::check_if_absolute(&piece) {
                Err(e) => {
                    return Err(e);
                },
                Ok(()) => {},
            }
            append_piece(&mut all, false, &piece, 0, piece.len());
            proof {
                assert(piece@.subrange(0, piece@.len() as int) =~= piece@);
                assert(texts.take(i + 1).drop_last() =~= texts.take(i as int));
            }
            i += 1;
        }
        assert(texts.take(n as int) =~= texts);
        Self::from_chars(&all)
    }

    /// The directory that holds this path: `..` joined onto it.
    pub fn parent(&self) -> (r: NeutralPath)
        requires
            self.wf(),
        ensures
            r@ == normalized(with_part(self@, seq!['.', '.'])),
            r.wf(),
    {
        let mut all = chars_of(self.0.as_str());
        all.push('/');
        all.push('.');
        all.push('.');
        proof {
            assert(all@ =~= with_part(self@, seq!['.', '.']));
            lemma_parent_neutral(self@);
        }
        match Self::from_chars(&all) {
            Ok(p) => p,
            Err(_) => vstd::pervasive::unreached(),
        }
    }

    /// The last component as a file name; none where the path ends in
    /// `.` or `..`.
    pub fn filename(&self) -> (r: Option<&str>)
        ensures
            r matches Some(name) ==> file_name(self@) == Some(name@),
            r is None ==> file_name(self@) is None,
    {
        let text = chars_of(self.0.as_str());
        let n = text.len();
        let start = last_piece_start(&text);
        if dots_only(&text, start, n) {
            None
        } else {
            Some(self.0.as_str().substring_char(start, n))
        }
    }

    /// What follows the last `.` of the file name; none where there is
    /// no file name or no `.` in it.
    pub fn extname(&self) -> (r: Option<&str>)
        ensures
            r matches Some(ext) ==> extension(self@) == Some(ext@),
            r is None ==> extension(self@) is None,
    {
        let text = chars_of(self.0.as_str());
        let n = text.len();
        let start = last_piece_start(&text);
        if dots_only(&text, start, n) {
            return None;
        }
        let mut found: Option<usize> = None;
        let mut i: usize = start;
        assert(text@.subrange(start as int, start as int) =~= Seq::<char>::empty());
        while i < n
            invariant
                n == text.len(),
                start <= i <= n,
                found is None ==> after_last(text@.subrange(start as int, i as int), '.') is None,
                found matches Some(k) ==> start <= k <= i && after_last(
                    text@.subrange(start as int, i as int),
                    '.',
                ) == Some(text@.subrange(k as int, i as int)),
            decreases n - i,
        {
            let c = text[i];
            proof {
                let before = text@.subrange(start as int, i as int);
                let after = text@.subrange(start as int, i + 1);
                assert(after =~= before.push(c));
                assert(after.drop_last() =~= before);
                match found {
                    Some(k) => {
                        assert(text@.subrange(k as int, i + 1) =~= text@.subrange(
                            k as int,
                            i as int,
                        ).push(c));
                    },
                    None => {},
                }
            }
            if c == '.' {
                found = Some(i + 1);
                assert(text@.subrange(i + 1, i + 1) =~= Seq::<char>::empty());
            }
            i += 1;
        }
        match found {
            Some(k) => Some(self.0.as_str().substring_char(k, n)),
            None => None,
        }
    }

    /// The way from this path to `to`: one `..` for each component of
    /// this path past what both have in common, then what is left of
    /// `to`; `.` where both are the same.
    pub fn get_relative_path_to(&self, to: &NeutralPath) -> (r: Option<NeutralPath>)
        requires
            self.wf(),
            to.wf(),
        ensures
            r matches Some(p) && p@ == relative_text(self@, to@) && p.wf(),
    {
        let from_text = chars_of(self.0.as_str());
        let to_text = chars_of(to.0.as_str());
        let from_parts = match scan(&from_text, false) {
            Ok(stack) => stack,
            Err(_) => vstd::pervasive::unreached(),
        };
        let to_parts = match scan(&to_text, false) {
            Ok(stack) => stack,
            Err(_) => vstd::pervasive::unreached(),
        };
        let common = shared_prefix(&from_text, &from_parts, &to_text, &to_parts);
        let out = render_way(spans_len(&from_parts) - common, &to_text, &to_parts, common);
        proof {
            lemma_relative_neutral(self@, to@);
        }
        let s = string_of(&out, 0, out.len());
        assert(out@.subrange(0, out@.len() as int) =~= out@);
        Some(NeutralPath(s))
    }

    /// Whether this path lies in `dir`: the way from `dir` to it does
    /// not start with `..`.
    pub fn is_in_dir(&self, dir: &NeutralPath) -> (r: bool)
        requires
            self.wf(),
            dir.wf(),
        ensures
            r == lies_in(self@, dir@),
    {
        match dir.get_relative_path_to(self) {
            Some(way) => {
                let text = chars_of(way.0.as_str());
                !(text.len() >= 2 && text[0] == '.' && text[1] == '.')
            },
            None => false,
        }
    }
}

} // verus!
