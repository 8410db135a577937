//! Finding the version number in what a tool prints about itself.

use crate::text::{chars_of, string_of, texts};
use vstd::prelude::*;

verus! {

/// A version number: its three numbers, its pre-release tag and its
/// build tag, each tag empty where there is none.
#[derive(Debug)]
pub struct ToolVersion {
    pub major: u64,
    pub minor: u64,
    pub patch: u64,
    pub pre: String,
    pub build: String,
}

impl View for ToolVersion {
    type V = (u64, u64, u64, Seq<char>, Seq<char>);

    open spec fn view(&self) -> (u64, u64, u64, Seq<char>, Seq<char>) {
        (self.major, self.minor, self.patch, self.pre@, self.build@)
    }
}

/// The version that `semver::Version::parse` reads in a word, if it
/// reads one: the word must follow the rules of semantic versioning to
/// the letter.
pub uninterp spec fn strict_version(word: Seq<char>) -> Option<(u64, u64, u64, Seq<char>, Seq<char>)>;

/// The version that `lenient_semver::parse` reads in a word, if it reads
/// one: it accepts more than the rules allow, such as a missing patch
/// number or a leading `v`.
pub uninterp spec fn lenient_version(word: Seq<char>) -> Option<
    (u64, u64, u64, Seq<char>, Seq<char>),
>;

/// `semver::Version::parse`: the version that the word holds, or nothing
/// where the parser reports an error.
#[verifier::external_body]
fn parse_strict(word: &str) -> (r: Option<ToolVersion>)
    ensures
        r is Some <==> strict_version(word@) is Some,
        r matches Some(v) ==> strict_version(word@) == Some(v@),
{
    match semver::Version::parse(word) {
        Ok(v) => Some(
            ToolVersion {
                major: v.major,
                minor: v.minor,
                patch: v.patch,
                pre: v.pre.as_str().to_owned(),
                build: v.build.as_str().to_owned(),
            },
        ),
        Err(_) => None,
    }
}

/// `lenient_semver::parse`: the version that the word holds, or nothing
/// where the parser reports an error.
#[verifier::external_body]
fn parse_lenient(word: &str) -> (r: Option<ToolVersion>)
    ensures
        r is Some <==> lenient_version(word@) is Some,
        r matches Some(v) ==> lenient_version(word@) == Some(v@),
{
    match lenient_semver::parse(word) {
        Ok(v) => Some(
            ToolVersion {
                major: v.major,
                minor: v.minor,
                patch: v.patch,
                pre: v.pre.as_str().to_owned(),
                build: v.build.as_str().to_owned(),
            },
        ),
        Err(_) => None,
    }
}

/// White space, as Unicode defines it.
pub open spec fn is_space(c: char) -> bool {
    let n = c as u32;
    (0x09 <= n <= 0x0d) || n == 0x20 || n == 0x85 || n == 0xa0 || n == 0x1680 || (0x2000 <= n
        <= 0x200a) || n == 0x2028 || n == 0x2029 || n == 0x202f || n == 0x205f || n == 0x3000
}

/// The pieces of a text between white space characters, in order; some
/// may be empty.
pub open spec fn pieces(s: Seq<char>) -> Seq<Seq<char>>
    decreases s.len(),
{
    if s.len() == 0 {
        seq![Seq::empty()]
    } else {
        let before = pieces(s.drop_last());
        if is_space(s.last()) {
            before.push(Seq::empty())
        } else {
            before.drop_last().push(before.last().push(s.last()))
        }
    }
}

/// The parts that are not empty, in order.
pub open spec fn filled(parts: Seq<Seq<char>>) -> Seq<Seq<char>>
    decreases parts.len(),
{
    if parts.len() == 0 {
        Seq::empty()
    } else if parts.last().len() > 0 {
        filled(parts.drop_last()).push(parts.last())
    } else {
        filled(parts.drop_last())
    }
}

/// The words of a text: what stands between white space.
pub open spec fn words(s: Seq<char>) -> Seq<Seq<char>> {
    filled(pieces(s))
}

/// The first reading where there is one, else the second.
pub open spec fn preferred(
    strict: Option<(u64, u64, u64, Seq<char>, Seq<char>)>,
    lenient: Option<(u64, u64, u64, Seq<char>, Seq<char>)>,
) -> Option<(u64, u64, u64, Seq<char>, Seq<char>)> {
    match strict {
        Some(v) => Some(v),
        None => lenient,
    }
}

/// The version that a word holds: what the strict parser reads, or
/// else what the lenient one reads.
pub open spec fn version_in(word: Seq<char>) -> Option<(u64, u64, u64, Seq<char>, Seq<char>)> {
    preferred(strict_version(word), lenient_version(word))
}

/// The version of the first word that holds one.
pub open spec fn first_version(list: Seq<Seq<char>>) -> Option<(u64, u64, u64, Seq<char>, Seq<char>)>
    decreases list.len(),
{
    if list.len() == 0 {
        None
    } else {
        match version_in(list[0]) {
            Some(v) => Some(v),
            None => first_version(list.drop_first()),
        }
    }
}

/// What the two parsers read in one word.
#[derive(Debug)]
pub struct Reading {
    /// What the strict parser read.
    pub strict: Option<ToolVersion>,
    /// What the lenient parser read.
    pub lenient: Option<ToolVersion>,
}

/// The view of a version that may be missing.
pub open spec fn version_view(v: Option<ToolVersion>) -> Option<
    (u64, u64, u64, Seq<char>, Seq<char>),
> {
    match v {
        Some(version) => Some(version@),
        None => None,
    }
}

/// The version that a reading gives: the strict one where there is one,
/// else the lenient one.
pub open spec fn reading_of(reading: Reading) -> Option<(u64, u64, u64, Seq<char>, Seq<char>)> {
    preferred(version_view(reading.strict), version_view(reading.lenient))
}

/// The version of the first reading that gives one.
pub open spec fn first_read(list: Seq<Reading>) -> Option<(u64, u64, u64, Seq<char>, Seq<char>)>
    decreases list.len(),
{
    if list.len() == 0 {
        None
    } else {
        match reading_of(list[0]) {
            Some(v) => Some(v),
            None => first_read(list.drop_first()),
        }
    }
}

/// Readings of the first words of a list, taken up to the first word
/// that holds a version or to the end, give the version of the list.
pub proof fn lemma_first_read(readings: Seq<Reading>, list: Seq<Seq<char>>)
    requires
        readings.len() <= list.len(),
        forall|j: int|
            0 <= j < readings.len() ==> reading_of(#[trigger] readings[j]) == version_in(list[j]),
        readings.len() == list.len() || (readings.len() > 0 && reading_of(readings.last())
            is Some),
    ensures
        first_read(readings) == first_version(list),
    decreases readings.len(),
{
    if readings.len() > 0 {
        assert(reading_of(readings[0]) == version_in(list[0]));
        if reading_of(readings[0]) is None {
            let rest = readings.drop_first();
            let tail = list.drop_first();
            assert forall|j: int| 0 <= j < rest.len() implies reading_of(#[trigger] rest[j])
                == version_in(tail[j]) by {
                assert(rest[j] == readings[j + 1]);
            }
            if readings.len() != list.len() {
                assert(rest.last() == readings.last());
            }
            lemma_first_read(rest, tail);
        }
    }
}

fn is_space_char(c: char) -> (r: bool)
    ensures
        r == is_space(c),
{
    let n: u32 = c as u32;
    (0x09 <= n && n <= 0x0d) || n == 0x20 || n == 0x85 || n == 0xa0 || n == 0x1680 || (0x2000 <= n
        && n <= 0x200a) || n == 0x2028 || n == 0x2029 || n == 0x202f || n == 0x205f || n == 0x3000
}

/// The words of a text: what stands between white space.
pub fn split_words(text: &str) -> (r: Vec<String>)
    ensures
        texts(r@) == words(text@),
{
    let all = chars_of(text);
    let n = all.len();
    let mut out: Vec<String> = Vec::new();
    let mut start: usize = 0;
    let mut i: usize = 0;
    let ghost mut done: Seq<Seq<char>> = Seq::empty();
    proof {
        assert(all@.take(0) =~= Seq::<char>::empty());
        assert(done.push(all@.subrange(0, 0)) =~= seq![Seq::<char>::empty()]);
        assert(texts(out@) =~= filled(done));
    }
    while i < n
        invariant
            n == all.len(),
            start <= i <= n,
            pieces(all@.take(i as int)) == done.push(all@.subrange(start as int, i as int)),
            texts(out@) == filled(done),
        decreases n - i,
    {
        let c = all[i];
        let ghost piece = all@.subrange(start as int, i as int);
        proof {
            assert(all@.take(i + 1) =~= all@.take(i as int).push(c));
            assert(all@.take(i as int).push(c).drop_last() =~= all@.take(i as int));
            assert(done.push(piece).drop_last() =~= done);
        }
        if is_space_char(c) {
            if i > start {
                let word = string_of(&all, start, i);
                let ghost before = out@;
                out.push(word);
                assert(texts(out@) =~= texts(before).push(piece));
            }
            proof {
                done = done.push(piece);
            }
            start = i + 1;
            assert(all@.subrange(start as int, i + 1) =~= Seq::<char>::empty());
        } else {
            assert(all@.subrange(start as int, i + 1) =~= piece.push(c));
        }
        i += 1;
    }
    let ghost piece = all@.subrange(start as int, n as int);
    proof {
        assert(all@.take(n as int) =~= all@);
        assert(done.push(piece).drop_last() =~= done);
    }
    if n > start {
        let word = string_of(&all, start, n);
        let ghost before = out@;
        out.push(word);
        assert(texts(out@) =~= texts(before).push(piece));
    }
    out
}

impl Clone for ToolVersion {
    fn clone(&self) -> (r: ToolVersion)
        ensures
            r@ == self@,
    {
        ToolVersion {
            major: self.major,
            minor: self.minor,
            patch: self.patch,
            pre: self.pre.clone(),
            build: self.build.clone(),
        }
    }
}

/// The version that a list of readings gives: that of the first reading
/// with a version, and in a reading the strict version before the
/// lenient one.
pub fn choose_version(readings: &Vec<Reading>) -> (r: Option<ToolVersion>)
    ensures
        version_view(r) == first_read(readings@),
{
    let n = readings.len();
    let mut i: usize = 0;
    assert(readings@.skip(0) =~= readings@);
    while i < n
        invariant
            i <= n,
            n == readings.len(),
            first_read(readings@) == first_read(readings@.skip(i as int)),
        decreases n - i,
    {
        let ghost rest = readings@.skip(i as int);
        assert(rest[0] == readings@[i as int]);
        assert(rest.drop_first() =~= readings@.skip(i + 1));
        match &readings[i].strict {
            Some(v) => {
                return Some(v.clone());
            },
            None => {},
        }
        match &readings[i].lenient {
            Some(v) => {
                return Some(v.clone());
            },
            None => {},
        }
        i += 1;
    }
    None
}

/// What the parsers read in a word; the lenient parser is asked only
/// where the strict one reads nothing.
fn read_word(word: &str) -> (r: Reading)
    ensures
        reading_of(r) == version_in(word@),
{
    let strict = parse_strict(word);
    let lenient = if strict.is_none() {
        parse_lenient(word)
    } else {
        None
    };
    Reading { strict, lenient }
}

/// The version number in a text: that of the first word that holds one.
pub fn extract_from_string(text: &str) -> (r: Option<ToolVersion>)
    ensures
        version_view(r) == first_version(words(text@)),
{
    let list = split_words(text);
    let n = list.len();
    let mut readings: Vec<Reading> = Vec::new();
    let mut i: usize = 0;
    let mut found = false;
    while i < n && !found
        invariant
            i <= n,
            n == list.len(),
            readings@.len() == i,
            texts(list@) == words(text@),
            forall|j: int|
                0 <= j < i ==> reading_of(#[trigger] readings@[j]) == version_in(texts(list@)[j]),
            found ==> i > 0 && reading_of(readings@[i - 1]) is Some,
        decreases n - i,
    {
        let reading = read_word(list[i].as_str());
        found = reading.strict.is_some() || reading.lenient.is_some();
        readings.push(reading);
        i += 1;
    }
    proof {
        lemma_first_read(readings@, texts(list@));
    }
    choose_version(&readings)
}

} // verus!
