//! Finding a file by name in a list of directories, with optional
//! prefixes and suffixes of the name.

use crate::text::{chars_of, string_of, texts};
use vstd::prelude::*;
use vstd::string::StringExecFns;

verus! {

/// Where to look for files, and under which variants of their names.
pub struct FileFinder {
    /// The directories to search, in order.
    pub paths: Vec<String>,
    /// What may stand before the name.
    pub prefixes: Vec<String>,
    /// What may stand after the name.
    pub suffixes: Vec<String>,
}

/// A place where the file may be: a directory and a file name in it.
#[derive(Debug)]
pub struct Candidate {
    pub directory: String,
    pub file_name: String,
}

impl View for Candidate {
    type V = (Seq<char>, Seq<char>);

    open spec fn view(&self) -> (Seq<char>, Seq<char>) {
        (self.directory@, self.file_name@)
    }
}

/// The views of a list of candidates.
pub open spec fn places(list: Seq<Candidate>) -> Seq<(Seq<char>, Seq<char>)> {
    Seq::new(list.len(), |i: int| list[i]@)
}

/// The list with the empty text before it: the name as it is comes
/// first.
pub open spec fn with_blank(list: Seq<Seq<char>>) -> Seq<Seq<char>> {
    seq![Seq::empty()] + list
}

/// The names under one prefix: the target with each suffix in turn.
pub open spec fn names_under(prefix: Seq<char>, suffixes: Seq<Seq<char>>, target: Seq<char>) -> Seq<
    Seq<char>,
> {
    Seq::new(suffixes.len(), |i: int| prefix + target + suffixes[i])
}

/// The names under each prefix in turn.
pub open spec fn names(prefixes: Seq<Seq<char>>, suffixes: Seq<Seq<char>>, target: Seq<char>) -> Seq<
    Seq<char>,
>
    decreases prefixes.len(),
{
    if prefixes.len() == 0 {
        Seq::empty()
    } else {
        names(prefixes.drop_last(), suffixes, target) + names_under(
            prefixes.last(),
            suffixes,
            target,
        )
    }
}

/// The names in one directory.
pub open spec fn places_in(directory: Seq<char>, list: Seq<Seq<char>>) -> Seq<
    (Seq<char>, Seq<char>),
> {
    Seq::new(list.len(), |i: int| (directory, list[i]))
}

/// The names in each directory in turn.
pub open spec fn places_in_all(directories: Seq<Seq<char>>, list: Seq<Seq<char>>) -> Seq<
    (Seq<char>, Seq<char>),
>
    decreases directories.len(),
{
    if directories.len() == 0 {
        Seq::empty()
    } else {
        places_in_all(directories.drop_last(), list) + places_in(directories.last(), list)
    }
}

/// Every place where the target may be, in the order of the search:
/// directory by directory, in each the prefixes in turn, the bare name
/// first, and under each prefix the suffixes in turn, the bare name
/// first.
pub open spec fn all_places(
    paths: Seq<Seq<char>>,
    prefixes: Seq<Seq<char>>,
    suffixes: Seq<Seq<char>>,
    target: Seq<char>,
) -> Seq<(Seq<char>, Seq<char>)> {
    places_in_all(paths, names(with_blank(prefixes), with_blank(suffixes), target))
}

/// The places that are marked, in order.
pub open spec fn marked(list: Seq<(Seq<char>, Seq<char>)>, marks: Seq<bool>) -> Seq<
    (Seq<char>, Seq<char>),
>
    decreases list.len(),
{
    if list.len() == 0 {
        Seq::empty()
    } else if marks[list.len() - 1] {
        marked(list.drop_last(), marks).push(list.last())
    } else {
        marked(list.drop_last(), marks)
    }
}

/// A copy of the list with the empty string before it.
fn blank_then(list: &Vec<String>) -> (r: Vec<String>)
    ensures
        texts(r@) == with_blank(texts(list@)),
{
    let mut r: Vec<String> = Vec::new();
    r.push(String::new());
    let n = list.len();
    let mut i: usize = 0;
    while i < n
        invariant
            i <= n,
            n == list.len(),
            r@.len() == i + 1,
            r@[0]@ == Seq::<char>::empty(),
            forall|j: int| 0 <= j < i ==> r@[j + 1]@ == list@[j]@,
        decreases n - i,
    {
        r.push(list[i].clone());
        i += 1;
    }
    assert(texts(r@) =~= with_blank(texts(list@)));
    r
}

/// The names of the target under every prefix and suffix.
fn all_names(prefixes: &Vec<String>, suffixes: &Vec<String>, target: &str) -> (r: Vec<String>)
    ensures
        texts(r@) == names(texts(prefixes@), texts(suffixes@), target@),
{
    let ghost pre = texts(prefixes@);
    let ghost suf = texts(suffixes@);
    let mut out: Vec<String> = Vec::new();
    let mut i: usize = 0;
    assert(texts(out@) =~= names(pre.take(0), suf, target@));
    while i < prefixes.len()
        invariant
            i <= prefixes.len(),
            pre == texts(prefixes@),
            suf == texts(suffixes@),
            texts(out@) == names(pre.take(i as int), suf, target@),
        decreases prefixes.len() - i,
    {
        let ghost base = texts(out@);
        let mut j: usize = 0;
        assert(texts(out@) =~= base + names_under(pre[i as int], suf.take(0), target@));
        while j < suffixes.len()
            invariant
                i < prefixes.len(),
                j <= suffixes.len(),
                pre == texts(prefixes@),
                suf == texts(suffixes@),
                texts(out@) == base + names_under(pre[i as int], suf.take(j as int), target@),
            decreases suffixes.len() - j,
        {
            let name = String::from_str(prefixes[i].as_str()).concat(target).concat(
                suffixes[j].as_str(),
            );
            let ghost before = texts(out@);
            out.push(name);
            proof {
                assert(texts(out@) =~= before.push(pre[i as int] + target@ + suf[j as int]));
                assert(names_under(pre[i as int], suf.take(j + 1), target@) =~= names_under(
                    pre[i as int],
                    suf.take(j as int),
                    target@,
                ).push(pre[i as int] + target@ + suf[j as int]));
            }
            j += 1;
        }
        proof {
            assert(suf.take(suffixes.len() as int) =~= suf);
            assert(pre.take(i + 1).drop_last() =~= pre.take(i as int));
        }
        i += 1;
    }
    assert(pre.take(prefixes.len() as int) =~= pre);
    out
}

/// The lower-case form of an ASCII capital; any other character as it
/// is.
pub open spec fn lower(c: char) -> char {
    if 65 <= c as u32 <= 90 {
        ((c as u32 + 32) as u8) as char
    } else {
        c
    }
}

/// The text with its ASCII capitals in lower case.
pub open spec fn lowered(s: Seq<char>) -> Seq<char> {
    Seq::new(s.len(), |i: int| lower(s[i]))
}

/// The pieces of a text between `;`, in order; some may be empty.
pub open spec fn listed(s: Seq<char>) -> Seq<Seq<char>>
    decreases s.len(),
{
    if s.len() == 0 {
        seq![Seq::empty()]
    } else {
        let before = listed(s.drop_last());
        if s.last() == ';' {
            before.push(Seq::empty())
        } else {
            before.drop_last().push(before.last().push(s.last()))
        }
    }
}

/// Each part, followed by its lower-case form where that differs.
pub open spec fn in_both_cases(parts: Seq<Seq<char>>) -> Seq<Seq<char>>
    decreases parts.len(),
{
    if parts.len() == 0 {
        Seq::empty()
    } else if lowered(parts.last()) == parts.last() {
        in_both_cases(parts.drop_last()).push(parts.last())
    } else {
        in_both_cases(parts.drop_last()).push(parts.last()).push(lowered(parts.last()))
    }
}

/// The suffixes that a list of extensions stands for: the entries
/// between `;`, each followed by its lower-case form where it has
/// capitals, for file systems that tell the cases apart.
pub open spec fn extensions_of(pathext: Seq<char>) -> Seq<Seq<char>> {
    in_both_cases(listed(pathext))
}

fn lower_char(c: char) -> (r: char)
    ensures
        r == lower(c),
{
    let n: u32 = c as u32;
    if 65 <= n && n <= 90 {
        ((n + 32) as u8) as char
    } else {
        c
    }
}

/// Appends the entry `from..to` of the text to the list, and its
/// lower-case form after it where that differs.
fn push_both_cases(out: &mut Vec<String>, text: &Vec<char>, from: usize, to: usize)
    requires
        from <= to <= text.len(),
    ensures
        lowered(text@.subrange(from as int, to as int)) == text@.subrange(from as int, to as int)
            ==> texts(final(out)@) == texts(old(out)@).push(
            text@.subrange(from as int, to as int),
        ),
        lowered(text@.subrange(from as int, to as int)) != text@.subrange(from as int, to as int)
            ==> texts(final(out)@) == texts(old(out)@).push(
            text@.subrange(from as int, to as int),
        ).push(lowered(text@.subrange(from as int, to as int))),
{
    let ghost piece = text@.subrange(from as int, to as int);
    let ghost before = texts(out@);
    let mut small: Vec<char> = Vec::new();
    let mut same = true;
    let mut i: usize = from;
    proof {
        assert(piece.take(0) =~= Seq::<char>::empty());
        assert(lowered(piece.take(0)) =~= piece.take(0));
    }
    while i < to
        invariant
            from <= i <= to <= text.len(),
            piece == text@.subrange(from as int, to as int),
            small@ == lowered(piece.take(i - from)),
            same == (lowered(piece.take(i - from)) == piece.take(i - from)),
        decreases to - i,
    {
        let c = text[i];
        let l = lower_char(c);
        proof {
            let head = piece.take(i - from);
            let next = piece.take(i + 1 - from);
            assert(next =~= head.push(c));
            assert(lowered(next) =~= lowered(head).push(l));
            if l == c {
                if lowered(head) == head {
                } else {
                    assert(lowered(next).drop_last() =~= lowered(head));
                    assert(next.drop_last() =~= head);
                }
            } else {
                assert(lowered(next).last() != next.last());
            }
        }
        if l != c {
            same = false;
        }
        small.push(l);
        i += 1;
    }
    assert(piece.take(to - from) =~= piece);
    out.push(string_of(text, from, to));
    assert(texts(out@) =~= before.push(piece));
    if !same {
        let len = small.len();
        let lower_text = string_of(&small, 0, len);
        assert(small@.subrange(0, len as int) =~= small@);
        out.push(lower_text);
        assert(texts(out@) =~= before.push(piece).push(lowered(piece)));
    }
}

/// The suffixes that a list of extensions stands for.
pub fn path_extensions(pathext: &str) -> (r: Vec<String>)
    ensures
        texts(r@) == extensions_of(pathext@),
{
    let text = chars_of(pathext);
    let n = text.len();
    let mut out: Vec<String> = Vec::new();
    let mut start: usize = 0;
    let mut i: usize = 0;
    let ghost mut done: Seq<Seq<char>> = Seq::empty();
    proof {
        assert(text@.take(0) =~= Seq::<char>::empty());
        assert(done.push(text@.subrange(0, 0)) =~= seq![Seq::<char>::empty()]);
        assert(texts(out@) =~= in_both_cases(done));
    }
    while i < n
        invariant
            n == text.len(),
            start <= i <= n,
            listed(text@.take(i as int)) == done.push(text@.subrange(start as int, i as int)),
            texts(out@) == in_both_cases(done),
        decreases n - i,
    {
        let c = text[i];
        let ghost piece = text@.subrange(start as int, i as int);
        proof {
            assert(text@.take(i + 1) =~= text@.take(i as int).push(c));
            assert(text@.take(i as int).push(c).drop_last() =~= text@.take(i as int));
            assert(done.push(piece).drop_last() =~= done);
        }
        if c == ';' {
            push_both_cases(&mut out, &text, start, i);
            proof {
                done = done.push(piece);
            }
            start = i + 1;
            assert(text@.subrange(start as int, i + 1) =~= Seq::<char>::empty());
        } else {
            assert(text@.subrange(start as int, i + 1) =~= piece.push(c));
        }
        i += 1;
    }
    let ghost piece = text@.subrange(start as int, n as int);
    proof {
        assert(text@.take(n as int) =~= text@);
        assert(done.push(piece).drop_last() =~= done);
    }
    push_both_cases(&mut out, &text, start, n);
    out
}

impl FileFinder {
    /// A finder that looks nowhere.
    pub fn new() -> (r: FileFinder)
        ensures
            r.paths@.len() == 0,
            r.prefixes@.len() == 0,
            r.suffixes@.len() == 0,
    {
        FileFinder { paths: Vec::new(), prefixes: Vec::new(), suffixes: Vec::new() }
    }

    /// Every place where the target may be, for this finder.
    pub open spec fn places_of(&self, target: Seq<char>) -> Seq<(Seq<char>, Seq<char>)> {
        all_places(texts(self.paths@), texts(self.prefixes@), texts(self.suffixes@), target)
    }

    /// Every place where the target may be, in the order of the search.
    pub fn candidates(&self, target: &str) -> (r: Vec<Candidate>)
        ensures
            places(r@) == self.places_of(target@),
    {
        let prefixes = blank_then(&self.prefixes);
        let suffixes = blank_then(&self.suffixes);
        let list = all_names(&prefixes, &suffixes, target);
        let ghost dirs = texts(self.paths@);
        let ghost wanted = texts(list@);
        let mut out: Vec<Candidate> = Vec::new();
        let mut i: usize = 0;
        assert(places(out@) =~= places_in_all(dirs.take(0), wanted));
        while i < self.paths.len()
            invariant
                i <= self.paths.len(),
                dirs == texts(self.paths@),
                wanted == texts(list@),
                places(out@) == places_in_all(dirs.take(i as int), wanted),
            decreases self.paths.len() - i,
        {
            let ghost base = places(out@);
            let mut j: usize = 0;
            assert(places(out@) =~= base + places_in(dirs[i as int], wanted.take(0)));
            while j < list.len()
                invariant
                    i < self.paths.len(),
                    j <= list.len(),
                    dirs == texts(self.paths@),
                    wanted == texts(list@),
                    places(out@) == base + places_in(dirs[i as int], wanted.take(j as int)),
                decreases list.len() - j,
            {
                let ghost before = places(out@);
                out.push(
                    Candidate { directory: self.paths[i].clone(), file_name: list[j].clone() },
                );
                proof {
                    assert(places(out@) =~= before.push((dirs[i as int], wanted[j as int])));
                    assert(places_in(dirs[i as int], wanted.take(j + 1)) =~= places_in(
                        dirs[i as int],
                        wanted.take(j as int),
                    ).push((dirs[i as int], wanted[j as int])));
                }
                j += 1;
            }
            proof {
                assert(wanted.take(list.len() as int) =~= wanted);
                assert(dirs.take(i + 1).drop_last() =~= dirs.take(i as int));
            }
            i += 1;
        }
        assert(dirs.take(self.paths.len() as int) =~= dirs);
        out
    }

    /// The places where the target was found, in the order of the
    /// search, given for each candidate whether a file is there.
    pub fn search(&self, target: &str, found: &Vec<bool>) -> (r: Vec<Candidate>)
        requires
            found@.len() == self.places_of(target@).len(),
        ensures
            places(r@) == marked(self.places_of(target@), found@),
    {
        let list = self.candidates(target);
        let ghost all = places(list@);
        let mut out: Vec<Candidate> = Vec::new();
        let n = list.len();
        let mut i: usize = 0;
        assert(places(out@) =~= marked(all.take(0), found@));
        while i < n
            invariant
                i <= n,
                n == list@.len(),
                n == found@.len(),
                all == places(list@),
                places(out@) == marked(all.take(i as int), found@),
            decreases n - i,
        {
            proof {
                assert(all.take(i + 1).drop_last() =~= all.take(i as int));
            }
            if found[i] {
                let ghost before = places(out@);
                out.push(
                    Candidate {
                        directory: list[i].directory.clone(),
                        file_name: list[i].file_name.clone(),
                    },
                );
                assert(places(out@) =~= before.push(all[i as int]));
            }
            i += 1;
        }
        assert(all.take(n as int) =~= all);
        out
    }

    /// The first place where the target was found, if it was found.
    pub fn search_first(&self, target: &str, found: &Vec<bool>) -> (r: Option<Candidate>)
        requires
            found@.len() == self.places_of(target@).len(),
        ensures
            marked(self.places_of(target@), found@).len() == 0 ==> r is None,
            marked(self.places_of(target@), found@).len() > 0 ==> (r matches Some(place)
                && place@ == marked(self.places_of(target@), found@)[0]),
    {
        let list = self.search(target, found);
        if list.len() == 0 {
            None
        } else {
            assert(places(list@)[0] == list@[0]@);
            Some(
                Candidate {
                    directory: list[0].directory.clone(),
                    file_name: list[0].file_name.clone(),
                },
            )
        }
    }
}

impl Default for FileFinder {
    /// A finder that looks nowhere.
    fn default() -> (r: FileFinder)
        ensures
            r.paths@.len() == 0,
            r.prefixes@.len() == 0,
            r.suffixes@.len() == 0,
    {
        FileFinder::new()
    }
}

} // verus!
