//! Facts about splitting, resolving and joining that the functions on
//! paths rest on.

use super::model::{
    common_len, component_violation, components, first_violation, is_absolute, is_dot,
    is_dot_dot, is_neutral, is_real, is_separator, join, normalized, parse, parse_joined,
    push_component, relative_parts, relative_text, render, resolve, resolve_onto,
    separator_free, split, with_part, PathError,
};
use vstd::prelude::*;

verus! {

/// Splitting gives at least one piece.
pub proof fn lemma_split_len(s: Seq<char>, wide: bool)
    ensures
        split(s, wide).len() >= 1,
    decreases s.len(),
{
    if s.len() > 0 {
        lemma_split_len(s.drop_last(), wide);
    }
}

/// How one more character changes the pieces.
pub proof fn lemma_split_push(s: Seq<char>, c: char, wide: bool)
    ensures
        split(s, wide).len() >= 1,
        is_separator(c, wide) ==> split(s.push(c), wide) == split(s, wide).push(Seq::empty()),
        !is_separator(c, wide) ==> split(s.push(c), wide) == split(s, wide).drop_last().push(
            split(s, wide).last().push(c),
        ),
{
    lemma_split_len(s, wide);
    assert(s.push(c).drop_last() =~= s);
}

/// Every piece is free of separators.
pub proof fn lemma_split_pieces_free(s: Seq<char>, wide: bool)
    ensures
        forall|i: int|
            0 <= i < split(s, wide).len() ==> separator_free(#[trigger] split(s, wide)[i], wide),
    decreases s.len(),
{
    if s.len() > 0 {
        lemma_split_pieces_free(s.drop_last(), wide);
        lemma_split_len(s.drop_last(), wide);
    }
}

/// Appending text without separators only lengthens the last piece.
pub proof fn lemma_split_append(a: Seq<char>, b: Seq<char>, wide: bool)
    requires
        separator_free(b, wide),
    ensures
        split(a, wide).len() >= 1,
        split(a + b, wide) == split(a, wide).drop_last().push(split(a, wide).last() + b),
    decreases b.len(),
{
    lemma_split_len(a, wide);
    let pieces = split(a, wide);
    if b.len() == 0 {
        assert(a + b =~= a);
        assert(pieces.last() + b =~= pieces.last());
        assert(pieces.drop_last().push(pieces.last()) =~= pieces);
    } else {
        let init = b.drop_last();
        let c = b.last();
        assert(separator_free(init, wide)) by {
            assert forall|i: int| 0 <= i < init.len() implies !is_separator(
                #[trigger] init[i],
                wide,
            ) by {
                assert(init[i] == b[i]);
            }
        }
        lemma_split_append(a, init, wide);
        assert(a + b =~= (a + init).push(c));
        lemma_split_push(a + init, c, wide);
        assert(!is_separator(b[b.len() - 1], wide));
        let mid = pieces.drop_last().push(pieces.last() + init);
        assert(mid.drop_last() =~= pieces.drop_last());
        assert((pieces.last() + init).push(c) =~= pieces.last() + b);
    }
}

/// Splitting what was joined gives the parts back.
pub proof fn lemma_split_join(parts: Seq<Seq<char>>, wide: bool)
    requires
        parts.len() >= 1,
        forall|i: int| 0 <= i < parts.len() ==> separator_free(#[trigger] parts[i], wide),
    ensures
        split(join(parts), wide) == parts,
    decreases parts.len(),
{
    let none = Seq::<char>::empty();
    if parts.len() == 1 {
        assert(none + parts[0] =~= parts[0]);
        lemma_split_append(none, parts[0], wide);
        assert(split(none, wide) =~= seq![none]);
        assert(split(join(parts), wide) =~= parts);
    } else {
        let init = parts.drop_last();
        let last = parts.last();
        assert forall|i: int| 0 <= i < init.len() implies separator_free(
            #[trigger] init[i],
            wide,
        ) by {
            assert(init[i] == parts[i]);
        }
        lemma_split_join(init, wide);
        let head = join(init).push('/');
        lemma_split_push(join(init), '/', wide);
        assert(split(head, wide) == init.push(none));
        lemma_split_append(head, last, wide);
        assert(none + last =~= last);
        assert(init.push(none).drop_last() =~= init);
        assert(init.push(last) =~= parts);
    }
}

/// The pieces of a text that holds a separator are those before it
/// followed by those after it.
pub proof fn lemma_split_concat(a: Seq<char>, c: char, b: Seq<char>, wide: bool)
    requires
        is_separator(c, wide),
    ensures
        split(a.push(c) + b, wide) == split(a, wide) + split(b, wide),
    decreases b.len(),
{
    let none = Seq::<char>::empty();
    lemma_split_len(a, wide);
    if b.len() == 0 {
        assert(a.push(c) + b =~= a.push(c));
        lemma_split_push(a, c, wide);
        assert(split(b, wide) =~= seq![none]);
        assert(split(a, wide).push(none) =~= split(a, wide) + seq![none]);
    } else {
        let init = b.drop_last();
        let x = b.last();
        lemma_split_concat(a, c, init, wide);
        lemma_split_len(init, wide);
        assert(a.push(c) + b =~= (a.push(c) + init).push(x));
        assert(b =~= init.push(x));
        lemma_split_push(a.push(c) + init, x, wide);
        lemma_split_push(init, x, wide);
        let left = split(a, wide);
        let right = split(init, wide);
        if is_separator(x, wide) {
            assert((left + right).push(none) =~= left + right.push(none));
        } else {
            assert((left + right).drop_last() =~= left + right.drop_last());
            assert((left + right).last() == right.last());
            assert((left + right.drop_last()).push(right.last().push(x)) =~= left
                + right.drop_last().push(right.last().push(x)));
        }
    }
}

/// A violation among the first parts is the first violation of the whole
/// list.
pub proof fn lemma_first_violation_prefix(a: Seq<Seq<char>>, b: Seq<Seq<char>>)
    ensures
        first_violation(a) is Some ==> first_violation(a + b) == first_violation(a),
        first_violation(a) is None ==> first_violation(a + b) == first_violation(b),
    decreases b.len(),
{
    if b.len() == 0 {
        assert(a + b =~= a);
    } else {
        assert((a + b).drop_last() =~= a + b.drop_last());
        assert((a + b).last() == b.last());
        lemma_first_violation_prefix(a, b.drop_last());
    }
}

/// Joining one more part.
pub proof fn lemma_join_push(parts: Seq<Seq<char>>, last: Seq<char>)
    ensures
        parts.len() == 0 ==> join(parts.push(last)) == last,
        parts.len() > 0 ==> join(parts.push(last)) == join(parts).push('/') + last,
{
    assert(parts.push(last).drop_last() =~= parts);
}

/// A component list in normal shape: every component is `..` or real,
/// and every `..` stands before every real component.
pub open spec fn canonical(parts: Seq<Seq<char>>) -> bool {
    &&& forall|i: int|
        0 <= i < parts.len() ==> is_dot_dot(#[trigger] parts[i]) || is_real(parts[i])
    &&& forall|i: int, j: int|
        0 <= i < j < parts.len() && is_dot_dot(#[trigger] parts[j]) ==> is_dot_dot(
            #[trigger] parts[i],
        )
}

/// One normalization step keeps the normal shape.
pub proof fn lemma_push_component_canonical(stack: Seq<Seq<char>>, c: Seq<char>)
    requires
        canonical(stack),
    ensures
        canonical(push_component(stack, c)),
{
    let next = push_component(stack, c);
    if c.len() == 0 || is_dot(c) {
    } else if is_dot_dot(c) {
        if stack.len() > 0 && !is_dot_dot(stack.last()) {
            assert forall|i: int| 0 <= i < next.len() implies is_dot_dot(#[trigger] next[i])
                || is_real(next[i]) by {
                assert(next[i] == stack[i]);
            }
            assert forall|i: int, j: int|
                0 <= i < j < next.len() && is_dot_dot(#[trigger] next[j]) implies is_dot_dot(
                #[trigger] next[i],
            ) by {
                assert(next[i] == stack[i] && next[j] == stack[j]);
            }
        } else {
            assert forall|i: int| 0 <= i < next.len() implies is_dot_dot(#[trigger] next[i]) by {
                if i < stack.len() {
                    assert(next[i] == stack[i]);
                    if i < stack.len() - 1 {
                        assert(is_dot_dot(stack[stack.len() - 1]));
                    }
                }
            }
        }
    } else {
        assert forall|i: int| 0 <= i < next.len() implies is_dot_dot(#[trigger] next[i])
            || is_real(next[i]) by {
            if i < stack.len() {
                assert(next[i] == stack[i]);
            }
        }
        assert forall|i: int, j: int|
            0 <= i < j < next.len() && is_dot_dot(#[trigger] next[j]) implies is_dot_dot(
            #[trigger] next[i],
        ) by {
            assert(next[i] == stack[i] && next[j] == stack[j]);
        }
    }
}

/// Resolving gives a list in normal shape.
pub proof fn lemma_resolve_canonical(parts: Seq<Seq<char>>)
    ensures
        canonical(resolve(parts)),
    decreases parts.len(),
{
    if parts.len() > 0 {
        lemma_resolve_canonical(parts.drop_last());
        lemma_push_component_canonical(resolve(parts.drop_last()), parts.last());
    }
}

/// A list in normal shape resolves to itself.
pub proof fn lemma_resolve_fixed(parts: Seq<Seq<char>>)
    requires
        canonical(parts),
    ensures
        resolve(parts) == parts,
    decreases parts.len(),
{
    if parts.len() > 0 {
        let init = parts.drop_last();
        let last = parts.last();
        assert(canonical(init)) by {
            assert forall|i: int| 0 <= i < init.len() implies is_dot_dot(#[trigger] init[i])
                || is_real(init[i]) by {
                assert(init[i] == parts[i]);
            }
            assert forall|i: int, j: int|
                0 <= i < j < init.len() && is_dot_dot(#[trigger] init[j]) implies is_dot_dot(
                #[trigger] init[i],
            ) by {
                assert(init[i] == parts[i] && init[j] == parts[j]);
            }
        }
        lemma_resolve_fixed(init);
        assert(is_dot_dot(last) || is_real(last)) by {
            assert(last == parts[parts.len() - 1]);
        }
        if is_dot_dot(last) && init.len() > 0 {
            assert(is_dot_dot(parts[parts.len() - 1]));
            assert(is_dot_dot(parts[init.len() - 1]));
            assert(init.last() == parts[init.len() - 1]);
        }
        assert(init.push(last) =~= parts);
    } else {
        assert(resolve(parts) =~= parts);
    }
}

/// What holds of every part holds of every resolved component.
pub proof fn lemma_resolve_keeps(parts: Seq<Seq<char>>, holds: spec_fn(Seq<char>) -> bool)
    requires
        forall|i: int| 0 <= i < parts.len() ==> holds(#[trigger] parts[i]),
    ensures
        forall|i: int| 0 <= i < resolve(parts).len() ==> holds(#[trigger] resolve(parts)[i]),
    decreases parts.len(),
{
    if parts.len() > 0 {
        let init = parts.drop_last();
        assert forall|i: int| 0 <= i < init.len() implies holds(#[trigger] init[i]) by {
            assert(init[i] == parts[i]);
        }
        lemma_resolve_keeps(init, holds);
        let before = resolve(init);
        let after = resolve(parts);
        assert(holds(parts[parts.len() - 1]));
        assert forall|i: int| 0 <= i < after.len() implies holds(#[trigger] after[i]) by {
            if i < before.len() {
                assert(after[i] == before[i]);
            }
        }
    }
}

/// No component breaks a rule exactly when no real component does.
pub proof fn lemma_first_violation(parts: Seq<Seq<char>>)
    ensures
        first_violation(parts) is None <==> forall|i: int|
            0 <= i < parts.len() && is_real(#[trigger] parts[i]) ==> component_violation(parts[i])
                is None,
    decreases parts.len(),
{
    if parts.len() > 0 {
        let init = parts.drop_last();
        lemma_first_violation(init);
        if first_violation(parts) is None {
            assert forall|i: int| 0 <= i < parts.len() && is_real(#[trigger] parts[i])
                implies component_violation(parts[i]) is None by {
                if i < init.len() {
                    assert(init[i] == parts[i]);
                }
            }
        } else {
            if first_violation(init) is None {
                assert(is_real(parts[parts.len() - 1]));
            } else {
                let i = choose|i: int|
                    0 <= i < init.len() && is_real(#[trigger] init[i]) && !(component_violation(
                        init[i],
                    ) is None);
                assert(init[i] == parts[i]);
            }
        }
    }
}

/// The text `.` has no components.
pub proof fn lemma_components_of_dot()
    ensures
        split(seq!['.'], true) == seq![seq!['.']],
        split(seq!['.'], false) == seq![seq!['.']],
        components(seq!['.']).len() == 0,
{
    let none = Seq::<char>::empty();
    assert(seq!['.'] =~= none.push('.'));
    lemma_split_push(none, '.', true);
    lemma_split_push(none, '.', false);
    assert(split(none, true) =~= seq![none]);
    assert(split(none, false) =~= seq![none]);
    assert(seq![none].drop_last().push(none.push('.')) =~= seq![seq!['.']]);
    let one = seq![seq!['.']];
    assert(one.drop_last() =~= Seq::<Seq<char>>::empty());
    assert(resolve(one.drop_last()) =~= Seq::<Seq<char>>::empty());
    assert(is_dot(one.last()));
}

/// The components of any text are in normal shape and free of
/// separators, and they are the components of its normal form too.
pub proof fn lemma_components(s: Seq<char>)
    ensures
        canonical(components(s)),
        forall|i: int|
            0 <= i < components(s).len() ==> separator_free(#[trigger] components(s)[i], true),
        components(s).len() > 0 ==> split(normalized(s), true) == components(s),
        components(s).len() > 0 ==> split(normalized(s), false) == components(s),
        components(s).len() == 0 ==> split(normalized(s), true) == seq![seq!['.']],
        components(normalized(s)) == components(s),
{
    let pieces = split(s, true);
    let n = components(s);
    lemma_resolve_canonical(pieces);
    lemma_split_pieces_free(s, true);
    lemma_resolve_keeps(pieces, |c: Seq<char>| separator_free(c, true));
    if n.len() == 0 {
        lemma_components_of_dot();
        assert(components(normalized(s)) =~= n);
    } else {
        lemma_split_join(n, true);
        assert forall|i: int| 0 <= i < n.len() implies separator_free(#[trigger] n[i], false) by {
            assert(separator_free(n[i], true));
        }
        lemma_split_join(n, false);
        lemma_resolve_fixed(n);
    }
}

/// What construction accepts is a neutral text.
pub proof fn lemma_parse_neutral(s: Seq<char>)
    requires
        first_violation(split(s, true)) is None,
    ensures
        is_neutral(normalized(s)),
{
    lemma_components(s);
    let pieces = split(s, true);
    let n = components(s);
    let ok = |c: Seq<char>| is_real(c) ==> component_violation(c) is None;
    lemma_first_violation(pieces);
    lemma_resolve_keeps(pieces, ok);
    if n.len() == 0 {
        let one = seq![seq!['.']];
        lemma_first_violation(one);
    } else {
        assert forall|i: int| 0 <= i < n.len() && is_real(#[trigger] n[i])
            implies component_violation(n[i]) is None by {
            assert(ok(n[i]));
        }
        lemma_first_violation(n);
    }
}

/// What holds of `/` and of every character of every part holds of
/// every character of the joined text.
pub proof fn lemma_join_chars(parts: Seq<Seq<char>>, holds: spec_fn(char) -> bool)
    requires
        holds('/'),
        forall|i: int, j: int|
            0 <= i < parts.len() && 0 <= j < parts[i].len() ==> holds(#[trigger] parts[i][j]),
    ensures
        forall|k: int| 0 <= k < join(parts).len() ==> holds(#[trigger] join(parts)[k]),
    decreases parts.len(),
{
    if parts.len() == 1 {
        assert forall|k: int| 0 <= k < join(parts).len() implies holds(
            #[trigger] join(parts)[k],
        ) by {
            assert(holds(parts[0][k]));
        }
    } else if parts.len() > 1 {
        let init = parts.drop_last();
        let last = parts.last();
        assert forall|i: int, j: int| 0 <= i < init.len() && 0 <= j < init[i].len() implies holds(
            #[trigger] init[i][j],
        ) by {
            assert(init[i][j] == parts[i][j]);
        }
        lemma_join_chars(init, holds);
        let head = join(init);
        assert forall|k: int| 0 <= k < join(parts).len() implies holds(
            #[trigger] join(parts)[k],
        ) by {
            if k < head.len() {
                assert(join(parts)[k] == head[k]);
            } else if k == head.len() {
            } else {
                assert(join(parts)[k] == parts[parts.len() - 1][k - head.len() - 1]);
            }
        }
    }
}

/// The joined text starts as its first part does, and goes on with a
/// `/` where there are more parts.
pub proof fn lemma_join_first(parts: Seq<Seq<char>>)
    requires
        parts.len() > 0,
    ensures
        join(parts).len() >= parts[0].len(),
        forall|k: int| 0 <= k < parts[0].len() ==> #[trigger] join(parts)[k] == parts[0][k],
        parts.len() == 1 ==> join(parts) == parts[0],
        parts.len() > 1 ==> join(parts).len() > parts[0].len() && join(parts)[parts[0].len() as int]
            == '/',
    decreases parts.len(),
{
    if parts.len() > 1 {
        let init = parts.drop_last();
        assert(init[0] == parts[0]);
        lemma_join_first(init);
    }
}

/// The rendered text of a list in normal shape whose components are
/// free of separators and break no rule is neutral, and its components
/// are that list.
pub proof fn lemma_render_neutral(parts: Seq<Seq<char>>)
    requires
        canonical(parts),
        forall|i: int| 0 <= i < parts.len() ==> separator_free(#[trigger] parts[i], true),
        forall|i: int|
            0 <= i < parts.len() && is_real(#[trigger] parts[i]) ==> component_violation(parts[i])
                is None,
    ensures
        is_neutral(render(parts)),
        components(render(parts)) == parts,
{
    if parts.len() == 0 {
        lemma_components_of_dot();
        lemma_first_violation(seq![seq!['.']]);
        assert(components(render(parts)) =~= parts);
    } else {
        lemma_split_join(parts, true);
        lemma_resolve_fixed(parts);
        lemma_first_violation(parts);
    }
}

/// What a neutral text is made of.
pub proof fn lemma_neutral(s: Seq<char>)
    requires
        is_neutral(s),
    ensures
        s == render(components(s)),
        canonical(components(s)),
        forall|i: int|
            0 <= i < components(s).len() ==> separator_free(#[trigger] components(s)[i], true),
        forall|i: int|
            0 <= i < components(s).len() && is_real(#[trigger] components(s)[i])
                ==> component_violation(components(s)[i]) is None,
        s.len() > 0,
        s[0] != '/' && s[0] != '\\',
        forall|k: int| 0 <= k < s.len() ==> #[trigger] s[k] != ':' && s[k] != '\\',
{
    let n = components(s);
    lemma_components(s);
    let pieces = split(s, true);
    let ok = |c: Seq<char>| is_real(c) ==> component_violation(c) is None;
    lemma_first_violation(pieces);
    lemma_resolve_keeps(pieces, ok);
    assert forall|i: int| 0 <= i < n.len() && is_real(#[trigger] n[i]) implies component_violation(
        n[i],
    ) is None by {
        assert(ok(n[i]));
    }
    if n.len() > 0 {
        let plain = |c: char| c != ':' && c != '\\';
        assert forall|i: int, j: int| 0 <= i < n.len() && 0 <= j < n[i].len() implies plain(
            #[trigger] n[i][j],
        ) by {
            assert(separator_free(n[i], true));
            assert(!is_separator(n[i][j], true));
            if is_real(n[i]) {
                assert(component_violation(n[i]) is None);
                if n[i][j] == ':' {
                    assert(n[i].contains(':'));
                }
            }
        }
        lemma_join_chars(n, plain);
        assert forall|k: int| 0 <= k < s.len() implies #[trigger] s[k] != ':' && s[k] != '\\' by {
            assert(plain(join(n)[k]));
        }
        assert(n[0].len() > 0);
        lemma_join_first(n);
        assert(s[0] == n[0][0]);
        assert(!is_separator(n[0][0], true));
    }
}

/// A neutral text is not absolute.
pub proof fn lemma_neutral_relative(s: Seq<char>)
    requires
        is_neutral(s),
    ensures
        !is_absolute(s),
{
    lemma_neutral(s);
}

/// A part joined onto a neutral base is absolute only where the part is,
/// and its pieces are those of the base followed by those of the part.
pub proof fn lemma_with_part(base: Seq<char>, part: Seq<char>)
    requires
        is_neutral(base),
    ensures
        !is_absolute(part) ==> !is_absolute(with_part(base, part)),
        split(with_part(base, part), true) == split(base, true) + split(part, true),
        first_violation(split(with_part(base, part), true)) == first_violation(split(part, true)),
{
    lemma_neutral(base);
    let whole = with_part(base, part);
    lemma_split_concat(base, '/', part, true);
    lemma_first_violation_prefix(split(base, true), split(part, true));
    if base.len() >= 2 {
        assert(whole[0] == base[0] && whole[1] == base[1]);
    } else {
        assert(whole[0] == base[0] && whole[1] == '/');
    }
}

/// The common prefix is no longer than either list.
pub proof fn lemma_common_len_bound(a: Seq<Seq<char>>, b: Seq<Seq<char>>)
    ensures
        common_len(a, b) <= a.len(),
        common_len(a, b) <= b.len(),
    decreases a.len(),
{
    if a.len() > 0 && b.len() > 0 && a[0] == b[0] {
        lemma_common_len_bound(a.drop_first(), b.drop_first());
    }
}

/// What pins down the length of the common prefix.
pub proof fn lemma_common_len(a: Seq<Seq<char>>, b: Seq<Seq<char>>, c: int)
    requires
        0 <= c <= a.len(),
        c <= b.len(),
        forall|j: int| 0 <= j < c ==> a[j] == b[j],
        c == a.len() || c == b.len() || a[c] != b[c],
    ensures
        common_len(a, b) == c,
    decreases a.len(),
{
    if c > 0 {
        let x = a.drop_first();
        let y = b.drop_first();
        assert(a[0] == b[0]);
        assert forall|j: int| 0 <= j < c - 1 implies x[j] == y[j] by {
            assert(a[j + 1] == b[j + 1]);
        }
        if c < a.len() && c < b.len() {
            assert(x[c - 1] == a[c] && y[c - 1] == b[c]);
        }
        lemma_common_len(x, y, c - 1);
    }
}

/// The way from one neutral path to another is a neutral path, and its
/// components are those that lead from the one to the other.
pub proof fn lemma_relative_neutral(from: Seq<char>, to: Seq<char>)
    requires
        is_neutral(from),
        is_neutral(to),
    ensures
        is_neutral(relative_text(from, to)),
        components(relative_text(from, to)) == relative_parts(components(from), components(to)),
{
    let a = components(from);
    let b = components(to);
    let c = common_len(a, b);
    lemma_common_len_bound(a, b);
    lemma_neutral(to);
    let k = a.len() - c;
    let parts = relative_parts(a, b);
    assert forall|i: int| 0 <= i < parts.len() implies (is_dot_dot(#[trigger] parts[i]) || is_real(
        parts[i],
    )) && separator_free(parts[i], true) && (is_real(parts[i]) ==> component_violation(parts[i])
        is None) by {
        if i >= k {
            assert(parts[i] == b[c + i - k]);
        }
    }
    assert forall|i: int, j: int|
        0 <= i < j < parts.len() && is_dot_dot(#[trigger] parts[j]) implies is_dot_dot(
        #[trigger] parts[i],
    ) by {
        if i >= k {
            assert(parts[i] == b[c + i - k]);
            assert(parts[j] == b[c + j - k]);
        }
    }
    lemma_render_neutral(parts);
}

/// Resolving a list that continues an earlier one: the steps of the
/// second list, applied to what the first resolved to.
pub proof fn lemma_resolve_append(a: Seq<Seq<char>>, b: Seq<Seq<char>>)
    ensures
        resolve(a + b) == resolve_onto(resolve(a), b),
    decreases b.len(),
{
    if b.len() == 0 {
        assert(a + b =~= a);
    } else {
        assert((a + b).drop_last() =~= a + b.drop_last());
        assert((a + b).last() == b.last());
        lemma_resolve_append(a, b.drop_last());
    }
}

/// Parts without `..` never cancel anything: what they resolve to is
/// appended.
pub proof fn lemma_resolve_onto_plain(stack: Seq<Seq<char>>, parts: Seq<Seq<char>>)
    requires
        forall|i: int| 0 <= i < parts.len() ==> !is_dot_dot(#[trigger] parts[i]),
    ensures
        resolve_onto(stack, parts) == stack + resolve(parts),
    decreases parts.len(),
{
    if parts.len() == 0 {
        assert(stack + resolve(parts) =~= stack);
    } else {
        let init = parts.drop_last();
        assert forall|i: int| 0 <= i < init.len() implies !is_dot_dot(#[trigger] init[i]) by {
            assert(init[i] == parts[i]);
        }
        lemma_resolve_onto_plain(stack, init);
        assert(!is_dot_dot(parts[parts.len() - 1]));
        let c = parts.last();
        if c.len() == 0 || is_dot(c) {
        } else {
            assert((stack + resolve(init)).push(c) =~= stack + resolve(init).push(c));
        }
    }
}

/// The components of a part joined onto a neutral base: the pieces of
/// the part, applied to the components of the base.
pub proof fn lemma_components_joined(base: Seq<char>, part: Seq<char>)
    requires
        is_neutral(base),
    ensures
        components(with_part(base, part)) == resolve_onto(components(base), split(part, true)),
        components(normalized(with_part(base, part))) == components(with_part(base, part)),
{
    lemma_with_part(base, part);
    lemma_resolve_append(split(base, true), split(part, true));
    lemma_components(with_part(base, part));
}

/// Joining one neutral text onto another always succeeds.
pub proof fn lemma_join_neutral(base: Seq<char>, part: Seq<char>)
    requires
        is_neutral(base),
        is_neutral(part),
    ensures
        parse_joined(base, part) == Ok::<Seq<char>, PathError>(normalized(with_part(base, part))),
        is_neutral(normalized(with_part(base, part))),
{
    lemma_neutral_relative(part);
    lemma_with_part(base, part);
    lemma_parse_neutral(with_part(base, part));
}

/// The text `..` is its own single piece, is relative, and breaks no
/// rule.
pub proof fn lemma_dot_dot()
    ensures
        split(seq!['.', '.'], true) == seq![seq!['.', '.']],
        !is_absolute(seq!['.', '.']),
        first_violation(split(seq!['.', '.'], true)) is None,
{
    let up = seq!['.', '.'];
    lemma_split_append(Seq::empty(), up, true);
    assert(Seq::<char>::empty() + up =~= up);
    assert(split(Seq::empty(), true) =~= seq![Seq::<char>::empty()]);
    assert(split(up, true) =~= seq![up]);
    lemma_first_violation(seq![up]);
}

/// The directory that holds a neutral path is a neutral path.
pub proof fn lemma_parent_neutral(path: Seq<char>)
    requires
        is_neutral(path),
    ensures
        parse(with_part(path, seq!['.', '.'])) == Ok::<Seq<char>, PathError>(
            normalized(with_part(path, seq!['.', '.'])),
        ),
        is_neutral(normalized(with_part(path, seq!['.', '.']))),
{
    let up = seq!['.', '.'];
    lemma_dot_dot();
    lemma_with_part(path, up);
    lemma_parse_neutral(with_part(path, up));
}

} // verus!
