//! What holds of neutral paths whatever the inputs.

use super::lemmas::{
    canonical, lemma_common_len, lemma_components_joined, lemma_first_violation,
    lemma_components, lemma_join_first, lemma_neutral, lemma_parse_neutral,
    lemma_resolve_canonical, lemma_resolve_onto_plain, lemma_split_append, lemma_split_concat,
    lemma_with_part,
};
use super::model::{
    begins_with_dot_dot, component_violation, components, first_violation, is_absolute,
    is_dot_dot, is_neutral, is_real, join, lies_in, normalized, parse_joined, push_component,
    relative_parts, render, resolve_onto, separator_free, split, with_part,
};
use vstd::prelude::*;

verus! {

/// Normalizing is idempotent: the normal form of a normal form is that
/// normal form, for every text.
pub proof fn normalize_is_idempotent(s: Seq<char>)
    ensures
        normalized(normalized(s)) == normalized(s),
{
    lemma_components(s);
}

/// A rendered component list starts with `..` exactly where its first
/// component does.
proof fn lemma_render_begins(parts: Seq<Seq<char>>)
    requires
        canonical(parts),
    ensures
        begins_with_dot_dot(render(parts)) <==> parts.len() > 0 && begins_with_dot_dot(parts[0]),
{
    if parts.len() > 0 {
        lemma_join_first(parts);
        assert(parts[0].len() > 0);
        if parts[0].len() >= 2 {
            assert(join(parts)[0] == parts[0][0]);
            assert(join(parts)[1] == parts[0][1]);
        } else {
            assert(join(parts)[0] == parts[0][0]);
        }
    }
}

/// Joining a part that has no `..` component onto a root gives a path
/// that lies in the root, provided the first component of the part does
/// not itself begin with two dots.
pub proof fn joined_path_lies_in_root(root: Seq<char>, part: Seq<char>)
    requires
        is_neutral(root),
        parse_joined(root, part) is Ok,
        forall|i: int|
            0 <= i < split(part, true).len() ==> !is_dot_dot(#[trigger] split(part, true)[i]),
        components(part).len() > 0 ==> !begins_with_dot_dot(components(part)[0]),
    ensures
        parse_joined(root, part) matches Ok(joined) && lies_in(joined, root),
{
    let whole = with_part(root, part);
    let joined = normalized(whole);
    let base = components(root);
    let rest = components(part);
    lemma_components_joined(root, part);
    lemma_resolve_onto_plain(base, split(part, true));
    assert(components(joined) == base + rest);
    lemma_common_len(base, base + rest, base.len() as int);
    assert(relative_parts(base, base + rest) =~= rest);
    lemma_resolve_canonical(split(part, true));
    lemma_render_begins(rest);
}

/// A component that can stand in a path as it is: real, free of
/// separators, and breaking no rule.
pub open spec fn is_plain_name(c: Seq<char>) -> bool {
    is_real(c) && separator_free(c, true) && component_violation(c) is None
}

/// The part `../` followed by the name.
pub open spec fn sibling(name: Seq<char>) -> Seq<char> {
    seq!['.', '.', '/'] + name
}

/// A text without separators is its own single piece.
proof fn lemma_split_plain(s: Seq<char>)
    requires
        separator_free(s, true),
    ensures
        split(s, true) == seq![s],
{
    let none = Seq::<char>::empty();
    lemma_split_append(none, s, true);
    assert(none + s =~= s);
    assert(split(none, true) =~= seq![none]);
    assert(seq![none].drop_last().push(none + s) =~= seq![s]);
}

/// The steps of one part, and of two.
proof fn lemma_resolve_onto_short(stack: Seq<Seq<char>>, a: Seq<char>, b: Seq<char>)
    ensures
        resolve_onto(stack, seq![a]) == push_component(stack, a),
        resolve_onto(stack, seq![a, b]) == push_component(push_component(stack, a), b),
{
    let none = Seq::<Seq<char>>::empty();
    assert(seq![a].drop_last() =~= none);
    assert(seq![a, b].drop_last() =~= seq![a]);
    assert(resolve_onto(stack, none) == stack);
    assert(resolve_onto(stack, seq![a]) == push_component(resolve_onto(stack, none), a));
}

/// The part that leads to a sibling is relative, has the two pieces `..`
/// and the name, and breaks no rule.
proof fn lemma_sibling(name: Seq<char>)
    requires
        is_plain_name(name),
    ensures
        !is_absolute(sibling(name)),
        split(sibling(name), true) == seq![seq!['.', '.'], name],
        first_violation(split(sibling(name), true)) is None,
{
    let up = seq!['.', '.'];
    let part = sibling(name);
    assert(part =~= up.push('/') + name);
    lemma_split_concat(up, '/', name, true);
    lemma_split_plain(up);
    lemma_split_plain(name);
    assert(seq![up] + seq![name] =~= seq![up, name]);
    lemma_first_violation(seq![up, name]);
    assert(part[0] == '.');
}

/// Joining the part that leads to a sibling: the join succeeds on a
/// neutral text, and the last real component, if there is one, gives way
/// to the name.
proof fn lemma_join_sibling(base: Seq<char>, name: Seq<char>)
    requires
        is_neutral(base),
        is_plain_name(name),
    ensures
        parse_joined(base, sibling(name)) matches Ok(joined) && is_neutral(joined) && components(
            joined,
        ) == push_component(push_component(components(base), seq!['.', '.']), name),
{
    let up = seq!['.', '.'];
    let part = sibling(name);
    let whole = with_part(base, part);
    lemma_sibling(name);
    lemma_with_part(base, part);
    lemma_parse_neutral(whole);
    lemma_components_joined(base, part);
    lemma_resolve_onto_short(components(base), up, name);
}

/// Leaving a root for a sibling, and that for another: the result lies
/// outside the root, unless the second name is the root's own last
/// component, which leads back to the root.
pub proof fn sibling_lies_outside_root(root: Seq<char>, x: Seq<char>, y: Seq<char>)
    requires
        is_neutral(root),
        is_plain_name(x),
        is_plain_name(y),
    ensures
        parse_joined(root, sibling(x)) matches Ok(first) && (parse_joined(first, sibling(y))
            matches Ok(second) && (lies_in(second, root) <==> components(root).len() > 0
            && components(root).last() == y)),
{
    let up = seq!['.', '.'];
    let base = components(root);
    lemma_join_sibling(root, x);
    let first = normalized(with_part(root, sibling(x)));
    lemma_join_sibling(first, y);
    let second = normalized(with_part(first, sibling(y)));
    lemma_neutral(root);
    let above = push_component(base, up);
    assert(components(first) == above.push(x));
    assert(above.push(x).drop_last() =~= above);
    let target = above.push(y);
    assert(components(second) == target);
    if base.len() > 0 && !is_dot_dot(base.last()) {
        let c = base.len() - 1;
        if base.last() == y {
            assert(target =~= base);
            lemma_common_len(base, target, base.len() as int);
            assert(relative_parts(base, target) =~= Seq::<Seq<char>>::empty());
        } else {
            lemma_common_len(base, target, c);
            assert(relative_parts(base, target) =~= seq![up, y]);
            lemma_render_begins(seq![up, y]);
        }
    } else {
        lemma_common_len(base, target, base.len() as int);
        assert(relative_parts(base, target) =~= seq![up, y]);
        lemma_render_begins(seq![up, y]);
        if base.len() > 0 {
            assert(is_dot_dot(base.last()));
        }
    }
}

/// The directory that holds a path never lies in that path.
pub proof fn parent_lies_outside(path: Seq<char>)
    requires
        is_neutral(path),
    ensures
        !lies_in(normalized(with_part(path, seq!['.', '.'])), path),
{
    let up = seq!['.', '.'];
    let base = components(path);
    let whole = with_part(path, up);
    lemma_neutral(path);
    lemma_components_joined(path, up);
    lemma_split_plain(up);
    lemma_resolve_onto_short(base, up, up);
    let target = push_component(base, up);
    assert(components(normalized(whole)) == target);
    if base.len() > 0 && !is_dot_dot(base.last()) {
        lemma_common_len(base, target, base.len() - 1);
        assert(relative_parts(base, target) =~= seq![up]);
        lemma_render_begins(seq![up]);
    } else {
        lemma_common_len(base, target, base.len() as int);
        assert(relative_parts(base, target) =~= seq![up]);
        lemma_render_begins(seq![up]);
    }
}

} // verus!
