//! A lexical model of slash-separated path strings.
//!
//! A request is a sequence of characters; its segments are the runs of
//! characters between separators.  The model gives the resolver its
//! vocabulary: the components of a request, the collapse of `..` segments,
//! the join of the collapsed components onto the vault root, and the
//! containment relation that every successfully resolved path must satisfy.

use vstd::prelude::*;

verus! {

/// The raw segments of a path string: the text between separators, kept in
/// order, including the empty runs (`"a//b"` has segments `a`, ``, `b`; the
/// empty string has the single empty segment).
pub open spec fn split_slash(s: Seq<char>) -> Seq<Seq<char>>
    decreases s.len(),
{
    if s.len() == 0 {
        seq![Seq::<char>::empty()]
    } else if s.last() == '/' {
        split_slash(s.drop_last()).push(Seq::<char>::empty())
    } else {
        let prior = split_slash(s.drop_last());
        prior.update(prior.len() - 1, prior.last().push(s.last()))
    }
}

/// The current-directory segment `.`.
pub open spec fn cur_seg() -> Seq<char> {
    seq!['.']
}

/// The parent-directory segment `..`.
pub open spec fn parent_seg() -> Seq<char> {
    seq!['.', '.']
}

/// A segment that names a real component: nonempty and not the no-op `.`.
pub open spec fn is_component(c: Seq<char>) -> bool {
    c.len() > 0 && c != cur_seg()
}

/// A segment free of separators.
pub open spec fn no_sep(c: Seq<char>) -> bool {
    forall|j: int| 0 <= j < c.len() ==> c[j] != '/'
}

/// Drop the segments that name no component.
pub open spec fn keep_components(raw: Seq<Seq<char>>) -> Seq<Seq<char>>
    decreases raw.len(),
{
    if raw.len() == 0 {
        seq![]
    } else if is_component(raw.last()) {
        keep_components(raw.drop_last()).push(raw.last())
    } else {
        keep_components(raw.drop_last())
    }
}

/// The components of a path string: its segments with the empty runs and the
/// `.` no-ops dropped; `..` segments are kept.
pub open spec fn path_components(s: Seq<char>) -> Seq<Seq<char>> {
    keep_components(split_slash(s))
}

/// Leading separators dropped: an absolute request is read as if the vault
/// root were the root of the filesystem.
pub open spec fn strip_abs(s: Seq<char>) -> Seq<char>
    decreases s.len(),
{
    if s.len() > 0 && s.first() == '/' {
        strip_abs(s.drop_first())
    } else {
        s
    }
}

/// Whether the first component of a relative path string is `.` or `..`.
/// For such a request the lexical resolver consults the process state, so
/// its outcome is not a function of the request alone.
pub open spec fn leading_dot(s: Seq<char>) -> bool {
    ||| (s.len() >= 1 && s[0] == '.' && (s.len() == 1 || s[1] == '/'))
    ||| (s.len() >= 3 && s[0] == '.' && s[1] == '.' && s[2] == '/')
    ||| (s.len() == 2 && s[0] == '.' && s[1] == '.')
}

/// Collapse `..` segments against the components gathered so far; a `..`
/// with nothing left to remove is dropped, as the lexical resolver does for
/// a relative path that begins with a plain name.
pub open spec fn clamp_collapse(comps: Seq<Seq<char>>) -> Seq<Seq<char>>
    decreases comps.len(),
{
    if comps.len() == 0 {
        seq![]
    } else {
        let prior = clamp_collapse(comps.drop_last());
        if comps.last() == parent_seg() {
            if prior.len() == 0 {
                prior
            } else {
                prior.drop_last()
            }
        } else {
            prior.push(comps.last())
        }
    }
}

/// The segments joined with single separators and no leading or trailing one.
pub open spec fn join_segments(stack: Seq<Seq<char>>) -> Seq<char>
    decreases stack.len(),
{
    if stack.len() == 0 {
        Seq::<char>::empty()
    } else if stack.len() == 1 {
        stack[0]
    } else {
        join_segments(stack.drop_last()) + seq!['/'] + stack.last()
    }
}

/// Append a relative suffix to a directory the way a path buffer does: a
/// separator is inserted only when the prefix does not already end with one.
pub open spec fn chained(prefix: Seq<char>, suffix: Seq<char>) -> Seq<char> {
    if prefix.len() > 0 && prefix.last() == '/' {
        prefix + suffix
    } else {
        prefix + seq!['/'] + suffix
    }
}

/// The target the resolver computes for a relative request that does not
/// begin with `.` or `..`: the root, extended by the collapsed components.
pub open spec fn lexical_target(root: Seq<char>, rel: Seq<char>) -> Seq<char> {
    chained(root, join_segments(clamp_collapse(path_components(rel))))
}

/// Containment: the components of the root are exactly the leading
/// components of `p`.
pub open spec fn contained_in(root: Seq<char>, p: Seq<char>) -> bool {
    &&& path_components(p).len() >= path_components(root).len()
    &&& path_components(p).take(path_components(root).len() as int) == path_components(root)
}

/// A `.` segment begins at position `i` of `s`.
pub open spec fn dot_seg_at(s: Seq<char>, i: int) -> bool {
    &&& 0 <= i < s.len()
    &&& s[i] == '.'
    &&& i == 0 || s[i - 1] == '/'
    &&& i + 1 == s.len() || s[i + 1] == '/'
}

/// A `..` segment begins at position `i` of `s`.
pub open spec fn dotdot_seg_at(s: Seq<char>, i: int) -> bool {
    &&& 0 <= i && i + 1 < s.len()
    &&& s[i] == '.' && s[i + 1] == '.'
    &&& i == 0 || s[i - 1] == '/'
    &&& i + 2 == s.len() || s[i + 2] == '/'
}

/// Two separators stand side by side at position `i` of `s`.
pub open spec fn double_sep_at(s: Seq<char>, i: int) -> bool {
    0 < i < s.len() && s[i - 1] == '/' && s[i] == '/'
}

/// A canonical absolute directory string, as the filesystem's own
/// canonicalization produces it: absolute, no trailing separator except for
/// the root directory itself, no repeated separators, and no `.` or `..`
/// segments.
pub open spec fn is_canonical_root(s: Seq<char>) -> bool {
    &&& s.len() > 0
    &&& s[0] == '/'
    &&& s.len() > 1 ==> s[s.len() - 1] != '/'
    &&& forall|i: int| !dot_seg_at(s, i)
    &&& forall|i: int| !dotdot_seg_at(s, i)
    &&& forall|i: int| !double_sep_at(s, i)
}

/// Every element of `stack` is a separator-free component.
pub open spec fn all_components(stack: Seq<Seq<char>>) -> bool {
    forall|k: int| 0 <= k < stack.len() ==> is_component(#[trigger] stack[k]) && no_sep(stack[k])
}

pub proof fn lemma_split_slash_nonempty(s: Seq<char>)
    ensures
        split_slash(s).len() >= 1,
    decreases s.len(),
{
    if s.len() != 0 {
        lemma_split_slash_nonempty(s.drop_last());
    }
}

pub proof fn lemma_split_no_sep(s: Seq<char>)
    ensures
        forall|k: int| 0 <= k < split_slash(s).len() ==> no_sep(#[trigger] split_slash(s)[k]),
    decreases s.len(),
{
    lemma_split_slash_nonempty(s);
    if s.len() == 0 {
        assert forall|k: int| 0 <= k < split_slash(s).len() implies no_sep(
            #[trigger] split_slash(s)[k],
        ) by {
            assert(split_slash(s)[k] =~= Seq::<char>::empty());
        }
    } else if s.last() == '/' {
        lemma_split_no_sep(s.drop_last());
        let prior = split_slash(s.drop_last());
        assert forall|k: int| 0 <= k < split_slash(s).len() implies no_sep(
            #[trigger] split_slash(s)[k],
        ) by {
            if k < prior.len() {
                assert(split_slash(s)[k] == prior[k]);
            } else {
                assert(split_slash(s)[k] =~= Seq::<char>::empty());
            }
        }
    } else {
        lemma_split_no_sep(s.drop_last());
        let prior = split_slash(s.drop_last());
        lemma_split_slash_nonempty(s.drop_last());
        assert forall|k: int| 0 <= k < split_slash(s).len() implies no_sep(
            #[trigger] split_slash(s)[k],
        ) by {
            if k == prior.len() - 1 {
                assert(no_sep(prior[k]));
                assert(split_slash(s)[k] == prior.last().push(s.last()));
            } else {
                assert(split_slash(s)[k] == prior[k]);
            }
        }
    }
}

pub proof fn lemma_split_append_sep(x: Seq<char>)
    ensures
        split_slash(x + seq!['/']) == split_slash(x).push(Seq::<char>::empty()),
{
    let y = x + seq!['/'];
    assert(y.len() > 0);
    assert(y.last() == '/');
    assert(y.drop_last() =~= x);
}

pub proof fn lemma_split_append_seg(x: Seq<char>, c: Seq<char>)
    requires
        no_sep(c),
    ensures
        split_slash(x + c) == split_slash(x).update(
            split_slash(x).len() - 1,
            split_slash(x).last() + c,
        ),
    decreases c.len(),
{
    lemma_split_slash_nonempty(x);
    let sx = split_slash(x);
    if c.len() == 0 {
        assert(x + c =~= x);
        assert(sx.last() + c =~= sx.last());
        assert(sx.update(sx.len() - 1, sx.last() + c) =~~= sx);
    } else {
        let c0 = c.drop_last();
        assert(no_sep(c0)) by {
            assert(forall|j: int| 0 <= j < c0.len() ==> #[trigger] c0[j] == c[j]);
        }
        lemma_split_append_seg(x, c0);
        let y = x + c0;
        let sy = split_slash(y);
        lemma_split_slash_nonempty(y);
        assert(x + c =~= y.push(c.last()));
        assert(c.last() != '/');
        assert(y.push(c.last()).drop_last() =~= y);
        assert(y.push(c.last()).last() == c.last());
        assert(split_slash(y.push(c.last())) == sy.update(sy.len() - 1, sy.last().push(c.last())));
        assert(sy.last() == sx.last() + c0);
        assert((sx.last() + c0).push(c.last()) =~= sx.last() + c);
        assert(sy.update(sy.len() - 1, sy.last().push(c.last())) =~~= sx.update(
            sx.len() - 1,
            sx.last() + c,
        ));
    }
}

pub proof fn lemma_components_trailing_sep(x: Seq<char>)
    ensures
        path_components(x + seq!['/']) == path_components(x),
{
    lemma_split_slash_nonempty(x);
    lemma_split_append_sep(x);
    let sx = split_slash(x);
    assert(sx.push(Seq::<char>::empty()).drop_last() =~= sx);
    assert(!is_component(Seq::<char>::empty()));
}

pub proof fn lemma_components_append(x: Seq<char>, c: Seq<char>)
    requires
        is_component(c),
        no_sep(c),
    ensures
        path_components(x + seq!['/'] + c) == path_components(x).push(c),
{
    lemma_split_slash_nonempty(x);
    lemma_split_append_sep(x);
    lemma_split_append_seg(x + seq!['/'], c);
    assert(x + seq!['/'] + c =~= (x + seq!['/']) + c);
    let sx = split_slash(x);
    let sxs = split_slash(x + seq!['/']);
    assert(sxs.last() =~= Seq::<char>::empty());
    assert(Seq::<char>::empty() + c =~= c);
    assert(split_slash(x + seq!['/'] + c) =~~= sx.push(c)) by {
        assert(sxs.update(sxs.len() - 1, sxs.last() + c) =~~= sx.push(c));
    }
    assert(sx.push(c).drop_last() =~= sx);
    assert(keep_components(sx.push(c)) == keep_components(sx).push(c));
}

pub proof fn lemma_components_chained_join(prefix: Seq<char>, stack: Seq<Seq<char>>)
    requires
        all_components(stack),
    ensures
        path_components(chained(prefix, join_segments(stack))) == path_components(prefix) + stack,
    decreases stack.len(),
{
    if stack.len() == 0 {
        if prefix.len() > 0 && prefix.last() == '/' {
            assert(prefix + Seq::<char>::empty() =~= prefix);
        } else {
            assert(prefix + seq!['/'] + Seq::<char>::empty() =~= prefix + seq!['/']);
            lemma_components_trailing_sep(prefix);
        }
        assert(path_components(prefix) + stack =~~= path_components(prefix));
    } else if stack.len() == 1 {
        let c = stack[0];
        assert(is_component(c) && no_sep(c));
        if prefix.len() > 0 && prefix.last() == '/' {
            assert(chained(prefix, c) =~= prefix.drop_last() + seq!['/'] + c);
            lemma_components_append(prefix.drop_last(), c);
            assert(prefix.drop_last() + seq!['/'] =~= prefix);
            lemma_components_trailing_sep(prefix.drop_last());
            assert(path_components(prefix) + stack =~~= path_components(prefix.drop_last()).push(
                c,
            ));
        } else {
            assert(chained(prefix, c) =~= prefix + seq!['/'] + c);
            lemma_components_append(prefix, c);
            assert(path_components(prefix) + stack =~~= path_components(prefix).push(c));
        }
    } else {
        let dl = stack.drop_last();
        let c = stack.last();
        assert(is_component(c) && no_sep(c));
        assert(all_components(dl)) by {
            assert(forall|k: int| 0 <= k < dl.len() ==> #[trigger] dl[k] == stack[k]);
        }
        lemma_components_chained_join(prefix, dl);
        assert(join_segments(stack) == join_segments(dl) + seq!['/'] + c);
        assert(chained(prefix, join_segments(stack)) =~= chained(prefix, join_segments(dl))
            + seq!['/'] + c);
        lemma_components_append(chained(prefix, join_segments(dl)), c);
        assert(path_components(prefix) + stack =~~= (path_components(prefix) + dl).push(c));
    }
}

pub proof fn lemma_keep_elems(raw: Seq<Seq<char>>)
    requires
        forall|k: int| 0 <= k < raw.len() ==> no_sep(#[trigger] raw[k]),
    ensures
        all_components(keep_components(raw)),
    decreases raw.len(),
{
    if raw.len() > 0 {
        let dl = raw.drop_last();
        assert(forall|k: int| 0 <= k < dl.len() ==> #[trigger] dl[k] == raw[k]);
        lemma_keep_elems(dl);
        if is_component(raw.last()) {
            assert(no_sep(raw[raw.len() - 1]));
            let kept = keep_components(dl).push(raw.last());
            assert(forall|k: int|
                0 <= k < kept.len() ==> is_component(#[trigger] kept[k]) && no_sep(kept[k]));
        }
    }
}

pub proof fn lemma_clamp_elems(comps: Seq<Seq<char>>)
    requires
        all_components(comps),
    ensures
        all_components(clamp_collapse(comps)),
        forall|k: int|
            0 <= k < clamp_collapse(comps).len() ==> #[trigger] clamp_collapse(comps)[k]
                != parent_seg(),
    decreases comps.len(),
{
    if comps.len() > 0 {
        let dl = comps.drop_last();
        assert(all_components(dl)) by {
            assert(forall|k: int| 0 <= k < dl.len() ==> #[trigger] dl[k] == comps[k]);
        }
        lemma_clamp_elems(dl);
        let prior = clamp_collapse(dl);
        if comps.last() == parent_seg() {
            if prior.len() > 0 {
                assert(forall|k: int|
                    0 <= k < prior.drop_last().len() ==> #[trigger] prior.drop_last()[k]
                        == prior[k]);
            }
        } else {
            assert(is_component(comps[comps.len() - 1]) && no_sep(comps[comps.len() - 1]));
        }
    }
}

pub proof fn lemma_clamp_no_parent(comps: Seq<Seq<char>>)
    requires
        forall|k: int| 0 <= k < comps.len() ==> #[trigger] comps[k] != parent_seg(),
    ensures
        clamp_collapse(comps) == comps,
    decreases comps.len(),
{
    if comps.len() > 0 {
        let dl = comps.drop_last();
        assert(forall|k: int| 0 <= k < dl.len() ==> #[trigger] dl[k] == comps[k]);
        lemma_clamp_no_parent(dl);
        assert(clamp_collapse(comps) =~~= comps);
    }
}

pub proof fn lemma_strip_prepend_sep(s: Seq<char>)
    ensures
        strip_abs(seq!['/'] + s) == strip_abs(s),
{
    let y = seq!['/'] + s;
    assert(y.len() > 0 && y.first() == '/');
    assert(y.drop_first() =~= s);
}

pub proof fn lemma_strip_no_lead(s: Seq<char>)
    ensures
        strip_abs(s).len() == 0 || strip_abs(s)[0] != '/',
    decreases s.len(),
{
    if s.len() > 0 && s.first() == '/' {
        lemma_strip_no_lead(s.drop_first());
    }
}

/// Containment of the lexical target, for every root and every request: the
/// root's components lead the target's components, and nothing after them is
/// a `..`.
pub proof fn lemma_target_components(root: Seq<char>, rel: Seq<char>)
    ensures
        path_components(lexical_target(root, rel)) == path_components(root) + clamp_collapse(
            path_components(rel),
        ),
        contained_in(root, lexical_target(root, rel)),
        forall|k: int|
            path_components(root).len() <= k < path_components(
                lexical_target(root, rel),
            ).len() ==> #[trigger] path_components(lexical_target(root, rel))[k] != parent_seg(),
{
    lemma_split_no_sep(rel);
    lemma_keep_elems(split_slash(rel));
    lemma_clamp_elems(path_components(rel));
    let a = path_components(root);
    let b = clamp_collapse(path_components(rel));
    lemma_components_chained_join(root, b);
    assert((a + b).take(a.len() as int) =~~= a);
    assert(forall|k: int| a.len() <= k < (a + b).len() ==> (a + b)[k] == #[trigger] b[k - a.len()]);
}

/// A request whose components hold no `..` resolves, lexically, to the root
/// extended by exactly those components: a target that does not exist yet is
/// still named, under the root, at the place the request spells.
pub proof fn lemma_fresh_target(root: Seq<char>, rel: Seq<char>)
    requires
        forall|k: int|
            0 <= k < path_components(rel).len() ==> #[trigger] path_components(rel)[k]
                != parent_seg(),
    ensures
        path_components(lexical_target(root, rel)) == path_components(root) + path_components(rel),
{
    lemma_clamp_no_parent(path_components(rel));
    lemma_target_components(root, rel);
}

/// An absolute spelling of a request and its relative spelling name the same
/// normalized remainder, hence the same lexical target.
pub proof fn lemma_absolute_equivalence(root: Seq<char>, req: Seq<char>)
    ensures
        strip_abs(seq!['/'] + req) == strip_abs(req),
        lexical_target(root, strip_abs(seq!['/'] + req)) == lexical_target(root, strip_abs(req)),
        leading_dot(strip_abs(seq!['/'] + req)) == leading_dot(strip_abs(req)),
{
    lemma_strip_prepend_sep(req);
}

} // verus!
