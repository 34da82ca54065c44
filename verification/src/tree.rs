//! The project tree of a workspace: project paths grouped by directory, and
//! the lines that draw it.
use vstd::prelude::*;
use vstd::string::*;

use crate::text;

verus! {

/// A node of the project tree: a project, a directory on the way to one, or
/// a meta repository holding nested projects.
pub struct TreeNode {
    pub name: String,
    pub full_path: String,
    pub is_meta: bool,
    pub is_directory: bool,
    pub is_symlink: bool,
    pub children: Vec<TreeNode>,
}

/// The mathematical value of a [`TreeNode`].
pub struct TreeView {
    pub name: Seq<char>,
    pub full_path: Seq<char>,
    pub is_meta: bool,
    pub is_directory: bool,
    pub is_symlink: bool,
    pub children: Seq<TreeView>,
}

/// The values of a list of nodes.
pub open spec fn forest_view(v: Seq<TreeNode>) -> Seq<TreeView>
    decreases v,
{
    if v.len() == 0 {
        Seq::empty()
    } else {
        forest_view(v.drop_last()).push(node_view(v.last()))
    }
}

/// The value of a node.
pub open spec fn node_view(n: TreeNode) -> TreeView
    decreases n,
{
    TreeView {
        name: n.name@,
        full_path: n.full_path@,
        is_meta: n.is_meta,
        is_directory: n.is_directory,
        is_symlink: n.is_symlink,
        children: forest_view(n.children@),
    }
}

/// A list of nodes and its values agree position by position.
pub proof fn lemma_forest_view(v: Seq<TreeNode>)
    ensures
        forest_view(v).len() == v.len(),
        forall|i: int| 0 <= i < v.len() ==> #[trigger] forest_view(v)[i] == node_view(v[i]),
    decreases v.len(),
{
    if v.len() > 0 {
        lemma_forest_view(v.drop_last());
    }
}

// ---------------------------------------------------------------------------
// Order of siblings
// ---------------------------------------------------------------------------

/// Directories come first, then meta repositories, then projects.
pub open spec fn rank(n: TreeView) -> int {
    if n.is_directory {
        0
    } else if n.is_meta {
        1
    } else {
        2
    }
}

/// `a` comes before `b` in the order of strings (character by character,
/// a proper prefix first).
pub open spec fn name_lt(a: Seq<char>, b: Seq<char>) -> bool
    decreases a.len(),
{
    if a.len() == 0 {
        b.len() > 0
    } else if b.len() == 0 {
        false
    } else if a[0] != b[0] {
        (a[0] as u32) < (b[0] as u32)
    } else {
        name_lt(a.drop_first(), b.drop_first())
    }
}

/// No name comes before itself.
pub proof fn lemma_name_lt_irreflexive(a: Seq<char>)
    ensures
        !name_lt(a, a),
    decreases a.len(),
{
    if a.len() > 0 {
        lemma_name_lt_irreflexive(a.drop_first());
    }
}

/// Of two different names, one comes before the other.
pub proof fn lemma_name_lt_total(a: Seq<char>, b: Seq<char>)
    requires
        a != b,
    ensures
        name_lt(a, b) || name_lt(b, a),
    decreases a.len(),
{
    if a.len() > 0 && b.len() > 0 && a[0] == b[0] {
        if a.drop_first() == b.drop_first() {
            assert(a =~= seq![a[0]] + a.drop_first());
            assert(b =~= seq![b[0]] + b.drop_first());
        }
        lemma_name_lt_total(a.drop_first(), b.drop_first());
    } else if a.len() > 0 && b.len() > 0 {
        vstd::utf8::char_u32_cast(a[0], a[0] as u32);
        vstd::utf8::char_u32_cast(b[0], b[0] as u32);
    } else if a.len() == 0 && b.len() == 0 {
        assert(a =~= b);
    }
}

/// The order of names is transitive.
pub proof fn lemma_name_lt_transitive(a: Seq<char>, b: Seq<char>, c: Seq<char>)
    requires
        name_lt(a, b),
        name_lt(b, c),
    ensures
        name_lt(a, c),
    decreases a.len(),
{
    if a.len() > 0 && a[0] == b[0] && b[0] == c[0] {
        lemma_name_lt_transitive(a.drop_first(), b.drop_first(), c.drop_first());
    }
}

/// Sibling `a` is drawn before sibling `b`: by rank, then by name.
pub open spec fn precedes(a: TreeView, b: TreeView) -> bool {
    rank(a) < rank(b) || (rank(a) == rank(b) && name_lt(a.name, b.name))
}

/// The position in `rem` of the first of the remaining siblings that no
/// other remaining sibling precedes.
pub open spec fn first_least(ns: Seq<TreeView>, rem: Seq<int>) -> int
    decreases rem.len(),
{
    if rem.len() <= 1 {
        0
    } else {
        let t = 1 + first_least(ns, rem.drop_first());
        if precedes(ns[rem[t]], ns[rem[0]]) {
            t
        } else {
            0
        }
    }
}

/// The first least position is a position of `rem`.
pub proof fn lemma_first_least_bounds(ns: Seq<TreeView>, rem: Seq<int>)
    ensures
        rem.len() > 0 ==> 0 <= first_least(ns, rem) < rem.len(),
    decreases rem.len(),
{
    if rem.len() > 1 {
        lemma_first_least_bounds(ns, rem.drop_first());
    }
}

/// The remaining siblings in drawing order: repeatedly the first least one
/// (so siblings that neither precedes keep their order, as a stable sort
/// keeps them).
pub open spec fn sort_from(ns: Seq<TreeView>, rem: Seq<int>) -> Seq<int>
    decreases rem.len(),
{
    if rem.len() == 0 {
        Seq::empty()
    } else {
        let m = first_least(ns, rem);
        proof {
            lemma_first_least_bounds(ns, rem);
        }
        seq![rem[m]] + sort_from(ns, rem.remove(m))
    }
}

/// The positions of siblings in drawing order.
pub open spec fn sibling_order(ns: Seq<TreeView>) -> Seq<int> {
    sort_from(ns, Seq::new(ns.len(), |i: int| i))
}

/// Neither of two siblings precedes the other in both directions.
proof fn lemma_precedes_asymmetric(a: TreeView, b: TreeView)
    ensures
        precedes(a, b) ==> !precedes(b, a),
{
    if precedes(a, b) && precedes(b, a) {
        lemma_name_lt_transitive(a.name, b.name, a.name);
        lemma_name_lt_irreflexive(a.name);
    }
}

/// Not preceding is transitive: if `t` does not precede `x` and `z` does not
/// precede `t`, then `z` does not precede `x`.
proof fn lemma_not_precedes_transitive(x: TreeView, t: TreeView, z: TreeView)
    requires
        !precedes(t, x),
        !precedes(z, t),
    ensures
        !precedes(z, x),
{
    if precedes(z, x) && rank(z) == rank(x) {
        if z.name != t.name {
            lemma_name_lt_total(z.name, t.name);
            lemma_name_lt_transitive(t.name, z.name, x.name);
        }
    }
}

/// No remaining sibling precedes the first least one.
proof fn lemma_first_least_is_least(ns: Seq<TreeView>, rem: Seq<int>)
    requires
        rem.len() > 0,
    ensures
        forall|j: int| 0 <= j < rem.len() ==> !precedes(ns[#[trigger] rem[j]], ns[rem[first_least(ns, rem)]]),
    decreases rem.len(),
{
    lemma_name_lt_irreflexive(ns[rem[first_least(ns, rem)]].name);
    if rem.len() > 1 {
        let rest = rem.drop_first();
        lemma_first_least_is_least(ns, rest);
        lemma_first_least_bounds(ns, rest);
        let t = 1 + first_least(ns, rest);
        assert(rem[t] == rest[t - 1]);
        let m = first_least(ns, rem);
        lemma_precedes_asymmetric(ns[rem[t]], ns[rem[0]]);
        assert forall|j: int| 0 <= j < rem.len() implies !precedes(ns[#[trigger] rem[j]], ns[rem[m]]) by {
            if j > 0 {
                assert(rem[j] == rest[j - 1]);
                if m == 0 {
                    lemma_not_precedes_transitive(ns[rem[0]], ns[rem[t]], ns[rem[j]]);
                }
            }
        }
    }
}

/// The drawing order of the remaining siblings holds each of them once, and
/// never puts a sibling after one that it precedes.
proof fn lemma_sort_from_sorted(ns: Seq<TreeView>, rem: Seq<int>)
    ensures
        sort_from(ns, rem).len() == rem.len(),
        forall|y: int| 0 <= y < rem.len() ==> rem.contains(#[trigger] sort_from(ns, rem)[y]),
        forall|x: int, y: int|
            0 <= x < y < rem.len() ==> !precedes(ns[sort_from(ns, rem)[y]], ns[sort_from(ns, rem)[x]]),
    decreases rem.len(),
{
    if rem.len() > 0 {
        let m = first_least(ns, rem);
        lemma_first_least_bounds(ns, rem);
        lemma_first_least_is_least(ns, rem);
        let rest = rem.remove(m);
        lemma_sort_from_sorted(ns, rest);
        let s = sort_from(ns, rem);
        let r = sort_from(ns, rest);
        assert(s == seq![rem[m]] + r);
        assert forall|y: int| 0 <= y < rem.len() implies rem.contains(#[trigger] s[y]) by {
            if y == 0 {
                assert(s[0] == rem[m]);
            } else {
                assert(s[y] == r[y - 1]);
                assert(rest.contains(r[y - 1]));
                let j = choose|j: int| 0 <= j < rest.len() && rest[j] == r[y - 1];
                if j < m {
                    assert(rest[j] == rem[j]);
                } else {
                    assert(rest[j] == rem[j + 1]);
                }
            }
        }
        assert forall|x: int, y: int| 0 <= x < y < rem.len() implies !precedes(ns[s[y]], ns[s[x]]) by {
            assert(s[y] == r[y - 1]);
            if x == 0 {
                assert(s[0] == rem[m]);
                assert(rest.contains(r[y - 1]));
                let j = choose|j: int| 0 <= j < rest.len() && rest[j] == r[y - 1];
                if j < m {
                    assert(rest[j] == rem[j]);
                } else {
                    assert(rest[j] == rem[j + 1]);
                }
            } else {
                assert(s[x] == r[x - 1]);
            }
        }
    }
}

/// A directory comes before every sibling that is not one, and a meta
/// repository before every plain project, whatever their names.
pub proof fn law_directories_then_meta_repos_first(a: TreeView, b: TreeView)
    ensures
        a.is_directory && !b.is_directory ==> precedes(a, b) && !precedes(b, a),
        !a.is_directory && a.is_meta && !b.is_directory && !b.is_meta ==> precedes(a, b) && !precedes(
            b,
            a,
        ),
{
}

/// In the drawing order of siblings, directories come first, then meta
/// repositories, then plain projects, whatever their names: whatever is
/// drawn before a directory is a directory, and whatever is drawn before a
/// meta repository is a directory or a meta repository.
pub proof fn law_drawing_order_by_kind(ns: Seq<TreeView>)
    ensures
        sibling_order(ns).len() == ns.len(),
        forall|x: int, y: int|
            #![trigger sibling_order(ns)[x], sibling_order(ns)[y]]
            0 <= x < y < ns.len() ==> (ns[sibling_order(ns)[y]].is_directory
                ==> ns[sibling_order(ns)[x]].is_directory),
        forall|x: int, y: int|
            #![trigger sibling_order(ns)[x], sibling_order(ns)[y]]
            0 <= x < y < ns.len() ==> (ns[sibling_order(ns)[y]].is_meta
                ==> ns[sibling_order(ns)[x]].is_directory || ns[sibling_order(ns)[x]].is_meta),
{
    let idx = Seq::new(ns.len(), |i: int| i);
    lemma_sort_from_sorted(ns, idx);
    let o = sibling_order(ns);
    assert(o == sort_from(ns, idx));
    assert forall|x: int, y: int| 0 <= x < y < ns.len() implies rank(ns[#[trigger] o[x]]) <= rank(
        ns[#[trigger] o[y]],
    ) by {
        assert(!precedes(ns[o[y]], ns[o[x]]));
    }
}

/// Siblings of the same kind (two directories, two meta repositories, two
/// plain projects) are drawn in the order of their names: a sibling drawn
/// later never has a name that comes before the earlier one's.
pub proof fn law_drawing_order_by_name(ns: Seq<TreeView>)
    ensures
        forall|x: int, y: int|
            #![trigger sibling_order(ns)[x], sibling_order(ns)[y]]
            0 <= x < y < ns.len() && ({
                let a = ns[sibling_order(ns)[x]];
                let b = ns[sibling_order(ns)[y]];
                (a.is_directory && b.is_directory) || (!a.is_directory && !b.is_directory && a.is_meta
                    == b.is_meta)
            }) ==> !name_lt(ns[sibling_order(ns)[y]].name, ns[sibling_order(ns)[x]].name),
{
    let idx = Seq::new(ns.len(), |i: int| i);
    lemma_sort_from_sorted(ns, idx);
    let o = sibling_order(ns);
    assert(o == sort_from(ns, idx));
    assert forall|x: int, y: int| 0 <= x < y < ns.len() implies !precedes(
        ns[#[trigger] o[y]],
        ns[#[trigger] o[x]],
    ) by {}
}

// ---------------------------------------------------------------------------
// Drawing
// ---------------------------------------------------------------------------

/// How a node is named in the drawing: directories and meta repositories
/// end in `/`, unless they are symbolic links.
pub open spec fn display_name(n: TreeView) -> Seq<char> {
    if n.is_symlink {
        n.name
    } else if n.is_meta || n.is_directory {
        n.name + seq!['/']
    } else {
        n.name
    }
}

/// The line of a node: the prefix, the connector (`└──` for the last
/// sibling, `├──` otherwise), a space and the node's name.
pub open spec fn tree_line(prefix: Seq<char>, last: bool, n: TreeView) -> Seq<char> {
    prefix + (if last {
        "└──"@
    } else {
        "├──"@
    }) + seq![' '] + display_name(n)
}

/// The prefix of a node's children: blank under the last sibling, a bar
/// otherwise.
pub open spec fn child_prefix(prefix: Seq<char>, last: bool) -> Seq<char> {
    prefix + (if last {
        "    "@
    } else {
        "│   "@
    })
}

/// The lines of the siblings `ns` from the `k`-th in `order` on, each
/// followed by the lines of its children.
pub open spec fn lines_from(ns: Seq<TreeView>, order: Seq<int>, k: int, prefix: Seq<char>) -> Seq<Seq<char>>
    decreases ns, order.len() - k,
{
    if k < 0 || k >= order.len() || !(0 <= order[k] < ns.len()) {
        Seq::empty()
    } else {
        let n = ns[order[k]];
        let last = k == order.len() - 1;
        let below = if n.children.len() > 0 {
            proof {
                assert(decreases_to!(ns => ns[order[k]]));
                assert(decreases_to!(ns[order[k]] => ns[order[k]].children));
            }
            lines_from(n.children, sibling_order(n.children), 0, child_prefix(prefix, last))
        } else {
            Seq::empty()
        };
        seq![tree_line(prefix, last, n)] + below + lines_from(ns, order, k + 1, prefix)
    }
}

/// The drawing of a list of siblings and everything below them.
pub open spec fn forest_lines(ns: Seq<TreeView>, prefix: Seq<char>) -> Seq<Seq<char>> {
    lines_from(ns, sibling_order(ns), 0, prefix)
}

// ---------------------------------------------------------------------------
// Drawing, in code
// ---------------------------------------------------------------------------

/// A sequence of positions as integers.
pub open spec fn ints(v: Seq<usize>) -> Seq<int> {
    v.map_values(|x: usize| x as int)
}

/// Appends the characters of `s`.
fn append_chars(v: &mut Vec<char>, s: &str)
    ensures
        final(v)@ == old(v)@ + s@,
{
    let w = text::chars_of(s);
    let ghost start = v@;
    let mut i: usize = 0;
    while i < w.len()
        invariant
            i <= w.len(),
            v@ == start + w@.take(i as int),
        decreases w.len() - i,
    {
        v.push(w[i]);
        assert(start + w@.take(i + 1) =~= (start + w@.take(i as int)).push(w@[i as int]));
        i += 1;
    }
    assert(w@.take(w.len() as int) =~= w@);
}

/// Whether name `a` comes before name `b`.
pub(crate) fn name_before(a: &String, b: &String) -> (r: bool)
    ensures
        r == name_lt(a@, b@),
{
    let x = text::chars_of(a.as_str());
    let y = text::chars_of(b.as_str());
    let mut i: usize = 0;
    assert(x@.skip(0) =~= x@);
    assert(y@.skip(0) =~= y@);
    while i < x.len() && i < y.len()
        invariant
            i <= x.len(),
            i <= y.len(),
            name_lt(a@, b@) == name_lt(x@.skip(i as int), y@.skip(i as int)),
            x@ == a@,
            y@ == b@,
        decreases x.len() - i,
    {
        assert(x@.skip(i as int)[0] == x@[i as int]);
        assert(y@.skip(i as int)[0] == y@[i as int]);
        if x[i] != y[i] {
            return (x[i] as u32) < (y[i] as u32);
        }
        assert(x@.skip(i as int).drop_first() =~= x@.skip(i + 1));
        assert(y@.skip(i as int).drop_first() =~= y@.skip(i + 1));
        i += 1;
    }
    assert(x@.skip(i as int).len() == 0 || y@.skip(i as int).len() == 0);
    i >= x.len() && i < y.len()
}

/// The rank of a node.
fn rank_of(n: &TreeNode) -> (r: u8)
    ensures
        r as int == rank(node_view(*n)),
{
    if n.is_directory {
        0
    } else if n.is_meta {
        1
    } else {
        2
    }
}

/// Whether sibling `a` is drawn before sibling `b`.
fn node_before(a: &TreeNode, b: &TreeNode) -> (r: bool)
    ensures
        r == precedes(node_view(*a), node_view(*b)),
{
    let ra = rank_of(a);
    let rb = rank_of(b);
    ra < rb || (ra == rb && name_before(&a.name, &b.name))
}

/// The position in `rem` of the first least remaining sibling.
fn first_least_of(nodes: &Vec<TreeNode>, rem: &Vec<usize>) -> (r: usize)
    requires
        rem.len() > 0,
        forall|j: int| 0 <= j < rem.len() ==> (#[trigger] rem@[j]) < nodes.len(),
    ensures
        r as int == first_least(forest_view(nodes@), ints(rem@)),
        r < rem.len(),
{
    let ghost ns = forest_view(nodes@);
    let ghost ri = ints(rem@);
    proof {
        lemma_forest_view(nodes@);
    }
    let mut cur: usize = rem.len() - 1;
    let mut j: usize = rem.len() - 1;
    assert(ri.skip(j as int).len() == 1);
    while j > 0
        invariant
            0 <= j <= cur < rem.len(),
            ns == forest_view(nodes@),
            ri == ints(rem@),
            forall|q: int| 0 <= q < rem.len() ==> (#[trigger] rem@[q]) < nodes.len(),
            forall|i: int| 0 <= i < nodes.len() ==> #[trigger] ns[i] == node_view(nodes@[i]),
            cur as int == j + first_least(ns, ri.skip(j as int)),
        decreases j,
    {
        let ghost sk = ri.skip(j - 1);
        assert(sk.drop_first() =~= ri.skip(j as int));
        assert(sk[0] == rem@[j - 1] as int);
        proof {
            lemma_first_least_bounds(ns, ri.skip(j as int));
        }
        assert(sk[cur - (j - 1)] == rem@[cur as int] as int);
        if !node_before(&nodes[rem[cur]], &nodes[rem[j - 1]]) {
            cur = j - 1;
        }
        j -= 1;
    }
    assert(ri.skip(0) =~= ri);
    cur
}

/// The positions of the siblings in drawing order.
fn sibling_order_of(nodes: &Vec<TreeNode>) -> (r: Vec<usize>)
    ensures
        ints(r@) == sibling_order(forest_view(nodes@)),
        forall|j: int| 0 <= j < r.len() ==> (#[trigger] r@[j]) < nodes.len(),
        r.len() == nodes.len(),
{
    let ghost ns = forest_view(nodes@);
    let mut rem: Vec<usize> = Vec::new();
    let mut i: usize = 0;
    while i < nodes.len()
        invariant
            i <= nodes.len(),
            ints(rem@) =~= Seq::new(i as nat, |k: int| k),
            rem.len() == i,
            forall|j: int| 0 <= j < rem.len() ==> (#[trigger] rem@[j]) < nodes.len(),
        decreases nodes.len() - i,
    {
        let ghost before = ints(rem@);
        rem.push(i);
        assert(ints(rem@) =~= before.push(i as int));
        i += 1;
    }
    proof {
        lemma_forest_view(nodes@);
    }
    let ghost init = ints(rem@);
    assert(init =~= Seq::new(ns.len(), |k: int| k));
    let mut out: Vec<usize> = Vec::new();
    assert(ints(out@) =~= Seq::<int>::empty());
    while rem.len() > 0
        invariant
            ns == forest_view(nodes@),
            ints(out@) + sort_from(ns, ints(rem@)) == sort_from(ns, init),
            forall|j: int| 0 <= j < rem.len() ==> (#[trigger] rem@[j]) < nodes.len(),
            forall|j: int| 0 <= j < out.len() ==> (#[trigger] out@[j]) < nodes.len(),
            out.len() + rem.len() == nodes.len(),
        decreases rem.len(),
    {
        let m = first_least_of(nodes, &rem);
        let ghost before_rem = ints(rem@);
        let ghost before_out = ints(out@);
        let x = rem.remove(m);
        out.push(x);
        assert(ints(rem@) =~= before_rem.remove(m as int));
        assert(ints(out@) =~= before_out.push(x as int));
        assert(ints(out@) + sort_from(ns, ints(rem@)) =~= before_out + sort_from(ns, before_rem));
    }
    assert(ints(out@) =~= ints(out@) + sort_from(ns, ints(rem@)));
    out
}

/// The line of a node.
fn line_of(prefix: &Vec<char>, last: bool, n: &TreeNode) -> (r: String)
    ensures
        r@ == tree_line(prefix@, last, node_view(*n)),
{
    let mut v = prefix.clone();
    if last {
        append_chars(&mut v, "└──");
    } else {
        append_chars(&mut v, "├──");
    }
    v.push(' ');
    append_chars(&mut v, n.name.as_str());
    if !n.is_symlink && (n.is_meta || n.is_directory) {
        v.push('/');
    }
    let ghost want = tree_line(prefix@, last, node_view(*n));
    assert(v@ =~= want);
    text::string_of(&v)
}

/// The prefix of a node's children.
fn prefix_below(prefix: &Vec<char>, last: bool) -> (r: Vec<char>)
    ensures
        r@ == child_prefix(prefix@, last),
{
    let mut v = prefix.clone();
    if last {
        append_chars(&mut v, "    ");
    } else {
        append_chars(&mut v, "│   ");
    }
    v
}

/// Appends the drawing of a list of siblings and everything below them.
fn draw_forest(nodes: &Vec<TreeNode>, prefix: &Vec<char>, out: &mut Vec<String>)
    ensures
        text::strings_view(final(out)@) == text::strings_view(old(out)@) + forest_lines(
            forest_view(nodes@),
            prefix@,
        ),
    decreases nodes@,
{
    let ghost ns = forest_view(nodes@);
    let order = sibling_order_of(nodes);
    let ghost ord = ints(order@);
    let ghost start = text::strings_view(out@);
    proof {
        lemma_forest_view(nodes@);
    }
    let mut k: usize = 0;
    while k < order.len()
        invariant
            k <= order.len(),
            order.len() == nodes.len(),
            ns == forest_view(nodes@),
            ns.len() == nodes.len(),
            ord == ints(order@),
            ord.len() == order.len(),
            ord == sibling_order(ns),
            forall|j: int| 0 <= j < order.len() ==> (#[trigger] order@[j]) < nodes.len(),
            forall|i: int| 0 <= i < nodes.len() ==> #[trigger] ns[i] == node_view(nodes@[i]),
            start + lines_from(ns, ord, 0, prefix@) == text::strings_view(out@) + lines_from(
                ns,
                ord,
                k as int,
                prefix@,
            ),
        decreases order.len() - k,
    {
        let i = order[k];
        let last = k == order.len() - 1;
        let node = &nodes[i];
        let ghost n = ns[i as int];
        assert(ord[k as int] == i as int);
        assert(n == node_view(*node));
        let ghost rest = lines_from(ns, ord, k + 1, prefix@);
        let ghost below = if n.children.len() > 0 {
            lines_from(n.children, sibling_order(n.children), 0, child_prefix(prefix@, last))
        } else {
            Seq::empty()
        };
        assert(lines_from(ns, ord, k as int, prefix@) == seq![tree_line(prefix@, last, n)] + below + rest);
        let ghost before = out@;
        let line = line_of(prefix, last, node);
        out.push(line);
        proof {
            text::lemma_strings_view_push(before, line);
        }
        proof {
            lemma_forest_view(node.children@);
        }
        if node.children.len() > 0 {
            let p = prefix_below(prefix, last);
            proof {
                assert(decreases_to!(nodes@ => nodes@[i as int]));
            }
            draw_forest(&node.children, &p, out);
        } else {
            assert(below =~= Seq::<Seq<char>>::empty());
        }
        assert(start + lines_from(ns, ord, 0, prefix@) =~= text::strings_view(out@) + rest);
        k += 1;
    }
}

/// The lines that draw a project tree under the given prefix: siblings
/// ordered by rank, then name, each followed by its children.
pub fn draw_tree(roots: &Vec<TreeNode>, prefix: &str) -> (r: Vec<String>)
    ensures
        text::strings_view(r@) == forest_lines(forest_view(roots@), prefix@),
{
    let mut out: Vec<String> = Vec::new();
    assert(text::strings_view(out@) =~= Seq::<Seq<char>>::empty());
    let p = text::chars_of(prefix);
    draw_forest(roots, &p, &mut out);
    assert(text::strings_view(out@) =~= forest_lines(forest_view(roots@), prefix@));
    out
}

// ---------------------------------------------------------------------------
// Building the tree
// ---------------------------------------------------------------------------

/// The position of the first sibling with the given name.
pub open spec fn find_named(ns: Seq<TreeView>, name: Seq<char>) -> Option<int>
    decreases ns.len(),
{
    if ns.len() == 0 {
        None
    } else if ns.last().name == name {
        match find_named(ns.drop_last(), name) {
            Some(i) => Some(i),
            None => Some(ns.len() - 1),
        }
    } else {
        find_named(ns.drop_last(), name)
    }
}

/// The components of a path joined with `/`.
pub open spec fn joined(parts: Seq<Seq<char>>) -> Seq<char>
    decreases parts.len(),
{
    if parts.len() == 0 {
        Seq::empty()
    } else if parts.len() == 1 {
        parts[0]
    } else {
        joined(parts.drop_last()) + seq!['/'] + parts.last()
    }
}

/// The siblings after the path `parts` (from its `k`-th component) is put
/// among them: the component is found by name, or a node is added for it;
/// a new node is a meta repository as `metas` (or, for the last component,
/// `leaf_meta`) says, and a directory when it is neither the last component
/// nor a meta repository; a new node at the top is known by its name, one
/// below by the whole path `full`; the rest of the path goes under it.
pub open spec fn insert_view(
    ns: Seq<TreeView>,
    parts: Seq<Seq<char>>,
    k: int,
    metas: Seq<bool>,
    leaf_meta: bool,
    full: Seq<char>,
) -> Seq<TreeView>
    decreases parts.len() - k,
{
    if k < 0 || k >= parts.len() {
        ns
    } else {
        let is_last = k == parts.len() - 1;
        match find_named(ns, parts[k]) {
            Some(i) => if is_last {
                ns
            } else {
                ns.update(
                    i,
                    TreeView {
                        children: insert_view(ns[i].children, parts, k + 1, metas, leaf_meta, full),
                        ..ns[i]
                    },
                )
            },
            None => {
                let is_meta = if is_last {
                    leaf_meta
                } else {
                    metas[k]
                };
                ns.push(
                    TreeView {
                        name: parts[k],
                        full_path: if k == 0 {
                            parts[k]
                        } else {
                            full
                        },
                        is_meta,
                        is_directory: !is_last && !is_meta,
                        is_symlink: false,
                        children: if is_last {
                            Seq::empty()
                        } else {
                            insert_view(Seq::empty(), parts, k + 1, metas, leaf_meta, full)
                        },
                    },
                )
            },
        }
    }
}

/// The node at the end of the path, if there is one.
pub open spec fn node_at(ns: Seq<TreeView>, parts: Seq<Seq<char>>, k: int) -> Option<TreeView>
    decreases parts.len() - k,
{
    if k < 0 || k >= parts.len() {
        None
    } else {
        match find_named(ns, parts[k]) {
            Some(i) => if k == parts.len() - 1 {
                Some(ns[i])
            } else {
                node_at(ns[i].children, parts, k + 1)
            },
            None => None,
        }
    }
}

/// A meta repository whose nested projects have not been read yet.
pub open spec fn awaits_nested(n: Option<TreeView>) -> bool {
    n matches Some(v) && v.is_meta && v.children.len() == 0
}

/// The found position is a position of a sibling with that name, before
/// which none has it.
proof fn lemma_find_named(ns: Seq<TreeView>, name: Seq<char>)
    ensures
        match find_named(ns, name) {
            Some(i) => 0 <= i < ns.len() && ns[i].name == name && forall|j: int| 0 <= j < i ==> ns[j].name != name,
            None => forall|j: int| 0 <= j < ns.len() ==> ns[j].name != name,
        },
    decreases ns.len(),
{
    if ns.len() > 0 {
        let w = ns.drop_last();
        lemma_find_named(w, name);
        assert(forall|j: int| 0 <= j < w.len() ==> w[j] == ns[j]);
        match find_named(w, name) {
            Some(i) => {
                assert(ns[i].name == name);
            },
            None => {},
        }
    }
}

/// Viewing nodes commutes with replacing one.
proof fn lemma_forest_view_update(v: Seq<TreeNode>, i: int, x: TreeNode)
    requires
        0 <= i < v.len(),
    ensures
        forest_view(v.update(i, x)) == forest_view(v).update(i, node_view(x)),
{
    lemma_forest_view(v);
    lemma_forest_view(v.update(i, x));
    assert(forest_view(v.update(i, x)) =~= forest_view(v).update(i, node_view(x)));
}

/// Viewing nodes commutes with appending one.
proof fn lemma_forest_view_push(v: Seq<TreeNode>, x: TreeNode)
    ensures
        forest_view(v.push(x)) == forest_view(v).push(node_view(x)),
{
    assert(v.push(x).drop_last() =~= v);
}

/// The position of the first sibling with the given name.
fn position_named(nodes: &Vec<TreeNode>, name: &String) -> (r: Option<usize>)
    ensures
        match r {
            Some(i) => find_named(forest_view(nodes@), name@) == Some(i as int) && i < nodes.len(),
            None => find_named(forest_view(nodes@), name@) is None,
        },
{
    proof {
        lemma_forest_view(nodes@);
        lemma_find_named(forest_view(nodes@), name@);
    }
    let mut i: usize = 0;
    while i < nodes.len()
        invariant
            i <= nodes.len(),
            forest_view(nodes@).len() == nodes.len(),
            forall|k: int| 0 <= k < nodes.len() ==> #[trigger] forest_view(nodes@)[k] == node_view(nodes@[k]),
            forall|j: int| 0 <= j < i ==> forest_view(nodes@)[j].name != name@,
        decreases nodes.len() - i,
    {
        if nodes[i].name == *name {
            proof {
                lemma_find_named(forest_view(nodes@), name@);
                assert(forest_view(nodes@)[i as int] == node_view(nodes@[i as int]));
                assert(forest_view(nodes@)[i as int].name == name@);
                match find_named(forest_view(nodes@), name@) {
                    Some(i0) => {
                        if i0 < i {
                            assert(forest_view(nodes@)[i0].name != name@);
                        }
                        if i0 > i {
                            assert(false);
                        }
                    },
                    None => {
                        assert(forest_view(nodes@)[i as int].name != name@);
                    },
                }
            }
            return Some(i);
        }
        i += 1;
    }
    None
}

/// Puts the path `parts` (from its `k`-th component) among the siblings
/// (see [`insert_view`]).
fn insert_from(
    nodes: &mut Vec<TreeNode>,
    parts: &Vec<String>,
    k: usize,
    metas: &Vec<bool>,
    leaf_meta: bool,
    full: &String,
)
    requires
        k < parts.len(),
        metas.len() == parts.len(),
    ensures
        forest_view(final(nodes)@) == insert_view(
            forest_view(old(nodes)@),
            text::strings_view(parts@),
            k as int,
            metas@,
            leaf_meta,
            full@,
        ),
    decreases parts.len() - k,
{
    let ghost pv = text::strings_view(parts@);
    let ghost before = forest_view(nodes@);
    proof {
        lemma_forest_view(nodes@);
    }
    let is_last = k + 1 == parts.len();
    match position_named(nodes, &parts[k]) {
        Some(i) => {
            if !is_last {
                let ghost old_node = nodes@[i as int];
                let mut node = nodes.remove(i);
                insert_from(&mut node.children, parts, k + 1, metas, leaf_meta, full);
                nodes.insert(i, node);
                proof {
                    assert(nodes@ =~= old(nodes)@.update(i as int, node));
                    lemma_forest_view_update(old(nodes)@, i as int, node);
                    assert(node_view(node) =~= TreeView {
                        children: insert_view(before[i as int].children, pv, k + 1, metas@, leaf_meta, full@),
                        ..before[i as int]
                    });
                }
            }
        },
        None => {
            let is_meta = if is_last {
                leaf_meta
            } else {
                metas[k]
            };
            let mut children: Vec<TreeNode> = Vec::new();
            if !is_last {
                insert_from(&mut children, parts, k + 1, metas, leaf_meta, full);
            }
            let node = TreeNode {
                name: parts[k].clone(),
                full_path: if k == 0 {
                    parts[k].clone()
                } else {
                    full.clone()
                },
                is_meta,
                is_directory: !is_last && !is_meta,
                is_symlink: false,
                children,
            };
            let ghost old_nodes = nodes@;
            nodes.push(node);
            proof {
                lemma_forest_view_push(old_nodes, node);
                if is_last {
                    assert(forest_view(node.children@) =~= Seq::<TreeView>::empty());
                } else {
                    assert(forest_view(Seq::<TreeNode>::empty()) =~= Seq::<TreeView>::empty());
                }
            }
        },
    }
}

/// The components joined with `/`.
fn join_parts(parts: &Vec<String>) -> (r: String)
    ensures
        r@ == joined(text::strings_view(parts@)),
{
    let ghost pv = text::strings_view(parts@);
    let mut v: Vec<char> = Vec::new();
    let mut i: usize = 0;
    assert(pv.take(0) =~= Seq::<Seq<char>>::empty());
    while i < parts.len()
        invariant
            i <= parts.len(),
            pv == text::strings_view(parts@),
            v@ == joined(pv.take(i as int)),
        decreases parts.len() - i,
    {
        let ghost t = pv.take(i + 1);
        assert(t.drop_last() =~= pv.take(i as int));
        assert(t.last() == parts@[i as int]@);
        if i > 0 {
            v.push('/');
        } else {
            assert(t.len() == 1);
        }
        append_chars(&mut v, parts[i].as_str());
        assert(v@ =~= joined(t));
        i += 1;
    }
    assert(pv.take(parts.len() as int) =~= pv);
    text::string_of(&v)
}

/// Whether the node at the end of the path awaits its nested projects.
fn leaf_awaits(nodes: &Vec<TreeNode>, parts: &Vec<String>, k: usize) -> (r: bool)
    requires
        k < parts.len(),
    ensures
        r == awaits_nested(node_at(forest_view(nodes@), text::strings_view(parts@), k as int)),
    decreases parts.len() - k,
{
    proof {
        lemma_forest_view(nodes@);
    }
    match position_named(nodes, &parts[k]) {
        Some(i) => {
            if k + 1 == parts.len() {
                proof {
                    lemma_forest_view(nodes@[i as int].children@);
                }
                nodes[i].is_meta && nodes[i].children.len() == 0
            } else {
                leaf_awaits(&nodes[i].children, parts, k + 1)
            }
        },
        None => false,
    }
}

/// Puts a project path (its components) into the tree (see
/// [`insert_view`]; nodes below the top are known by the whole path);
/// `metas[k]` tells whether the directory of the first `k + 1` components is
/// a meta repository, and `leaf_meta` whether the project itself is one.
/// Returns whether the project's node is a meta repository whose nested
/// projects have yet to be put under it.
pub fn insert_path(roots: &mut Vec<TreeNode>, parts: &Vec<String>, metas: &Vec<bool>, leaf_meta: bool) -> (r: bool)
    requires
        parts.len() > 0,
        metas.len() == parts.len(),
    ensures
        forest_view(final(roots)@) == insert_view(
            forest_view(old(roots)@),
            text::strings_view(parts@),
            0,
            metas@,
            leaf_meta,
            joined(text::strings_view(parts@)),
        ),
        r == awaits_nested(node_at(forest_view(final(roots)@), text::strings_view(parts@), 0)),
{
    let full = join_parts(parts);
    insert_from(roots, parts, 0, metas, leaf_meta, &full);
    leaf_awaits(roots, parts, 0)
}

// ---------------------------------------------------------------------------
// Order of the projects
// ---------------------------------------------------------------------------

/// The position in `rem` of the first least remaining name.
pub open spec fn first_least_name(ns: Seq<Seq<char>>, rem: Seq<int>) -> int
    decreases rem.len(),
{
    if rem.len() <= 1 {
        0
    } else {
        let t = 1 + first_least_name(ns, rem.drop_first());
        if name_lt(ns[rem[t]], ns[rem[0]]) {
            t
        } else {
            0
        }
    }
}

/// The first least name is at a position of `rem`.
pub proof fn lemma_first_least_name_bounds(ns: Seq<Seq<char>>, rem: Seq<int>)
    ensures
        rem.len() > 0 ==> 0 <= first_least_name(ns, rem) < rem.len(),
    decreases rem.len(),
{
    if rem.len() > 1 {
        lemma_first_least_name_bounds(ns, rem.drop_first());
    }
}

/// The remaining names in order: repeatedly the first least one.
pub open spec fn names_from(ns: Seq<Seq<char>>, rem: Seq<int>) -> Seq<Seq<char>>
    decreases rem.len(),
{
    if rem.len() == 0 {
        Seq::empty()
    } else {
        let m = first_least_name(ns, rem);
        proof {
            lemma_first_least_name_bounds(ns, rem);
        }
        seq![ns[rem[m]]] + names_from(ns, rem.remove(m))
    }
}

/// The names in the order of strings (equal names keep their order).
pub open spec fn sorted_names(ns: Seq<Seq<char>>) -> Seq<Seq<char>> {
    names_from(ns, Seq::new(ns.len(), |i: int| i))
}

/// The position in `rem` of the first least remaining name.
fn first_least_name_of(names: &Vec<String>, rem: &Vec<usize>) -> (r: usize)
    requires
        rem.len() > 0,
        forall|j: int| 0 <= j < rem.len() ==> (#[trigger] rem@[j]) < names.len(),
    ensures
        r as int == first_least_name(text::strings_view(names@), ints(rem@)),
        r < rem.len(),
{
    let ghost ns = text::strings_view(names@);
    let ghost ri = ints(rem@);
    let mut cur: usize = rem.len() - 1;
    let mut j: usize = rem.len() - 1;
    assert(ri.skip(j as int).len() == 1);
    while j > 0
        invariant
            0 <= j <= cur < rem.len(),
            ns == text::strings_view(names@),
            ri == ints(rem@),
            forall|q: int| 0 <= q < rem.len() ==> (#[trigger] rem@[q]) < names.len(),
            cur as int == j + first_least_name(ns, ri.skip(j as int)),
        decreases j,
    {
        let ghost sk = ri.skip(j - 1);
        assert(sk.drop_first() =~= ri.skip(j as int));
        assert(sk[0] == rem@[j - 1] as int);
        proof {
            lemma_first_least_name_bounds(ns, ri.skip(j as int));
        }
        assert(sk[cur - (j - 1)] == rem@[cur as int] as int);
        if !name_before(&names[rem[cur]], &names[rem[j - 1]]) {
            cur = j - 1;
        }
        j -= 1;
    }
    assert(ri.skip(0) =~= ri);
    cur
}

/// The project names in the order the tree takes them in.
pub fn sort_names(names: &Vec<String>) -> (r: Vec<String>)
    ensures
        text::strings_view(r@) == sorted_names(text::strings_view(names@)),
{
    let ghost ns = text::strings_view(names@);
    let mut rem: Vec<usize> = Vec::new();
    let mut i: usize = 0;
    while i < names.len()
        invariant
            i <= names.len(),
            ints(rem@) =~= Seq::new(i as nat, |k: int| k),
            rem.len() == i,
            forall|j: int| 0 <= j < rem.len() ==> (#[trigger] rem@[j]) < names.len(),
        decreases names.len() - i,
    {
        let ghost before = ints(rem@);
        rem.push(i);
        assert(ints(rem@) =~= before.push(i as int));
        i += 1;
    }
    let ghost init = ints(rem@);
    assert(init =~= Seq::new(ns.len(), |k: int| k));
    let mut out: Vec<String> = Vec::new();
    assert(text::strings_view(out@) =~= Seq::<Seq<char>>::empty());
    while rem.len() > 0
        invariant
            ns == text::strings_view(names@),
            text::strings_view(out@) + names_from(ns, ints(rem@)) == names_from(ns, init),
            forall|j: int| 0 <= j < rem.len() ==> (#[trigger] rem@[j]) < names.len(),
        decreases rem.len(),
    {
        let m = first_least_name_of(names, &rem);
        let ghost before_rem = ints(rem@);
        let ghost before_out = out@;
        let x = rem.remove(m);
        let s = names[x].clone();
        out.push(s);
        proof {
            text::lemma_strings_view_push(before_out, s);
        }
        assert(ints(rem@) =~= before_rem.remove(m as int));
        assert(text::strings_view(out@) + names_from(ns, ints(rem@)) =~= text::strings_view(before_out)
            + names_from(ns, before_rem));
    }
    assert(text::strings_view(out@) =~= text::strings_view(out@) + names_from(ns, ints(rem@)));
    out
}

// ---------------------------------------------------------------------------
// Laws
// ---------------------------------------------------------------------------

/// Replacing a sibling by one of the same name finds the same position.
proof fn lemma_find_named_update(ns: Seq<TreeView>, i: int, x: TreeView, name: Seq<char>)
    requires
        0 <= i < ns.len(),
        x.name == ns[i].name,
    ensures
        find_named(ns.update(i, x), name) == find_named(ns, name),
    decreases ns.len(),
{
    let u = ns.update(i, x);
    if i < ns.len() - 1 {
        assert(u.drop_last() =~= ns.drop_last().update(i, x));
        lemma_find_named_update(ns.drop_last(), i, x, name);
    } else {
        assert(u.drop_last() =~= ns.drop_last());
    }
}

/// Appending a sibling with a name no other has finds it last.
proof fn lemma_find_named_push(ns: Seq<TreeView>, x: TreeView)
    requires
        find_named(ns, x.name) is None,
    ensures
        find_named(ns.push(x), x.name) == Some(ns.len() as int),
{
    assert(ns.push(x).drop_last() =~= ns);
}

/// A path put into the tree is found there afterwards, and its node bears
/// the last component's name.
pub proof fn law_inserted_path_is_found(
    ns: Seq<TreeView>,
    parts: Seq<Seq<char>>,
    k: int,
    metas: Seq<bool>,
    leaf_meta: bool,
    full: Seq<char>,
)
    requires
        0 <= k < parts.len(),
    ensures
        node_at(insert_view(ns, parts, k, metas, leaf_meta, full), parts, k) is Some,
        node_at(insert_view(ns, parts, k, metas, leaf_meta, full), parts, k).unwrap().name == parts.last(),
    decreases parts.len() - k,
{
    let is_last = k == parts.len() - 1;
    lemma_find_named(ns, parts[k]);
    match find_named(ns, parts[k]) {
        Some(i) => {
            if !is_last {
                let x = TreeView {
                    children: insert_view(ns[i].children, parts, k + 1, metas, leaf_meta, full),
                    ..ns[i]
                };
                lemma_find_named_update(ns, i, x, parts[k]);
                law_inserted_path_is_found(ns[i].children, parts, k + 1, metas, leaf_meta, full);
                assert(ns.update(i, x)[i] == x);
            }
        },
        None => {
            let is_meta = if is_last {
                leaf_meta
            } else {
                metas[k]
            };
            let x = TreeView {
                name: parts[k],
                full_path: if k == 0 {
                    parts[k]
                } else {
                    full
                },
                is_meta,
                is_directory: !is_last && !is_meta,
                is_symlink: false,
                children: if is_last {
                    Seq::empty()
                } else {
                    insert_view(Seq::empty(), parts, k + 1, metas, leaf_meta, full)
                },
            };
            lemma_find_named_push(ns, x);
            assert(ns.push(x)[ns.len() as int] == x);
            if !is_last {
                law_inserted_path_is_found(Seq::empty(), parts, k + 1, metas, leaf_meta, full);
            }
        },
    }
}

/// Putting a path into the tree a second time changes nothing.
pub proof fn law_insert_is_idempotent(
    ns: Seq<TreeView>,
    parts: Seq<Seq<char>>,
    k: int,
    metas: Seq<bool>,
    leaf_meta: bool,
    full: Seq<char>,
)
    requires
        0 <= k < parts.len(),
    ensures
        insert_view(insert_view(ns, parts, k, metas, leaf_meta, full), parts, k, metas, leaf_meta, full)
            == insert_view(ns, parts, k, metas, leaf_meta, full),
    decreases parts.len() - k,
{
    let once = insert_view(ns, parts, k, metas, leaf_meta, full);
    let is_last = k == parts.len() - 1;
    lemma_find_named(ns, parts[k]);
    match find_named(ns, parts[k]) {
        Some(i) => {
            if !is_last {
                let x = TreeView {
                    children: insert_view(ns[i].children, parts, k + 1, metas, leaf_meta, full),
                    ..ns[i]
                };
                lemma_find_named_update(ns, i, x, parts[k]);
                law_insert_is_idempotent(ns[i].children, parts, k + 1, metas, leaf_meta, full);
                assert(once[i] == x);
                assert(once.update(i, TreeView {
                    children: insert_view(x.children, parts, k + 1, metas, leaf_meta, full),
                    ..x
                }) =~= once);
            }
        },
        None => {
            let is_meta = if is_last {
                leaf_meta
            } else {
                metas[k]
            };
            let x = TreeView {
                name: parts[k],
                full_path: if k == 0 {
                    parts[k]
                } else {
                    full
                },
                is_meta,
                is_directory: !is_last && !is_meta,
                is_symlink: false,
                children: if is_last {
                    Seq::empty()
                } else {
                    insert_view(Seq::empty(), parts, k + 1, metas, leaf_meta, full)
                },
            };
            lemma_find_named_push(ns, x);
            let n = ns.len() as int;
            assert(once[n] == x);
            if !is_last {
                law_insert_is_idempotent(Seq::empty(), parts, k + 1, metas, leaf_meta, full);
                assert(once.update(n, TreeView {
                    children: insert_view(x.children, parts, k + 1, metas, leaf_meta, full),
                    ..x
                }) =~= once);
            }
        },
    }
}

} // verus!
