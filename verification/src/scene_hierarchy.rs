use vstd::prelude::*;

verus! {

/// A node of the flattened scene hierarchy: which node of the imported scene
/// it is, and the position of its parent in the flattened list.
#[derive(Clone, Copy, PartialEq, Eq, Structural, Debug)]
pub struct FlatNode {
    pub source: usize,
    pub parent_index: Option<usize>,
}

/// The children lists of an imported scene, node `0` being the root.
pub open spec fn tree_view(children: &Vec<Vec<usize>>) -> Seq<Seq<usize>> {
    Seq::new(children@.len(), |v: int| children@[v]@)
}

/// Each child is numbered after its parent, so that a walk from the root
/// always ends.
pub open spec fn tree_wf(tree: Seq<Seq<usize>>) -> bool {
    forall|v: int, k: int|
        0 <= v < tree.len() && 0 <= k < tree[v].len() ==> v < #[trigger] tree[v][k] < tree.len()
}

/// The children of one node, last child first, each pointing at the parent's
/// position `parent_index`.
pub open spec fn reversed_block(kids: Seq<usize>, parent_index: int) -> Seq<FlatNode> {
    Seq::new(
        kids.len(),
        |k: int| FlatNode { source: kids[kids.len() - 1 - k], parent_index: Some(parent_index as usize) },
    )
}

/// The entries the walk appends below node `v`, which stands at position
/// `v_index`, when the list holds `start` entries before: the children of
/// `v` last child first, then for each child in order the entries appended
/// below it.
pub open spec fn emitted(tree: Seq<Seq<usize>>, v: int, v_index: int, start: int) -> Seq<FlatNode>
    decreases tree.len() - v, tree[v].len() + 1,
{
    if 0 <= v < tree.len() {
        reversed_block(tree[v], v_index) + children_emitted(tree, v, start, tree[v].len() as int)
    } else {
        Seq::empty()
    }
}

/// The entries appended below the first `j` children of `v`, whose block of
/// children starts at position `start`.
pub open spec fn children_emitted(tree: Seq<Seq<usize>>, v: int, start: int, j: int) -> Seq<FlatNode>
    decreases tree.len() - v, j,
{
    if j <= 0 || !(0 <= v < tree.len()) || j > tree[v].len() {
        Seq::empty()
    } else {
        let prev = children_emitted(tree, v, start, j - 1);
        let m = tree[v].len() as int;
        let c = tree[v][j - 1] as int;
        if v < c < tree.len() {
            prev + emitted(tree, c, start + m - j, start + m + prev.len())
        } else {
            prev
        }
    }
}

/// The flattened hierarchy: the root first, then everything appended below it.
pub open spec fn spec_flatten(tree: Seq<Seq<usize>>) -> Seq<FlatNode> {
    seq![FlatNode { source: 0, parent_index: None }] + emitted(tree, 0, 0, 1)
}

/// Whether every child is numbered after its parent and names a node.
pub fn is_well_formed_tree(children: &Vec<Vec<usize>>) -> (b: bool)
    ensures
        b == tree_wf(tree_view(children)),
{
    let n = children.len();
    let mut v: usize = 0;
    while v < n
        invariant
            n == children@.len(),
            v <= n,
            forall|u: int, k: int|
                0 <= u < v && 0 <= k < children@[u]@.len() ==> u < #[trigger] children@[u]@[k] < n,
        decreases n - v,
    {
        let kids = &children[v];
        let mut k: usize = 0;
        while k < kids.len()
            invariant
                n == children@.len(),
                v < n,
                kids@ == children@[v as int]@,
                k <= kids@.len(),
                forall|u: int, kk: int|
                    0 <= u < v && 0 <= kk < children@[u]@.len() ==> u < #[trigger] children@[u]@[kk] < n,
                forall|kk: int| 0 <= kk < k ==> v < #[trigger] kids@[kk] < n,
            decreases kids@.len() - k,
        {
            let c = kids[k];
            if !(v < c && c < n) {
                proof {
                    let t = tree_view(children);
                    assert(t[v as int][k as int] == c);
                }
                return false;
            }
            k = k + 1;
        }
        v = v + 1;
    }
    let ghost t = tree_view(children);
    assert forall|u: int, k: int| 0 <= u < t.len() && 0 <= k < t[u].len() implies u < #[trigger] t[u][k] < t.len() by {
        assert(t[u] == children@[u]@);
    }
    true
}

fn visit(children: &Vec<Vec<usize>>, v: usize, v_index: usize, out: &mut Vec<FlatNode>)
    requires
        tree_wf(tree_view(children)),
        v < children@.len(),
    ensures
        final(out)@ == old(out)@ + emitted(tree_view(children), v as int, v_index as int, old(out)@.len() as int),
    decreases children@.len() - v,
{
    let ghost tree = tree_view(children);
    let ghost out0 = out@;
    let start = out.len();
    let kids = &children[v];
    assert(kids@ == tree[v as int]);
    let m = kids.len();
    let mut k: usize = 0;
    while k < m
        invariant
            m == kids@.len(),
            k <= m,
            start == out0.len(),
            out@ == out0 + reversed_block(kids@, v_index as int).subrange(0, k as int),
        decreases m - k,
    {
        out.push(FlatNode { source: kids[m - 1 - k], parent_index: Some(v_index) });
        k = k + 1;
        assert(reversed_block(kids@, v_index as int).subrange(0, k as int)
            =~= reversed_block(kids@, v_index as int).subrange(0, k - 1 as int).push(
                FlatNode { source: kids@[m - 1 - (k - 1)], parent_index: Some(v_index) }));
    }
    assert(reversed_block(kids@, v_index as int).subrange(0, m as int) =~= reversed_block(kids@, v_index as int));
    let mut j: usize = 0;
    while j < m
        invariant
            tree == tree_view(children),
            tree_wf(tree),
            v < children@.len(),
            kids@ == tree[v as int],
            m == kids@.len(),
            j <= m,
            start == out0.len(),
            out@ == out0 + reversed_block(kids@, v_index as int) + children_emitted(tree, v as int, start as int, j as int),
        decreases m - j,
    {
        let c = kids[j];
        assert(v < c < children@.len());
        let ghost before = out@;
        let ghost prev = children_emitted(tree, v as int, start as int, j as int);
        assert(before.len() == start + m + prev.len());
        let current_len = out.len();
        assert(current_len >= start + m);
        let c_index = start + (m - 1 - j);
        visit(children, c, c_index, out);
        j = j + 1;
        assert(children_emitted(tree, v as int, start as int, j as int)
            == prev + emitted(tree, c as int, start + m - j, start + m + prev.len()));
        assert(out@ =~= out0 + reversed_block(kids@, v_index as int) + children_emitted(tree, v as int, start as int, j as int));
    }
    assert(emitted(tree, v as int, v_index as int, start as int)
        == reversed_block(tree[v as int], v_index as int) + children_emitted(tree, v as int, start as int, m as int));
    assert(out@ =~= out0 + emitted(tree, v as int, v_index as int, start as int));
}

/// Flattens the hierarchy of an imported scene: the root first, then, walking
/// the nodes depth first with the first child first, the children of each
/// node appended last child first, each pointing at its parent's position.
pub fn flatten_scene_hierarchy(children: &Vec<Vec<usize>>) -> (nodes: Vec<FlatNode>)
    requires
        children@.len() > 0,
        tree_wf(tree_view(children)),
    ensures
        nodes@ == spec_flatten(tree_view(children)),
{
    let mut nodes: Vec<FlatNode> = Vec::new();
    nodes.push(FlatNode { source: 0, parent_index: None });
    visit(children, 0, 0, &mut nodes);
    assert(nodes@ =~= spec_flatten(tree_view(children)));
    nodes
}

/// Every entry after the first points at an earlier entry whose node has the
/// entry's node among its children.
pub open spec fn parents_precede(tree: Seq<Seq<usize>>, out: Seq<FlatNode>) -> bool {
    forall|i: int| 1 <= i < out.len() ==> {
        &&& (#[trigger] out[i]).parent_index is Some
        &&& out[i].parent_index.unwrap() < i
        &&& tree[out[out[i].parent_index.unwrap() as int].source as int].contains(out[i].source)
    }
}

#[verifier::spinoff_prover]
#[verifier::rlimit(40)]
proof fn lemma_emitted_parents(tree: Seq<Seq<usize>>, v: int, v_index: int, prefix: Seq<FlatNode>)
    requires
        tree_wf(tree),
        0 <= v < tree.len(),
        1 <= prefix.len(),
        0 <= v_index < prefix.len(),
        prefix[v_index].source == v,
        parents_precede(tree, prefix),
        prefix.len() + emitted(tree, v, v_index, prefix.len() as int).len() <= usize::MAX,
    ensures
        parents_precede(tree, prefix + emitted(tree, v, v_index, prefix.len() as int)),
    decreases tree.len() - v, tree[v].len() + 1,
{
    let kids = tree[v];
    let m = kids.len() as int;
    let start = prefix.len() as int;
    let base = prefix + reversed_block(kids, v_index);
    assert forall|i: int| 1 <= i < base.len() implies {
        &&& (#[trigger] base[i]).parent_index is Some
        &&& base[i].parent_index.unwrap() < i
        &&& tree[base[base[i].parent_index.unwrap() as int].source as int].contains(base[i].source)
    } by {
        if i >= start {
            let k = i - start;
            assert(base[i] == reversed_block(kids, v_index)[k]);
            assert(base[v_index] == prefix[v_index]);
            assert(base[i].parent_index.unwrap() as int == v_index);
            assert(kids[m - 1 - k] == kids[m - 1 - k]);
            assert(kids.contains(kids[m - 1 - k]));
        } else {
            assert(base[i] == prefix[i]);
            assert(base[prefix[i].parent_index.unwrap() as int] == prefix[prefix[i].parent_index.unwrap() as int]);
        }
    }
    assert(emitted(tree, v, v_index, start) == reversed_block(kids, v_index) + children_emitted(tree, v, start, m));
    lemma_children_parents(tree, v, start, m, base);
    assert(prefix + emitted(tree, v, v_index, start) =~= base + children_emitted(tree, v, start, m));
}

proof fn lemma_children_parents(tree: Seq<Seq<usize>>, v: int, start: int, j: int, base: Seq<FlatNode>)
    requires
        tree_wf(tree),
        0 <= v < tree.len(),
        0 <= j <= tree[v].len(),
        1 <= start,
        base.len() == start + tree[v].len(),
        forall|k: int| 0 <= k < tree[v].len() ==> #[trigger] base[start + k].source == tree[v][tree[v].len() - 1 - k],
        parents_precede(tree, base),
        base.len() + children_emitted(tree, v, start, j).len() <= usize::MAX,
    ensures
        parents_precede(tree, base + children_emitted(tree, v, start, j)),
    decreases tree.len() - v, j,
{
    if j > 0 {
        let m = tree[v].len() as int;
        let prev = children_emitted(tree, v, start, j - 1);
        assert(children_emitted(tree, v, start, j) == prev + emitted(tree, tree[v][j - 1] as int, start + m - j, start + m + prev.len()));
        lemma_children_parents(tree, v, start, j - 1, base);
        let cur = base + prev;
        let c = tree[v][j - 1] as int;
        let c_index = start + m - j;
        assert(v < c < tree.len());
        let k = m - j;
        assert(base[start + k].source == tree[v][m - 1 - k]);
        assert(cur[c_index] == base[c_index]);
        lemma_emitted_parents(tree, c, c_index, cur);
        assert(cur.len() == start + m + prev.len());
        assert(base + children_emitted(tree, v, start, j) =~= cur + emitted(tree, c, c_index, start + m + prev.len()));
    } else {
        assert(base + children_emitted(tree, v, start, j) =~= base);
    }
}

/// In the flattened hierarchy the root comes first with no parent, and every
/// other node points at an earlier entry whose node has it as a child.
pub proof fn law_flattened_parents_precede(tree: Seq<Seq<usize>>)
    requires
        tree.len() > 0,
        tree_wf(tree),
        spec_flatten(tree).len() <= usize::MAX,
    ensures
        spec_flatten(tree)[0] == (FlatNode { source: 0, parent_index: None }),
        parents_precede(tree, spec_flatten(tree)),
{
    let root = seq![FlatNode { source: 0, parent_index: None }];
    assert(parents_precede(tree, root));
    lemma_emitted_parents(tree, 0, 0, root);
}

/// Some entry of `out` lists node `c` below entry `i`.
pub open spec fn listed_below(out: Seq<FlatNode>, i: int, c: usize) -> bool {
    exists|j: int| 0 <= j < out.len() && #[trigger] out[j] == (FlatNode { source: c, parent_index: Some(i as usize) })
}

/// Every child of the node at entry `i` is listed below entry `i`.
pub open spec fn children_listed(tree: Seq<Seq<usize>>, out: Seq<FlatNode>, i: int) -> bool {
    forall|k: int|
        0 <= k < tree[out[i].source as int].len() ==> #[trigger] listed_below(out, i, tree[out[i].source as int][k])
}

proof fn lemma_listed_persists(tree: Seq<Seq<usize>>, cur: Seq<FlatNode>, more: Seq<FlatNode>, i: int)
    requires
        0 <= i < cur.len(),
        children_listed(tree, cur, i),
    ensures
        children_listed(tree, cur + more, i),
{
    let out = cur + more;
    assert(out[i] == cur[i]);
    let s = cur[i].source as int;
    assert forall|k: int| 0 <= k < tree[s].len() implies #[trigger] listed_below(out, i, tree[s][k]) by {
        assert(listed_below(cur, i, tree[s][k]));
        let j = choose|j: int|
            0 <= j < cur.len() && #[trigger] cur[j] == (FlatNode { source: tree[s][k], parent_index: Some(i as usize) });
        assert(out[j] == cur[j]);
    }
}

proof fn lemma_emitted_complete(tree: Seq<Seq<usize>>, v: int, v_index: int, prefix: Seq<FlatNode>)
    requires
        tree_wf(tree),
        0 <= v < tree.len(),
        0 <= v_index < prefix.len(),
        prefix[v_index].source == v,
    ensures
        forall|i: int|
            (i == v_index || prefix.len() <= i < prefix.len() + emitted(tree, v, v_index, prefix.len() as int).len())
                ==> #[trigger] children_listed(tree, prefix + emitted(tree, v, v_index, prefix.len() as int), i),
    decreases tree.len() - v, tree[v].len() + 1,
{
    let kids = tree[v];
    let m = kids.len() as int;
    let start = prefix.len() as int;
    let base = prefix + reversed_block(kids, v_index);
    assert forall|k: int| 0 <= k < m implies #[trigger] base[start + k].source == kids[m - 1 - k] by {
        assert(base[start + k] == reversed_block(kids, v_index)[k]);
    }
    assert(base[v_index] == prefix[v_index]);
    assert forall|k: int| 0 <= k < m implies #[trigger] listed_below(base, v_index, kids[k]) by {
        let w = start + m - 1 - k;
        assert(base[w] == reversed_block(kids, v_index)[m - 1 - k]);
        assert(base[w] == (FlatNode { source: kids[k], parent_index: Some(v_index as usize) }));
    }
    assert(children_listed(tree, base, v_index));
    lemma_children_complete(tree, v, start, m, base);
    let out = base + children_emitted(tree, v, start, m);
    lemma_listed_persists(tree, base, children_emitted(tree, v, start, m), v_index);
    assert(emitted(tree, v, v_index, start) == reversed_block(kids, v_index) + children_emitted(tree, v, start, m));
    assert(prefix + emitted(tree, v, v_index, start) =~= out);
}

proof fn lemma_children_complete(tree: Seq<Seq<usize>>, v: int, start: int, j: int, base: Seq<FlatNode>)
    requires
        tree_wf(tree),
        0 <= v < tree.len(),
        0 <= j <= tree[v].len(),
        0 <= start,
        base.len() == start + tree[v].len(),
        forall|k: int| 0 <= k < tree[v].len() ==> #[trigger] base[start + k].source == tree[v][tree[v].len() - 1 - k],
    ensures
        forall|i: int|
            (start + tree[v].len() - j <= i < start + tree[v].len()
                || base.len() <= i < base.len() + children_emitted(tree, v, start, j).len())
                ==> #[trigger] children_listed(tree, base + children_emitted(tree, v, start, j), i),
    decreases tree.len() - v, j,
{
    let m = tree[v].len() as int;
    if j > 0 {
        let prev = children_emitted(tree, v, start, j - 1);
        lemma_children_complete(tree, v, start, j - 1, base);
        let cur = base + prev;
        let c = tree[v][j - 1] as int;
        let c_index = start + m - j;
        assert(v < c < tree.len());
        let k = m - j;
        assert(base[start + k].source == tree[v][m - 1 - k]);
        assert(cur[c_index] == base[c_index]);
        let more = emitted(tree, c, c_index, cur.len() as int);
        lemma_emitted_complete(tree, c, c_index, cur);
        assert(children_emitted(tree, v, start, j) == prev + more);
        let out = cur + more;
        assert(base + children_emitted(tree, v, start, j) =~= out);
        assert forall|i: int|
            (start + m - j <= i < start + m || base.len() <= i < base.len() + children_emitted(tree, v, start, j).len())
                implies #[trigger] children_listed(tree, out, i) by {
            if i != c_index && i < cur.len() {
                assert(children_listed(tree, cur, i));
                lemma_listed_persists(tree, cur, more, i);
            }
        }
    }
}

/// Every child of every node of the flattened hierarchy is listed in it, with
/// that node's entry as its parent: nothing below a listed node is left out.
pub proof fn law_flattened_children_listed(tree: Seq<Seq<usize>>)
    requires
        tree.len() > 0,
        tree_wf(tree),
    ensures
        forall|i: int| 0 <= i < spec_flatten(tree).len() ==> #[trigger] children_listed(tree, spec_flatten(tree), i),
{
    let root = seq![FlatNode { source: 0, parent_index: None }];
    lemma_emitted_complete(tree, 0, 0, root);
}

/// No node is a child of two nodes, nor twice a child of one.
pub open spec fn unique_parents(tree: Seq<Seq<usize>>) -> bool {
    forall|v1: int, k1: int, v2: int, k2: int|
        0 <= v1 < tree.len() && 0 <= k1 < tree[v1].len() && 0 <= v2 < tree.len() && 0 <= k2 < tree[v2].len()
            && #[trigger] tree[v1][k1] == #[trigger] tree[v2][k2] ==> v1 == v2 && k1 == k2
}

/// No two entries of `out` are the same node.
pub open spec fn distinct_sources(out: Seq<FlatNode>) -> bool {
    forall|i: int, j: int| 0 <= i < j < out.len() ==> #[trigger] out[i].source != #[trigger] out[j].source
}

/// Some of the first `j` children of `v` has node `x` in its subtree.
spec fn child_reaches(tree: Seq<Seq<usize>>, v: int, j: int, x: int) -> bool
    decreases tree.len() - v, j,
{
    if j <= 0 || !(0 <= v < tree.len()) || j > tree[v].len() {
        false
    } else {
        let c = tree[v][j - 1] as int;
        (v < c < tree.len() && in_subtree(tree, c, x)) || child_reaches(tree, v, j - 1, x)
    }
}

/// Node `x` lies in the subtree of node `v`, `v` included.
spec fn in_subtree(tree: Seq<Seq<usize>>, v: int, x: int) -> bool
    decreases tree.len() - v, tree[v].len() + 1,
{
    if 0 <= v < tree.len() {
        x == v || child_reaches(tree, v, tree[v].len() as int, x)
    } else {
        false
    }
}

/// Node `x` lies in the subtree of node `v`, `v` excluded.
spec fn strictly_below(tree: Seq<Seq<usize>>, v: int, x: int) -> bool {
    0 <= v < tree.len() && child_reaches(tree, v, tree[v].len() as int, x)
}

/// Node `x` lies strictly below one of the first `j` children of `v`.
spec fn below_some_child(tree: Seq<Seq<usize>>, v: int, j: int, x: int) -> bool {
    exists|i: int| 0 <= i < j && #[trigger] strictly_below(tree, tree[v][i] as int, x)
}

proof fn lemma_reaches_witness(tree: Seq<Seq<usize>>, v: int, j: int, x: int) -> (i: int)
    requires
        child_reaches(tree, v, j, x),
    ensures
        0 <= v < tree.len(),
        0 <= i < j <= tree[v].len(),
        v < tree[v][i] < tree.len(),
        in_subtree(tree, tree[v][i] as int, x),
    decreases j,
{
    let c = tree[v][j - 1] as int;
    if v < c < tree.len() && in_subtree(tree, c, x) {
        j - 1
    } else {
        lemma_reaches_witness(tree, v, j - 1, x)
    }
}

proof fn lemma_reaches_from(tree: Seq<Seq<usize>>, v: int, j: int, i: int, x: int)
    requires
        0 <= v < tree.len(),
        0 <= i < j <= tree[v].len(),
        v < tree[v][i] < tree.len(),
        in_subtree(tree, tree[v][i] as int, x),
    ensures
        child_reaches(tree, v, j, x),
    decreases j,
{
    if i < j - 1 {
        lemma_reaches_from(tree, v, j - 1, i, x);
    }
}

proof fn lemma_subtree_above(tree: Seq<Seq<usize>>, v: int, x: int)
    requires
        in_subtree(tree, v, x),
    ensures
        0 <= v < tree.len(),
        v <= x,
    decreases tree.len() - v,
{
    if x != v {
        let i = lemma_reaches_witness(tree, v, tree[v].len() as int, x);
        lemma_subtree_above(tree, tree[v][i] as int, x);
    }
}

proof fn lemma_strictly_above(tree: Seq<Seq<usize>>, v: int, x: int)
    requires
        strictly_below(tree, v, x),
    ensures
        v < x,
        in_subtree(tree, v, x),
{
    let i = lemma_reaches_witness(tree, v, tree[v].len() as int, x);
    lemma_subtree_above(tree, tree[v][i] as int, x);
}

proof fn lemma_subtree_child(tree: Seq<Seq<usize>>, v: int, k: int, x: int)
    requires
        tree_wf(tree),
        0 <= v < tree.len(),
        0 <= k < tree[v].len(),
        in_subtree(tree, tree[v][k] as int, x),
    ensures
        strictly_below(tree, v, x),
        in_subtree(tree, v, x),
{
    assert(v < tree[v][k] < tree.len());
    lemma_reaches_from(tree, v, tree[v].len() as int, k, x);
}

proof fn lemma_subtree_parent(tree: Seq<Seq<usize>>, v: int, x: int) -> (pk: (int, int))
    requires
        tree_wf(tree),
        in_subtree(tree, v, x),
        x != v,
    ensures
        0 <= pk.0 < tree.len(),
        0 <= pk.1 < tree[pk.0].len(),
        tree[pk.0][pk.1] == x,
        in_subtree(tree, v, pk.0),
    decreases tree.len() - v,
{
    let k = lemma_reaches_witness(tree, v, tree[v].len() as int, x);
    let c = tree[v][k] as int;
    if x == c {
        assert(in_subtree(tree, v, v));
        (v, k)
    } else {
        let pk = lemma_subtree_parent(tree, c, x);
        lemma_subtree_child(tree, v, k, pk.0);
        pk
    }
}

proof fn lemma_subtrees_nested(tree: Seq<Seq<usize>>, a: int, b: int, x: int)
    requires
        tree_wf(tree),
        unique_parents(tree),
        in_subtree(tree, a, x),
        in_subtree(tree, b, x),
    ensures
        in_subtree(tree, a, b) || in_subtree(tree, b, a),
    decreases x,
{
    lemma_subtree_above(tree, a, x);
    lemma_subtree_above(tree, b, x);
    if x != a && x != b {
        let pa = lemma_subtree_parent(tree, a, x);
        let pb = lemma_subtree_parent(tree, b, x);
        assert(tree[pa.0][pa.1] == tree[pb.0][pb.1]);
        assert(pa.0 < tree[pa.0][pa.1]);
        lemma_subtrees_nested(tree, a, b, pa.0);
    }
}

proof fn lemma_siblings_apart(tree: Seq<Seq<usize>>, v: int, k1: int, k2: int)
    requires
        tree_wf(tree),
        unique_parents(tree),
        0 <= v < tree.len(),
        0 <= k1 < tree[v].len(),
        0 <= k2 < tree[v].len(),
        k1 != k2,
    ensures
        !in_subtree(tree, tree[v][k1] as int, tree[v][k2] as int),
{
    let c1 = tree[v][k1] as int;
    let c2 = tree[v][k2] as int;
    if in_subtree(tree, c1, c2) {
        assert(tree[v][k1] != tree[v][k2]);
        let pk = lemma_subtree_parent(tree, c1, c2);
        assert(tree[pk.0][pk.1] == tree[v][k2]);
        lemma_subtree_above(tree, c1, pk.0);
        assert(v < tree[v][k1]);
    }
}

proof fn lemma_emitted_sources(tree: Seq<Seq<usize>>, v: int, v_index: int, start: int)
    requires
        tree_wf(tree),
        0 <= v < tree.len(),
    ensures
        forall|n: int|
            0 <= n < emitted(tree, v, v_index, start).len()
                ==> strictly_below(tree, v, #[trigger] emitted(tree, v, v_index, start)[n].source as int),
    decreases tree.len() - v, tree[v].len() + 1,
{
    let kids = tree[v];
    let m = kids.len() as int;
    let block = reversed_block(kids, v_index);
    let rest = children_emitted(tree, v, start, m);
    lemma_children_sources(tree, v, start, m);
    assert(emitted(tree, v, v_index, start) == block + rest);
    let e = block + rest;
    assert forall|n: int| 0 <= n < e.len() implies strictly_below(tree, v, #[trigger] e[n].source as int) by {
        if n < m {
            let k = m - 1 - n;
            assert(e[n] == block[n]);
            assert(v < tree[v][k] < tree.len());
            assert(in_subtree(tree, kids[k] as int, kids[k] as int));
            lemma_reaches_from(tree, v, m, k, kids[k] as int);
        } else {
            assert(e[n] == rest[n - m]);
            let s = rest[n - m].source as int;
            assert(below_some_child(tree, v, m, s));
            let i = choose|i: int| 0 <= i < m && #[trigger] strictly_below(tree, tree[v][i] as int, s);
            lemma_strictly_above(tree, tree[v][i] as int, s);
            assert(v < tree[v][i] < tree.len());
            lemma_reaches_from(tree, v, m, i, s);
        }
    }
}

proof fn lemma_children_sources(tree: Seq<Seq<usize>>, v: int, start: int, j: int)
    requires
        tree_wf(tree),
        0 <= v < tree.len(),
        0 <= j <= tree[v].len(),
    ensures
        forall|n: int|
            0 <= n < children_emitted(tree, v, start, j).len()
                ==> below_some_child(tree, v, j, #[trigger] children_emitted(tree, v, start, j)[n].source as int),
    decreases tree.len() - v, j,
{
    if j > 0 {
        let m = tree[v].len() as int;
        let prev = children_emitted(tree, v, start, j - 1);
        let c = tree[v][j - 1] as int;
        assert(v < c < tree.len());
        let more = emitted(tree, c, start + m - j, start + m + prev.len());
        lemma_children_sources(tree, v, start, j - 1);
        lemma_emitted_sources(tree, c, start + m - j, start + m + prev.len());
        assert(children_emitted(tree, v, start, j) == prev + more);
        let e = prev + more;
        assert forall|n: int| 0 <= n < e.len() implies below_some_child(tree, v, j, #[trigger] e[n].source as int) by {
            if n < prev.len() {
                assert(e[n] == prev[n]);
                let s = prev[n].source as int;
                assert(below_some_child(tree, v, j - 1, s));
                let i = choose|i: int| 0 <= i < j - 1 && #[trigger] strictly_below(tree, tree[v][i] as int, s);
                assert(strictly_below(tree, tree[v][i] as int, s));
            } else {
                assert(e[n] == more[n - prev.len()]);
                assert(strictly_below(tree, tree[v][j - 1] as int, more[n - prev.len()].source as int));
            }
        }
    }
}

proof fn lemma_emitted_distinct(tree: Seq<Seq<usize>>, v: int, v_index: int, start: int)
    requires
        tree_wf(tree),
        unique_parents(tree),
        0 <= v < tree.len(),
    ensures
        distinct_sources(emitted(tree, v, v_index, start)),
    decreases tree.len() - v, tree[v].len() + 1,
{
    let kids = tree[v];
    let m = kids.len() as int;
    let block = reversed_block(kids, v_index);
    let rest = children_emitted(tree, v, start, m);
    lemma_children_distinct(tree, v, start, m);
    lemma_children_sources(tree, v, start, m);
    assert(emitted(tree, v, v_index, start) == block + rest);
    let e = block + rest;
    assert forall|a: int, b: int| 0 <= a < b < e.len() implies #[trigger] e[a].source != #[trigger] e[b].source by {
        if b < m {
            assert(e[a] == block[a]);
            assert(e[b] == block[b]);
            if tree[v][m - 1 - a] == tree[v][m - 1 - b] {
                assert(false);
            }
        } else if a >= m {
            assert(e[a] == rest[a - m]);
            assert(e[b] == rest[b - m]);
            assert(rest[a - m].source != rest[b - m].source);
        } else {
            let k = m - 1 - a;
            assert(e[a] == block[a]);
            assert(e[b] == rest[b - m]);
            let s = rest[b - m].source as int;
            assert(below_some_child(tree, v, m, s));
            let i = choose|i: int| 0 <= i < m && #[trigger] strictly_below(tree, tree[v][i] as int, s);
            lemma_strictly_above(tree, tree[v][i] as int, s);
            if s == kids[k] && i != k {
                lemma_siblings_apart(tree, v, i, k);
            }
        }
    }
}

proof fn lemma_children_distinct(tree: Seq<Seq<usize>>, v: int, start: int, j: int)
    requires
        tree_wf(tree),
        unique_parents(tree),
        0 <= v < tree.len(),
        0 <= j <= tree[v].len(),
    ensures
        distinct_sources(children_emitted(tree, v, start, j)),
    decreases tree.len() - v, j,
{
    if j > 0 {
        let m = tree[v].len() as int;
        let prev = children_emitted(tree, v, start, j - 1);
        let c = tree[v][j - 1] as int;
        assert(v < c < tree.len());
        let more = emitted(tree, c, start + m - j, start + m + prev.len());
        lemma_children_distinct(tree, v, start, j - 1);
        lemma_children_sources(tree, v, start, j - 1);
        lemma_emitted_distinct(tree, c, start + m - j, start + m + prev.len());
        lemma_emitted_sources(tree, c, start + m - j, start + m + prev.len());
        assert(children_emitted(tree, v, start, j) == prev + more);
        let e = prev + more;
        let p = prev.len() as int;
        assert forall|a: int, b: int| 0 <= a < b < e.len() implies #[trigger] e[a].source != #[trigger] e[b].source by {
            if b < p {
                assert(e[a] == prev[a]);
                assert(e[b] == prev[b]);
                assert(prev[a].source != prev[b].source);
            } else if a >= p {
                assert(e[a] == more[a - p]);
                assert(e[b] == more[b - p]);
                assert(more[a - p].source != more[b - p].source);
            } else {
                assert(e[a] == prev[a]);
                assert(e[b] == more[b - p]);
                let s = prev[a].source as int;
                let t = more[b - p].source as int;
                assert(below_some_child(tree, v, j - 1, s));
                let i = choose|i: int| 0 <= i < j - 1 && #[trigger] strictly_below(tree, tree[v][i] as int, s);
                assert(strictly_below(tree, c, t));
                if s == t {
                    lemma_strictly_above(tree, tree[v][i] as int, s);
                    lemma_strictly_above(tree, c, s);
                    lemma_subtrees_nested(tree, tree[v][i] as int, c, s);
                    lemma_siblings_apart(tree, v, i, j - 1);
                    lemma_siblings_apart(tree, v, j - 1, i);
                }
            }
        }
    }
}

/// When no node of the scene is a child of two nodes, nor twice a child of
/// one, no node is listed twice in the flattened hierarchy.
pub proof fn law_flattened_nodes_distinct(tree: Seq<Seq<usize>>)
    requires
        tree.len() > 0,
        tree_wf(tree),
        unique_parents(tree),
    ensures
        distinct_sources(spec_flatten(tree)),
{
    let root = seq![FlatNode { source: 0, parent_index: None }];
    let rest = emitted(tree, 0, 0, 1);
    lemma_emitted_distinct(tree, 0, 0, 1);
    lemma_emitted_sources(tree, 0, 0, 1);
    let e = spec_flatten(tree);
    assert(e == root + rest);
    assert forall|a: int, b: int| 0 <= a < b < e.len() implies #[trigger] e[a].source != #[trigger] e[b].source by {
        assert(e[b] == rest[b - 1]);
        if a == 0 {
            assert(e[a].source == 0);
            lemma_strictly_above(tree, 0, rest[b - 1].source as int);
        } else {
            assert(e[a] == rest[a - 1]);
            assert(rest[a - 1].source != rest[b - 1].source);
        }
    }
}

} // verus!
