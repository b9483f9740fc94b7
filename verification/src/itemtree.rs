//! The item-tree flattener: turns the recursive element tree into a flat
//! array of descriptors for allocation-free runtime traversal.  Every
//! node's direct children occupy one contiguous run of the array, starting
//! at the index recorded in the node's descriptor, in declaration order.

use vstd::prelude::*;
use vstd::pervasive::unreached;
use crate::object_tree::{
    all_builtin, all_builtin_from, descendant_count, descendant_count_from, total_count, BaseType,
    BuiltinType, Component, Element,
};

verus! {

/// One entry of the flattened item tree: which struct member holds the
/// element, the runtime type-descriptor symbol of its base type, how many
/// direct children it has, and the array index where they begin.
#[derive(Debug)]
pub struct ItemTreeNode {
    pub id: String,
    pub vtable_symbol: String,
    pub children_count: usize,
    pub children_index: usize,
}

/// The mathematical content of a descriptor.
pub ghost struct ItemNodeView {
    pub id: Seq<char>,
    pub vtable_symbol: Seq<char>,
    pub children_count: int,
    pub children_index: int,
}

impl View for ItemTreeNode {
    type V = ItemNodeView;

    open spec fn view(&self) -> ItemNodeView {
        ItemNodeView {
            id: self.id@,
            vtable_symbol: self.vtable_symbol@,
            children_count: self.children_count as int,
            children_index: self.children_index as int,
        }
    }
}

/// The views of a descriptor sequence, in order.
pub open spec fn nodes_view(s: Seq<ItemTreeNode>) -> Seq<ItemNodeView> {
    s.map_values(|n: ItemTreeNode| n@)
}

/// The descriptor of `e`, with its children recorded as beginning at `off`.
pub open spec fn node_view_of(e: Element, off: int) -> ItemNodeView {
    ItemNodeView {
        id: e.id@,
        vtable_symbol: e.vtable_symbol_view(),
        children_count: e.children@.len() as int,
        children_index: off,
    }
}

/// The combined descendant counts of the trees rooted at `cs[j..]`,
/// without the roots themselves.
pub open spec fn desc_sum(cs: Seq<Element>, j: int) -> nat
    decreases cs.len() - j,
{
    if j < 0 || j >= cs.len() {
        0
    } else {
        descendant_count(cs[j]) + desc_sum(cs, j + 1)
    }
}

/// The combined descendant counts of the trees rooted at `cs[..j]`,
/// without the roots themselves.
pub open spec fn desc_prefix(cs: Seq<Element>, j: int) -> nat
    decreases j,
{
    if j <= 0 || j > cs.len() {
        0
    } else {
        desc_prefix(cs, j - 1) + descendant_count(cs[j - 1])
    }
}

/// The descriptors of the siblings `cs[i..]`: the first one's children
/// begin at `off`, each next one's past the previous one's descendants.
pub open spec fn block_view(cs: Seq<Element>, i: int, off: int) -> Seq<ItemNodeView>
    decreases cs.len() - i,
{
    if i < 0 || i >= cs.len() {
        Seq::empty()
    } else {
        seq![node_view_of(cs[i], off)] + block_view(cs, i + 1, off + descendant_count(cs[i]))
    }
}

/// Everything the flattener emits below `e` when `e`'s children begin at
/// index `base`: first the block of direct-child descriptors, then each
/// child's own region in order.
pub open spec fn region_view(e: Element, base: int) -> Seq<ItemNodeView>
    decreases e, 0int,
{
    block_view(e.children@, 0, base + e.children@.len()) + tails_view(
        e.children@,
        0,
        base + e.children@.len(),
    )
}

/// The regions of the siblings `cs[i..]`, laid out one after another; the
/// first one's children begin at `off`.
pub open spec fn tails_view(cs: Seq<Element>, i: int, off: int) -> Seq<ItemNodeView>
    decreases cs, cs.len() - i,
{
    if i < 0 || i >= cs.len() {
        Seq::empty()
    } else {
        region_view(cs[i], off) + tails_view(cs, i + 1, off + descendant_count(cs[i]))
    }
}

/// The whole flattened item tree of the tree rooted at `e`: the root's
/// descriptor at index zero, its children beginning at index one.
pub open spec fn flatten_view(e: Element) -> Seq<ItemNodeView> {
    seq![node_view_of(e, 1)] + region_view(e, 1)
}

/// Counting all of `cs[j..]`'s trees equals counting their roots plus
/// their descendants.
pub proof fn lemma_counts(cs: Seq<Element>, j: int)
    requires
        0 <= j <= cs.len(),
    ensures
        descendant_count_from(cs, j) == (cs.len() - j) + desc_sum(cs, j),
    decreases cs.len() - j,
{
    if j < cs.len() {
        lemma_counts(cs, j + 1);
    }
}

/// The descendants before and from position `j` together are all of them.
pub proof fn lemma_desc_split(cs: Seq<Element>, j: int)
    requires
        0 <= j <= cs.len(),
    ensures
        desc_prefix(cs, j) + desc_sum(cs, j) == desc_sum(cs, 0),
    decreases j,
{
    if j > 0 {
        lemma_desc_split(cs, j - 1);
    }
}

/// A block lists one descriptor per remaining sibling.
pub proof fn lemma_block_len(cs: Seq<Element>, i: int, off: int)
    requires
        0 <= i <= cs.len(),
    ensures
        block_view(cs, i, off).len() == cs.len() - i,
    decreases cs.len() - i,
{
    if i < cs.len() {
        lemma_block_len(cs, i + 1, off + descendant_count(cs[i]));
    }
}

/// A region holds exactly the descendants of its element.
pub proof fn lemma_region_len(e: Element, base: int)
    ensures
        region_view(e, base).len() == descendant_count(e),
    decreases e, 0int,
{
    let cs = e.children@;
    lemma_block_len(cs, 0, base + cs.len());
    lemma_tails_len(cs, 0, base + cs.len());
    lemma_counts(cs, 0);
}

/// The concatenated regions of `cs[i..]` hold exactly their descendants.
pub proof fn lemma_tails_len(cs: Seq<Element>, i: int, off: int)
    requires
        0 <= i <= cs.len(),
    ensures
        tails_view(cs, i, off).len() == desc_sum(cs, i),
    decreases cs, cs.len() - i,
{
    if i < cs.len() {
        lemma_region_len(cs[i], off);
        lemma_tails_len(cs, i + 1, off + descendant_count(cs[i]));
    }
}

/// Every tree of `cs[i..]` is all-builtin when the run is.
pub proof fn lemma_all_builtin_at(cs: Seq<Element>, i: int, j: int)
    requires
        0 <= i <= j < cs.len(),
        all_builtin_from(cs, i),
    ensures
        all_builtin(cs[j]),
    decreases j - i,
{
    if i < j {
        lemma_all_builtin_at(cs, i + 1, j);
    }
}

/// The structural guarantee of the flattened tree, read from position `i`:
/// the descriptor there belongs to `e`, and the descriptors of `e`'s direct
/// children stand contiguously from its recorded children index on, in
/// declaration order — recursively for the whole tree below `e`.
pub open spec fn tree_ok(r: Seq<ItemNodeView>, e: Element, i: int) -> bool
    decreases e, 0int,
{
    &&& 0 <= i < r.len()
    &&& r[i].id == e.id@
    &&& r[i].vtable_symbol == e.vtable_symbol_view()
    &&& r[i].children_count == e.children@.len()
    &&& tree_ok_children(r, e.children@, 0, r[i].children_index)
}

/// `tree_ok` for the children `cs[j..]`, whose descriptors stand at
/// `pos + j`, `pos + j + 1`, and so on.
pub open spec fn tree_ok_children(r: Seq<ItemNodeView>, cs: Seq<Element>, j: int, pos: int) -> bool
    decreases cs, cs.len() - j,
{
    if j < 0 || j >= cs.len() {
        true
    } else {
        tree_ok(r, cs[j], pos + j) && tree_ok_children(r, cs, j + 1, pos)
    }
}

/// When `r` holds `e`'s descriptor at `i` and `e`'s region at the recorded
/// children index, the structural guarantee holds at `i`.
pub proof fn lemma_region_ok(r: Seq<ItemNodeView>, e: Element, i: int, base: int)
    requires
        0 <= i < r.len(),
        r[i] == node_view_of(e, base),
        0 <= base,
        base + descendant_count(e) <= r.len(),
        r.subrange(base, base + descendant_count(e)) == region_view(e, base),
    ensures
        tree_ok(r, e, i),
    decreases e, 0int,
{
    let cs = e.children@;
    let k = cs.len() as int;
    let off0 = base + k;
    let d = descendant_count(e) as int;
    let ds = desc_sum(cs, 0) as int;
    lemma_block_len(cs, 0, off0);
    lemma_tails_len(cs, 0, off0);
    lemma_counts(cs, 0);
    assert(r.subrange(base, off0) =~= r.subrange(base, base + d).subrange(0, k));
    assert(region_view(e, base).subrange(0, k) =~= block_view(cs, 0, off0));
    assert(r.subrange(off0, off0 + ds) =~= r.subrange(base, base + d).subrange(k, d));
    assert(region_view(e, base).subrange(k, d) =~= tails_view(cs, 0, off0));
    lemma_children_ok(r, cs, 0, base);
}

/// The inductive step of `lemma_region_ok` over the children `cs[j..]`:
/// their descriptors stand in the tail of the block at `base + j`, their
/// regions one after another from `off(j)` on.
pub proof fn lemma_children_ok(r: Seq<ItemNodeView>, cs: Seq<Element>, j: int, base: int)
    requires
        0 <= j <= cs.len(),
        0 <= base,
        base + cs.len() + desc_sum(cs, 0) <= r.len(),
        r.subrange(base + j, base + cs.len()) == block_view(
            cs,
            j,
            base + cs.len() + desc_prefix(cs, j),
        ),
        r.subrange(
            base + cs.len() + desc_prefix(cs, j),
            base + cs.len() + desc_prefix(cs, j) + desc_sum(cs, j),
        ) == tails_view(cs, j, base + cs.len() + desc_prefix(cs, j)),
    ensures
        tree_ok_children(r, cs, j, base),
    decreases cs, cs.len() - j,
{
    if j < cs.len() {
        let k = cs.len() as int;
        let off_j = base + k + desc_prefix(cs, j);
        let dj = descendant_count(cs[j]) as int;
        let off_j1 = off_j + dj;
        lemma_desc_split(cs, j);
        lemma_desc_split(cs, j + 1);
        lemma_block_len(cs, j, off_j);
        lemma_block_len(cs, j + 1, off_j1);
        lemma_region_len(cs[j], off_j);
        lemma_tails_len(cs, j, off_j);
        lemma_tails_len(cs, j + 1, off_j1);
        let ds_j = desc_sum(cs, j) as int;
        let ds_j1 = desc_sum(cs, j + 1) as int;
        // The head of the remaining block is cs[j]'s descriptor.
        assert(block_view(cs, j, off_j)[0] == node_view_of(cs[j], off_j));
        assert(r.subrange(base + j, base + k)[0] == r[base + j]);
        // The rest of the block serves the later siblings.
        assert(r.subrange(base + j + 1, base + k) =~= r.subrange(base + j, base + k).subrange(
            1,
            k - j,
        ));
        assert(block_view(cs, j, off_j).subrange(1, k - j) =~= block_view(cs, j + 1, off_j1));
        // The head of the remaining tails is cs[j]'s region.
        assert(r.subrange(off_j, off_j1) =~= r.subrange(off_j, off_j + ds_j).subrange(0, dj));
        assert(tails_view(cs, j, off_j).subrange(0, dj) =~= region_view(cs[j], off_j));
        // The rest of the tails serves the later siblings.
        assert(r.subrange(off_j1, off_j1 + ds_j1) =~= r.subrange(off_j, off_j + ds_j).subrange(
            dj,
            ds_j,
        ));
        assert(tails_view(cs, j, off_j).subrange(dj, ds_j) =~= tails_view(cs, j + 1, off_j1));
        lemma_region_ok(r, cs[j], base + j, off_j);
        lemma_children_ok(r, cs, j + 1, base);
    }
}

/// The flattened tree of `e` has one descriptor per element, and the
/// structural guarantee holds from the root at index zero: every node's
/// direct children occupy a single contiguous index range starting at that
/// node's recorded children index, in declared child order.
pub proof fn lemma_item_tree_structure(e: Element)
    ensures
        flatten_view(e).len() == total_count(e),
        tree_ok(flatten_view(e), e, 0),
{
    let r = flatten_view(e);
    let d = descendant_count(e) as int;
    lemma_region_len(e, 1);
    assert(r[0] == node_view_of(e, 1));
    assert(r.subrange(1, 1 + d) =~= region_view(e, 1));
    lemma_region_ok(r, e, 0, 1);
}

/// The built-in base of an element, under this backend's precondition that
/// every base type is built-in.
pub fn builtin_of(e: &Element) -> (b: &BuiltinType)
    requires
        e.is_builtin(),
    ensures
        b.vtable_symbol@ == e.vtable_symbol_view(),
        b.class_name@ == e.class_name_view(),
{
    match &e.base_type {
        BaseType::Builtin(b) => b,
        BaseType::Component(_) => unreached(),
    }
}

/// Counts the elements strictly below `e`.
pub fn sub_items_count(e: &Element) -> (n: usize)
    requires
        descendant_count(*e) <= usize::MAX,
    ensures
        n == descendant_count(*e),
    decreases *e,
{
    let ghost cs = e.children@;
    let mut n: usize = 0;
    let mut i: usize = 0;
    while i < e.children.len()
        invariant
            i <= cs.len(),
            cs == e.children@,
            descendant_count(*e) <= usize::MAX,
            n + descendant_count_from(cs, i as int) == descendant_count(*e),
        decreases cs.len() - i,
    {
        proof {
            lemma_descendant_count_from_unfold(cs, i as int);
        }
        let c = sub_items_count(&e.children[i]);
        n = n + 1 + c;
        i = i + 1;
    }
    n
}

/// One unfolding of `descendant_count_from` at an in-range position.
pub proof fn lemma_descendant_count_from_unfold(cs: Seq<Element>, i: int)
    requires
        0 <= i < cs.len(),
    ensures
        descendant_count_from(cs, i) == 1 + descendant_count(cs[i]) + descendant_count_from(
            cs,
            i + 1,
        ),
{
}

/// Appends the region of `e` — its children's descriptors, then their
/// regions — to `out`, whose length must be the index where `e`'s children
/// are recorded to begin.
pub fn visit_children(e: &Element, base: usize, out: &mut Vec<ItemTreeNode>)
    requires
        all_builtin(*e),
        old(out)@.len() == base,
        base + descendant_count(*e) <= usize::MAX,
    ensures
        nodes_view(final(out)@) == nodes_view(old(out)@) + region_view(*e, base as int),
        final(out)@.len() == old(out)@.len() + descendant_count(*e),
    decreases *e,
{
    let ghost cs = e.children@;
    let k = e.children.len();
    proof {
        lemma_counts(cs, 0);
    }
    let mut i: usize = 0;
    let mut off: usize = base + k;
    while i < k
        invariant
            i <= k,
            k == cs.len(),
            cs == e.children@,
            all_builtin(*e),
            base + descendant_count(*e) <= usize::MAX,
            descendant_count(*e) == k + desc_sum(cs, 0),
            off == base + k + desc_prefix(cs, i as int),
            out@.len() == base + i,
            nodes_view(old(out)@) + block_view(cs, 0, base + k as int) == nodes_view(out@)
                + block_view(cs, i as int, off as int),
        decreases k - i,
    {
        proof {
            lemma_desc_split(cs, i as int);
            lemma_desc_split(cs, i + 1);
            lemma_all_builtin_at(cs, 0, i as int);
        }
        let c = &e.children[i];
        let dc = sub_items_count(c);
        let b = builtin_of(c);
        out.push(
            ItemTreeNode {
                id: c.id.clone(),
                vtable_symbol: b.vtable_symbol.clone(),
                children_count: c.children.len(),
                children_index: off,
            },
        );
        proof {
            assert(nodes_view(old(out)@) + block_view(cs, 0, base + k as int) =~= nodes_view(out@)
                + block_view(cs, i + 1, off + dc));
        }
        off = off + dc;
        i = i + 1;
    }
    proof {
        assert(block_view(cs, k as int, off as int) == Seq::<ItemNodeView>::empty());
        assert(nodes_view(out@) =~= nodes_view(old(out)@) + block_view(cs, 0, base + k as int));
        lemma_block_len(cs, 0, base + k as int);
    }
    let ghost mid = nodes_view(out@);
    let mut j: usize = 0;
    let mut off2: usize = base + k;
    while j < k
        invariant
            j <= k,
            k == cs.len(),
            cs == e.children@,
            all_builtin(*e),
            base + descendant_count(*e) <= usize::MAX,
            descendant_count(*e) == k + desc_sum(cs, 0),
            off2 == base + k + desc_prefix(cs, j as int),
            out@.len() == off2,
            mid + tails_view(cs, 0, base + k as int) == nodes_view(out@) + tails_view(
                cs,
                j as int,
                off2 as int,
            ),
        decreases k - j,
    {
        proof {
            lemma_desc_split(cs, j as int);
            lemma_desc_split(cs, j + 1);
            lemma_all_builtin_at(cs, 0, j as int);
        }
        let c = &e.children[j];
        visit_children(c, off2, out);
        let dc = sub_items_count(c);
        proof {
            assert(mid + tails_view(cs, 0, base + k as int) =~= nodes_view(out@) + tails_view(
                cs,
                j + 1,
                off2 + dc,
            ));
        }
        off2 = off2 + dc;
        j = j + 1;
    }
    proof {
        assert(tails_view(cs, k as int, off2 as int) == Seq::<ItemNodeView>::empty());
        assert(nodes_view(out@) + Seq::<ItemNodeView>::empty() =~= nodes_view(out@));
        assert(nodes_view(out@) =~= nodes_view(old(out)@) + region_view(*e, base as int));
        lemma_region_len(*e, base as int);
    }
}

/// Flattens the component's element tree: one descriptor per element, the
/// root's at index zero, laid out exactly as `flatten_view` states.
pub fn build_array(component: &Component) -> (r: Vec<ItemTreeNode>)
    requires
        all_builtin(component.root_element),
        total_count(component.root_element) <= usize::MAX,
    ensures
        nodes_view(r@) == flatten_view(component.root_element),
        r@.len() == total_count(component.root_element),
{
    let root = &component.root_element;
    let mut out: Vec<ItemTreeNode> = Vec::new();
    let b = builtin_of(root);
    out.push(
        ItemTreeNode {
            id: root.id.clone(),
            vtable_symbol: b.vtable_symbol.clone(),
            children_count: root.children.len(),
            children_index: 1,
        },
    );
    proof {
        assert(nodes_view(out@) =~= seq![node_view_of(*root, 1)]);
    }
    visit_children(root, 1, &mut out);
    proof {
        assert(nodes_view(out@) =~= flatten_view(component.root_element));
        lemma_region_len(*root, 1);
    }
    out
}

} // verus!
