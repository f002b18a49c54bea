//! Scene-tree search over an explicit arena.
//!
//! Nodes live in one vector; each node lists its children by index, and a
//! child's index always exceeds its parent's, so the links are acyclic and
//! every walk terminates. Names and component kinds are interned
//! integers. The searches answer the usual gameplay queries: the first
//! descendant carrying a name, the first carrying a component kind, and
//! all descendants carrying one.

use vstd::prelude::*;

verus! {

/// One node of the scene tree.
pub struct SceneNode {
    /// Interned name, or 0 for an unnamed node.
    pub name: u32,
    /// Bit mask of the component kinds attached to this node.
    pub components: u32,
    /// Indices of the node's children; each exceeds the node's own index.
    pub children: Vec<usize>,
}

/// Whether a node carries a component of the masked kind.
pub open spec fn spec_has_component(node: SceneNode, mask: u32) -> bool {
    node.components & mask != 0
}

/// A scene tree in arena storage.
pub struct SceneTree {
    /// The nodes; child links point only from smaller to larger indices.
    pub nodes: Vec<SceneNode>,
}

impl SceneTree {
    /// Every child index points further right in the arena, so the links
    /// are acyclic.
    pub open spec fn wf(self) -> bool {
        forall|i: int, j: int|
            0 <= i < self.nodes@.len() && 0 <= j < (#[trigger] self.nodes@[i]).children@.len()
                ==> i < (#[trigger] self.nodes@[i].children@[j]) < self.nodes@.len()
    }

    /// Whether node `i` is a strict descendant of node `root`: one of its
    /// children, or a descendant of one of them.
    pub open spec fn descendant(self, root: int, i: int) -> bool
        decreases self.nodes@.len() - root,
    {
        if self.wf() && 0 <= root < self.nodes@.len() {
            exists|j: int|
                0 <= j < self.nodes@[root].children@.len()
                    && ((#[trigger] self.nodes@[root].children@[j]) == i
                        || self.descendant(self.nodes@[root].children@[j] as int, i))
        } else {
            false
        }
    }

    /// A descendant of a child is a descendant of the parent.
    proof fn lemma_descendant_step(self, root: int, j: int, i: int)
        requires
            self.wf(),
            0 <= root < self.nodes@.len(),
            0 <= j < self.nodes@[root].children@.len(),
            self.nodes@[root].children@[j] == i
                || self.descendant(self.nodes@[root].children@[j] as int, i),
        ensures
            self.descendant(root, i),
    {
    }

    /// The strict descendants of `root` in depth-first order, starting
    /// from the child at position `from`: each child, followed immediately
    /// by that child's own descendants, then the later children.
    pub open spec fn dfs_from(self, root: int, from: int) -> Seq<int>
        decreases self.nodes@.len() - root, self.nodes@[root].children@.len() - from,
    {
        if self.wf() && 0 <= root < self.nodes@.len() && 0 <= from
            && from < self.nodes@[root].children@.len() {
            let c = self.nodes@[root].children@[from] as int;
            seq![c] + self.dfs_from(c, 0) + self.dfs_from(root, from + 1)
        } else {
            Seq::empty()
        }
    }

    /// The strict descendants of `root` in depth-first order.
    pub open spec fn descendants_depth_first(self, root: int) -> Seq<int> {
        self.dfs_from(root, 0)
    }

    /// An empty scene tree.
    pub fn new() -> (t: SceneTree)
        ensures
            t.wf(),
            t.nodes@.len() == 0,
    {
        SceneTree { nodes: Vec::new() }
    }

    /// Appends a node with the given name and component mask and no
    /// children yet; returns its index.
    pub fn add_node(&mut self, name: u32, components: u32) -> (i: usize)
        requires
            old(self).wf(),
        ensures
            final(self).wf(),
            final(self).nodes@.len() == old(self).nodes@.len() + 1,
            i == old(self).nodes@.len(),
            final(self).nodes@[i as int].name == name,
            final(self).nodes@[i as int].components == components,
            final(self).nodes@[i as int].children@.len() == 0,
            forall|k: int| 0 <= k < old(self).nodes@.len()
                ==> final(self).nodes@[k] == old(self).nodes@[k],
    {
        let i = self.nodes.len();
        self.nodes.push(SceneNode { name, components, children: Vec::new() });
        i
    }

    /// Links node `child` as a child of node `parent`; the child must sit
    /// further right in the arena than the parent.
    pub fn add_child(&mut self, parent: usize, child: usize)
        requires
            old(self).wf(),
            parent < child < old(self).nodes@.len(),
        ensures
            final(self).wf(),
            final(self).nodes@.len() == old(self).nodes@.len(),
            final(self).nodes@[parent as int].children@
                == old(self).nodes@[parent as int].children@.push(child),
            final(self).nodes@[parent as int].name == old(self).nodes@[parent as int].name,
            final(self).nodes@[parent as int].components
                == old(self).nodes@[parent as int].components,
            forall|k: int| 0 <= k < old(self).nodes@.len() && k != parent
                ==> final(self).nodes@[k] == old(self).nodes@[k],
    {
        self.nodes[parent].children.push(child);
        proof {
            assert(self.nodes@ =~= old(self).nodes@.update(parent as int,
                self.nodes@[parent as int]));
        }
    }
}

/// `found` is the first node of `order` whose name is `name`.
pub open spec fn first_with_name(t: SceneTree, order: Seq<int>, name: u32, found: int) -> bool {
    exists|k: int|
        0 <= k < order.len() && (#[trigger] order[k]) == found
            && (forall|j: int| 0 <= j < k ==> t.nodes@[#[trigger] order[j]].name != name)
}

/// `found` is the first node of `order` carrying a component of the
/// masked kind.
pub open spec fn first_with_component(t: SceneTree, order: Seq<int>, mask: u32,
    found: int) -> bool {
    exists|k: int|
        0 <= k < order.len() && (#[trigger] order[k]) == found
            && (forall|j: int| 0 <= j < k ==> !spec_has_component(t.nodes@[#[trigger] order[j]],
                mask))
}

/// Searches the descendants of `node` — not `node` itself — for the first
/// node in depth-first order whose name is `name`.
pub fn find_child_with_name(tree: &SceneTree, node: usize, name: u32) -> (r: Option<usize>)
    requires
        tree.wf(),
        node < tree.nodes@.len(),
    ensures
        match r {
            Some(found) => found < tree.nodes@.len()
                && tree.descendant(node as int, found as int)
                && tree.nodes@[found as int].name == name
                && first_with_name(*tree, tree.descendants_depth_first(node as int), name,
                    found as int),
            None => {
                &&& forall|i: int| tree.descendant(node as int, i)
                    ==> tree.nodes@[i].name != name
                &&& forall|k: int|
                    0 <= k < tree.descendants_depth_first(node as int).len()
                        ==> tree.nodes@[#[trigger] tree.descendants_depth_first(
                            node as int)[k]].name != name
            },
        },
    decreases tree.nodes@.len() - node,
{
    let ghost order = tree.descendants_depth_first(node as int);
    let ghost mut done: Seq<int> = Seq::empty();
    proof {
        assert(order =~= done + tree.dfs_from(node as int, 0));
    }
    let children = &tree.nodes[node].children;
    let n = children.len();
    for k in 0..n
        invariant
            tree.wf(),
            node < tree.nodes@.len(),
            n == tree.nodes@[node as int].children@.len(),
            children@ == tree.nodes@[node as int].children@,
            order == tree.descendants_depth_first(node as int),
            order == done + tree.dfs_from(node as int, k as int),
            forall|p: int| 0 <= p < done.len()
                ==> tree.nodes@[#[trigger] done[p]].name != name,
            forall|j: int, i: int|
                #![trigger tree.nodes@[node as int].children@[j], tree.nodes@[i]]
                0 <= j < k
                && (tree.nodes@[node as int].children@[j] == i
                    || tree.descendant(tree.nodes@[node as int].children@[j] as int, i))
                ==> tree.nodes@[i].name != name,
        decreases n - k,
    {
        let child = children[k];
        let ghost sub = tree.dfs_from(child as int, 0);
        proof {
            assert(tree.dfs_from(node as int, k as int)
                == seq![child as int] + sub + tree.dfs_from(node as int, k as int + 1));
        }
        if tree.nodes[child].name == name {
            proof {
                tree.lemma_descendant_step(node as int, k as int, child as int);
                assert(order[done.len() as int] == child as int);
                assert(first_with_name(*tree, order, name, child as int));
            }
            return Some(child);
        }
        let deeper = find_child_with_name(tree, child, name);
        match deeper {
            Some(found) => {
                proof {
                    tree.lemma_descendant_step(node as int, k as int, found as int);
                    assert(sub == tree.descendants_depth_first(child as int));
                    assert(first_with_name(*tree, sub, name, found as int));
                    let k2 = choose|k2: int|
                        0 <= k2 < sub.len() && (#[trigger] sub[k2]) == found as int
                            && (forall|j: int| 0 <= j < k2
                                ==> tree.nodes@[#[trigger] sub[j]].name != name);
                    let at = done.len() + 1 + k2;
                    assert(order[at] == sub[k2]);
                    assert forall|j: int| 0 <= j < at
                        implies tree.nodes@[#[trigger] order[j]].name != name by {
                        if j < done.len() {
                            assert(order[j] == done[j]);
                        } else if j == done.len() {
                            assert(order[j] == child as int);
                        } else {
                            assert(order[j] == sub[j - done.len() - 1]);
                        }
                    }
                    assert(first_with_name(*tree, order, name, found as int));
                }
                return Some(found);
            },
            None => {
                proof {
                    let ghost done2 = done + seq![child as int] + sub;
                    assert forall|p: int| 0 <= p < done2.len()
                        implies tree.nodes@[#[trigger] done2[p]].name != name by {
                        if p < done.len() {
                            assert(done2[p] == done[p]);
                        } else if p == done.len() {
                            assert(done2[p] == child as int);
                        } else {
                            assert(done2[p] == sub[p - done.len() - 1]);
                            assert(sub == tree.descendants_depth_first(child as int));
                            assert(tree.nodes@[tree.descendants_depth_first(
                                child as int)[p - done.len() - 1]].name != name);
                        }
                    }
                    assert(order =~= done2 + tree.dfs_from(node as int, k as int + 1));
                    done = done2;
                }
            },
        }
    }
    proof {
        assert(tree.dfs_from(node as int, n as int) == Seq::<int>::empty());
        assert(order =~= done);
        assert forall|kk: int| 0 <= kk < order.len()
            implies tree.nodes@[#[trigger] order[kk]].name != name by {
            assert(order[kk] == done[kk]);
        }
        assert forall|i: int| tree.descendant(node as int, i)
            implies tree.nodes@[i].name != name by {
            let j = choose|j: int|
                0 <= j < tree.nodes@[node as int].children@.len()
                    && ((#[trigger] tree.nodes@[node as int].children@[j]) == i
                        || tree.descendant(tree.nodes@[node as int].children@[j] as int, i));
            assert(0 <= j < n);
        }
    }
    None
}

/// Searches the descendants of `node` — not `node` itself — for the first
/// node in depth-first order carrying a component of the masked kind.
pub fn find_child_with_component(tree: &SceneTree, node: usize, mask: u32) -> (r: Option<usize>)
    requires
        tree.wf(),
        node < tree.nodes@.len(),
    ensures
        match r {
            Some(found) => found < tree.nodes@.len()
                && tree.descendant(node as int, found as int)
                && spec_has_component(tree.nodes@[found as int], mask)
                && first_with_component(*tree, tree.descendants_depth_first(node as int), mask,
                    found as int),
            None => {
                &&& forall|i: int| tree.descendant(node as int, i)
                    ==> !spec_has_component(tree.nodes@[i], mask)
                &&& forall|k: int|
                    0 <= k < tree.descendants_depth_first(node as int).len()
                        ==> !spec_has_component(tree.nodes@[#[trigger]
                            tree.descendants_depth_first(node as int)[k]], mask)
            },
        },
    decreases tree.nodes@.len() - node,
{
    let ghost order = tree.descendants_depth_first(node as int);
    let ghost mut done: Seq<int> = Seq::empty();
    proof {
        assert(order =~= done + tree.dfs_from(node as int, 0));
    }
    let children = &tree.nodes[node].children;
    let n = children.len();
    for k in 0..n
        invariant
            tree.wf(),
            node < tree.nodes@.len(),
            n == tree.nodes@[node as int].children@.len(),
            children@ == tree.nodes@[node as int].children@,
            order == tree.descendants_depth_first(node as int),
            order == done + tree.dfs_from(node as int, k as int),
            forall|p: int| 0 <= p < done.len()
                ==> !spec_has_component(tree.nodes@[#[trigger] done[p]], mask),
            forall|j: int, i: int|
                #![trigger tree.nodes@[node as int].children@[j], tree.nodes@[i]]
                0 <= j < k
                && (tree.nodes@[node as int].children@[j] == i
                    || tree.descendant(tree.nodes@[node as int].children@[j] as int, i))
                ==> !spec_has_component(tree.nodes@[i], mask),
        decreases n - k,
    {
        let child = children[k];
        let ghost sub = tree.dfs_from(child as int, 0);
        proof {
            assert(tree.dfs_from(node as int, k as int)
                == seq![child as int] + sub + tree.dfs_from(node as int, k as int + 1));
        }
        if tree.nodes[child].components & mask != 0 {
            proof {
                tree.lemma_descendant_step(node as int, k as int, child as int);
                assert(order[done.len() as int] == child as int);
                assert(first_with_component(*tree, order, mask, child as int));
            }
            return Some(child);
        }
        let deeper = find_child_with_component(tree, child, mask);
        match deeper {
            Some(found) => {
                proof {
                    tree.lemma_descendant_step(node as int, k as int, found as int);
                    assert(sub == tree.descendants_depth_first(child as int));
                    assert(first_with_component(*tree, sub, mask, found as int));
                    let k2 = choose|k2: int|
                        0 <= k2 < sub.len() && (#[trigger] sub[k2]) == found as int
                            && (forall|j: int| 0 <= j < k2
                                ==> !spec_has_component(tree.nodes@[#[trigger] sub[j]], mask));
                    let at = done.len() + 1 + k2;
                    assert(order[at] == sub[k2]);
                    assert forall|j: int| 0 <= j < at
                        implies !spec_has_component(tree.nodes@[#[trigger] order[j]], mask) by {
                        if j < done.len() {
                            assert(order[j] == done[j]);
                        } else if j == done.len() {
                            assert(order[j] == child as int);
                        } else {
                            assert(order[j] == sub[j - done.len() - 1]);
                        }
                    }
                    assert(first_with_component(*tree, order, mask, found as int));
                }
                return Some(found);
            },
            None => {
                proof {
                    let ghost done2 = done + seq![child as int] + sub;
                    assert forall|p: int| 0 <= p < done2.len()
                        implies !spec_has_component(tree.nodes@[#[trigger] done2[p]], mask) by {
                        if p < done.len() {
                            assert(done2[p] == done[p]);
                        } else if p == done.len() {
                            assert(done2[p] == child as int);
                        } else {
                            assert(done2[p] == sub[p - done.len() - 1]);
                            assert(sub == tree.descendants_depth_first(child as int));
                            assert(!spec_has_component(tree.nodes@[
                                tree.descendants_depth_first(
                                    child as int)[p - done.len() - 1]], mask));
                        }
                    }
                    assert(order =~= done2 + tree.dfs_from(node as int, k as int + 1));
                    done = done2;
                }
            },
        }
    }
    proof {
        assert(tree.dfs_from(node as int, n as int) == Seq::<int>::empty());
        assert(order =~= done);
        assert forall|kk: int| 0 <= kk < order.len()
            implies !spec_has_component(tree.nodes@[#[trigger] order[kk]], mask) by {
            assert(order[kk] == done[kk]);
        }
        assert forall|i: int| tree.descendant(node as int, i)
            implies !spec_has_component(tree.nodes@[i], mask) by {
            let j = choose|j: int|
                0 <= j < tree.nodes@[node as int].children@.len()
                    && ((#[trigger] tree.nodes@[node as int].children@[j]) == i
                        || tree.descendant(tree.nodes@[node as int].children@[j] as int, i));
            assert(0 <= j < n);
        }
    }
    None
}

/// Collects, depth first, every descendant of `node` carrying a component
/// of the masked kind; previously collected entries keep their place.
pub fn find_children_with_component(tree: &SceneTree, result: &mut Vec<usize>, node: usize,
    mask: u32)
    requires
        tree.wf(),
        node < tree.nodes@.len(),
    ensures
        final(result)@.len() >= old(result)@.len(),
        forall|p: int| 0 <= p < old(result)@.len()
            ==> final(result)@[p] == old(result)@[p],
        forall|p: int| old(result)@.len() <= p < final(result)@.len()
            ==> tree.descendant(node as int, (#[trigger] final(result)@[p]) as int)
                && spec_has_component(tree.nodes@[final(result)@[p] as int], mask),
        forall|i: int| tree.descendant(node as int, i) && spec_has_component(tree.nodes@[i], mask)
            ==> final(result)@.contains(i as usize),
    decreases tree.nodes@.len() - node,
{
    let children = &tree.nodes[node].children;
    let n = children.len();
    for k in 0..n
        invariant
            tree.wf(),
            node < tree.nodes@.len(),
            n == tree.nodes@[node as int].children@.len(),
            children@ == tree.nodes@[node as int].children@,
            result@.len() >= old(result)@.len(),
            forall|p: int| 0 <= p < old(result)@.len()
                ==> result@[p] == old(result)@[p],
            forall|p: int| old(result)@.len() <= p < result@.len()
                ==> tree.descendant(node as int, (#[trigger] result@[p]) as int)
                    && spec_has_component(tree.nodes@[result@[p] as int], mask),
            forall|j: int, i: int|
                #![trigger tree.nodes@[node as int].children@[j], tree.nodes@[i]]
                0 <= j < k
                && (tree.nodes@[node as int].children@[j] == i
                    || tree.descendant(tree.nodes@[node as int].children@[j] as int, i))
                && spec_has_component(tree.nodes@[i], mask)
                ==> result@.contains(i as usize),
        decreases n - k,
    {
        let child = children[k];
        let ghost before = result@;
        if tree.nodes[child].components & mask != 0 {
            result.push(child);
            proof {
                tree.lemma_descendant_step(node as int, k as int, child as int);
                assert(result@[result@.len() - 1] == child);
            }
        }
        let ghost mid = result@;
        find_children_with_component(tree, result, child, mask);
        proof {
            assert forall|p: int| old(result)@.len() <= p < result@.len()
                implies tree.descendant(node as int, (#[trigger] result@[p]) as int)
                    && spec_has_component(tree.nodes@[result@[p] as int], mask) by {
                if p < mid.len() {
                    assert(result@[p] == mid[p]);
                } else {
                    tree.lemma_descendant_step(node as int, k as int, result@[p] as int);
                }
            }
            assert forall|j: int, i: int|
                #![trigger tree.nodes@[node as int].children@[j], tree.nodes@[i]]
                0 <= j < k + 1
                && (tree.nodes@[node as int].children@[j] == i
                    || tree.descendant(tree.nodes@[node as int].children@[j] as int, i))
                && spec_has_component(tree.nodes@[i], mask)
                implies result@.contains(i as usize) by {
                if j < k {
                    assert(before.contains(i as usize));
                    let w = choose|w: int| 0 <= w < before.len() && before[w] == i as usize;
                    assert(mid[w] == i as usize);
                    assert(result@[w] == i as usize);
                } else {
                    if tree.nodes@[node as int].children@[j] == i {
                        assert(mid[mid.len() - 1] == i as usize);
                        assert(result@[mid.len() - 1] == i as usize);
                    } else {
                        assert(result@.contains(i as usize));
                    }
                }
            }
        }
    }
    proof {
        assert forall|i: int| tree.descendant(node as int, i)
            && spec_has_component(tree.nodes@[i], mask)
            implies result@.contains(i as usize) by {
            let j = choose|j: int|
                0 <= j < tree.nodes@[node as int].children@.len()
                    && ((#[trigger] tree.nodes@[node as int].children@[j]) == i
                        || tree.descendant(tree.nodes@[node as int].children@[j] as int, i));
            assert(0 <= j < n);
        }
    }
}

} // verus!
