//! The scene graph: a forest of nodes, each with a local transform, an
//! optional mesh, a color and a visibility flag.
//!
//! A node's world transform is the product of the local transforms on the
//! way from its root down to the node. The graph turns itself into draw
//! commands by a pre-order walk from every root; a hidden node hides its
//! whole subtree.

use vstd::prelude::*;
use glam::{Mat4, Quat, Vec3};
use crate::common::{Color, RendererError};
use crate::linear::{
    canonical,
    decomposition,
    identity_cols,
    lemma_constants_are_canonical,
    identity_quat_bits,
    mat4_cols,
    mat4_from_scale_rotation_translation,
    mat4_identity,
    mat4_mul,
    one_vec3_bits,
    product_cols,
    quat_bits,
    quat_identity,
    transform_cols,
    vec3_bits,
    vec3_one,
    vec3_zero,
    zero_vec3_bits,
};
use crate::mesh::MeshStorage;
use crate::render_queue::{
    extended_by,
    lemma_extended_by_both,
    lemma_extended_by_nothing,
    lemma_extended_by_one_more,
    DrawCommandBuilder,
    DrawCommandView,
    RenderQueue,
};

verus! {

/// Node ID for the scene graph: the position of the node in the graph's
/// table of nodes.
#[derive(Clone, Copy, Debug, PartialEq, Eq, Hash, Structural)]
pub struct NodeId(pub usize);

/// A node in the scene graph.
pub struct SceneNode {
    /// The unique ID of this node
    pub id: NodeId,
    /// The parent node ID, if any
    pub parent: Option<NodeId>,
    /// The mesh ID associated with this node, if any
    pub mesh_id: Option<usize>,
    /// The local position relative to the parent
    pub position: Vec3,
    /// The local rotation relative to the parent
    pub rotation: Quat,
    /// The local scale relative to the parent
    pub scale: Vec3,
    /// The color of this node
    pub color: Color,
    /// Children of this node
    pub children: Vec<NodeId>,
    /// Whether this node is visible
    pub visible: bool,
}

/// What a scene node holds.
pub struct SceneNodeView {
    pub id: NodeId,
    pub parent: Option<NodeId>,
    pub mesh_id: Option<usize>,
    pub position: Seq<u32>,
    pub rotation: Seq<u32>,
    pub scale: Seq<u32>,
    pub color: Color,
    pub children: Seq<NodeId>,
    pub visible: bool,
}

impl SceneNodeView {
    /// A fresh node: no parent, no mesh, no children, visible, white, at the
    /// origin, not rotated, not scaled.
    pub open spec fn fresh(id: NodeId) -> SceneNodeView {
        SceneNodeView {
            id,
            parent: None,
            mesh_id: None,
            position: zero_vec3_bits(),
            rotation: identity_quat_bits(),
            scale: one_vec3_bits(),
            color: Color::white(),
            children: seq![],
            visible: true,
        }
    }

    /// The canonical components of the node's local transformation
    /// matrix.
    pub open spec fn local_transform(self) -> Seq<u32> {
        transform_cols(canonical(self.scale), canonical(self.rotation), canonical(self.position))
    }
}

impl View for SceneNode {
    type V = SceneNodeView;

    open spec fn view(&self) -> SceneNodeView {
        SceneNodeView {
            id: self.id,
            parent: self.parent,
            mesh_id: self.mesh_id,
            position: vec3_bits(self.position),
            rotation: quat_bits(self.rotation),
            scale: vec3_bits(self.scale),
            color: self.color,
            children: self.children@,
            visible: self.visible,
        }
    }
}

impl SceneNode {
    /// Creates a new scene node.
    pub fn new(id: NodeId) -> (node: Self)
        ensures
            node@ == SceneNodeView::fresh(id),
    {
        Self {
            id,
            parent: None,
            mesh_id: None,
            position: vec3_zero(),
            rotation: quat_identity(),
            scale: vec3_one(),
            color: Color::new(
                crate::linear::ONE_BITS,
                crate::linear::ONE_BITS,
                crate::linear::ONE_BITS,
                crate::linear::ONE_BITS,
            ),
            children: Vec::new(),
            visible: true,
        }
    }

    /// Calculates the local transformation matrix of this node.
    pub fn local_transform(&self) -> (m: Mat4)
        ensures
            canonical(mat4_cols(m)) == self@.local_transform(),
    {
        mat4_from_scale_rotation_translation(self.scale, self.rotation, self.position)
    }
}

/// The position of the first occurrence of `id` in `s`, or the length of
/// `s` if there is none.
pub open spec fn position(s: Seq<NodeId>, id: NodeId) -> int
    decreases s.len(),
{
    if s.len() == 0 {
        0
    } else if s[0] == id {
        0
    } else {
        1 + position(s.skip(1), id)
    }
}

/// `s` without the first occurrence of `id`: the last element takes its
/// place. `s` itself if `id` does not occur.
pub open spec fn swap_removed(s: Seq<NodeId>, id: NodeId) -> Seq<NodeId> {
    let k = position(s, id);
    if k < s.len() {
        s.update(k, s.last()).drop_last()
    } else {
        s
    }
}

/// What a scene graph holds: its nodes, each at the position that its ID
/// names, and the IDs of its roots.
pub struct SceneGraphView {
    pub nodes: Seq<SceneNodeView>,
    pub root_nodes: Seq<NodeId>,
}

impl SceneGraphView {
    /// Whether `id` names a node of the graph.
    pub open spec fn has(self, id: NodeId) -> bool {
        id.0 < self.nodes.len()
    }

    /// The node that `id` names.
    pub open spec fn node(self, id: NodeId) -> SceneNodeView {
        self.nodes[id.0 as int]
    }

    /// The graph with `node` in the place that `id` names.
    pub open spec fn with_node(self, id: NodeId, node: SceneNodeView) -> SceneGraphView {
        SceneGraphView { nodes: self.nodes.update(id.0 as int, node), ..self }
    }

    /// The graph after `id` was taken out of the children of its parent,
    /// or, if it has no parent, out of the roots. The node's own record is
    /// as before.
    pub open spec fn unlinked(self, id: NodeId) -> SceneGraphView {
        match self.node(id).parent {
            Some(p) => {
                let parent = self.node(p);
                self.with_node(
                    p,
                    SceneNodeView { children: swap_removed(parent.children, id), ..parent },
                )
            },
            None => SceneGraphView { root_nodes: swap_removed(self.root_nodes, id), ..self },
        }
    }

    /// The graph after `id` was given the parent `parent` and added at the
    /// end of that node's children, or, without a parent, at the end of the
    /// roots.
    pub open spec fn linked(self, id: NodeId, parent: Option<NodeId>) -> SceneGraphView {
        let s = self.with_node(id, SceneNodeView { parent, ..self.node(id) });
        match parent {
            Some(p) => {
                let node = s.node(p);
                s.with_node(p, SceneNodeView { children: node.children.push(id), ..node })
            },
            None => SceneGraphView { root_nodes: s.root_nodes.push(id), ..s },
        }
    }

    /// The graph after `id` was moved under `parent`, or to the roots.
    pub open spec fn reparented(self, id: NodeId, parent: Option<NodeId>) -> SceneGraphView {
        self.unlinked(id).linked(id, parent)
    }

    /// Every link of the graph is sound: a node sits at the position that
    /// its ID names; parents, children and roots are nodes of the graph; a
    /// node is among the children of its parent, and of nothing else; the
    /// roots have no parent; no ID occurs twice among the children of a node
    /// or among the roots.
    pub open spec fn links_ok(self) -> bool {
        let n = self.nodes.len();
        &&& n <= usize::MAX
        &&& forall|i: int| 0 <= i < n ==> (#[trigger] self.nodes[i]).id == NodeId(i as usize)
        &&& forall|i: int|
            0 <= i < n ==> ((#[trigger] self.nodes[i]).parent matches Some(p) ==> p.0 < n
                && self.nodes[p.0 as int].children.contains(NodeId(i as usize)))
        &&& forall|i: int, k: int|
            0 <= i < n && 0 <= k < self.nodes[i].children.len() ==> (
            #[trigger] self.nodes[i].children[k]).0 < n && self.nodes[self.nodes[i].children[k].0 as int].parent
                == Some(NodeId(i as usize))
        &&& forall|i: int| 0 <= i < n ==> (#[trigger] self.nodes[i]).children.no_duplicates()
        &&& forall|k: int|
            0 <= k < self.root_nodes.len() ==> (#[trigger] self.root_nodes[k]).0 < n
                && self.nodes[self.root_nodes[k].0 as int].parent is None
        &&& self.root_nodes.no_duplicates()
    }

    /// `rank` witnesses that no node is its own ancestor: the rank of a node
    /// is above that of its parent, and all ranks are below `bound`.
    pub open spec fn ranked(self, rank: Seq<nat>, bound: nat) -> bool {
        let n = self.nodes.len();
        &&& rank.len() == n
        &&& forall|i: int| 0 <= i < n ==> #[trigger] rank[i] < bound
        &&& forall|i: int|
            0 <= i < n ==> ((#[trigger] self.nodes[i]).parent matches Some(p) ==> p.0 < n
                && rank[p.0 as int] < rank[i])
    }

    /// Whether the way from `x` up to its root passes through `a`, `x`
    /// itself included.
    pub open spec fn in_subtree(self, rank: Seq<nat>, a: NodeId, x: NodeId) -> bool
        decreases rank[x.0 as int],
    {
        x == a || (self.has(x) && match self.node(x).parent {
            Some(q) => self.has(q) && x.0 < rank.len() && q.0 < rank.len() && rank[q.0 as int]
                < rank[x.0 as int] && self.in_subtree(rank, a, q),
            None => false,
        })
    }

    /// The canonical components of the matrix with the canonical
    /// components `m`, multiplied from the left by the local transform of
    /// each ancestor of `x` in turn, from the parent of `x` up to its root.
    pub open spec fn lifted(self, rank: Seq<nat>, x: NodeId, m: Seq<u32>) -> Seq<u32>
        decreases rank[x.0 as int],
    {
        match self.node(x).parent {
            Some(q) => if self.has(x) && self.has(q) && x.0 < rank.len() && q.0 < rank.len()
                && rank[q.0 as int] < rank[x.0 as int] {
                self.lifted(rank, q, product_cols(self.node(q).local_transform(), m))
            } else {
                m
            },
            None => m,
        }
    }

    /// The canonical components of the world transform of `x`: its local
    /// transform, multiplied from the left by the local transform of each
    /// ancestor in turn, up to the root.
    pub open spec fn world_transform(self, rank: Seq<nat>, x: NodeId) -> Seq<u32> {
        self.lifted(rank, x, self.node(x).local_transform())
    }
}

/// A hierarchical scene graph of objects.
pub struct SceneGraph {
    /// All nodes in the scene graph
    nodes: Vec<SceneNode>,
    /// Root nodes
    root_nodes: Vec<NodeId>,
    /// A rank for each node, above that of the node's parent
    rank: Ghost<Seq<nat>>,
    /// A number above every rank
    bound: Ghost<nat>,
}

/// The records of a list of nodes, in order.
pub open spec fn node_views(nodes: Seq<SceneNode>) -> Seq<SceneNodeView> {
    nodes.map_values(|n: SceneNode| n@)
}

impl View for SceneGraph {
    type V = SceneGraphView;

    closed spec fn view(&self) -> SceneGraphView {
        SceneGraphView { nodes: node_views(self.nodes@), root_nodes: self.root_nodes@ }
    }
}

impl SceneGraph {
    /// The ranks that witness that the graph has no cycle.
    pub closed spec fn rank(&self) -> Seq<nat> {
        self.rank@
    }

    /// A number above every rank.
    pub closed spec fn bound(&self) -> nat {
        self.bound@
    }

    /// The graph is a forest: its links are sound and no node is its own
    /// ancestor.
    pub open spec fn wf(&self) -> bool {
        &&& self@.links_ok()
        &&& self@.ranked(self.rank(), self.bound())
    }

    /// Whether `x` is `a` or a descendant of `a`.
    pub open spec fn in_subtree(&self, a: NodeId, x: NodeId) -> bool {
        self@.in_subtree(self.rank(), a, x)
    }

    /// The canonical components of the world transform of `x`.
    pub open spec fn world_transform(&self, x: NodeId) -> Seq<u32> {
        self@.world_transform(self.rank(), x)
    }

    /// Whether the given scale, rotation and translation are what `glam`
    /// has read out of the world transform of `x`: out of a matrix whose
    /// canonical components are those of the world transform. The
    /// translation is the first three components of the fourth column of
    /// that matrix.
    pub open spec fn read_from_world(
        &self,
        x: NodeId,
        scale: Seq<u32>,
        rotation: Seq<u32>,
        translation: Seq<u32>,
    ) -> bool {
        exists|cols: Seq<u32>|
            canonical(cols) == self.world_transform(x) && #[trigger] decomposition(
                cols,
                scale,
                rotation,
                translation,
            ) && translation == cols.subrange(12, 15)
    }

    /// Creates an empty scene graph.
    pub fn new() -> (g: Self)
        ensures
            g.wf(),
            g@.nodes == Seq::<SceneNodeView>::empty(),
            g@.root_nodes == Seq::<NodeId>::empty(),
    {
        let g = Self {
            nodes: Vec::new(),
            root_nodes: Vec::new(),
            rank: Ghost(Seq::empty()),
            bound: Ghost(0),
        };
        assert(g@.nodes =~= Seq::<SceneNodeView>::empty());
        g
    }

    /// The number of nodes ever created.
    pub fn node_count(&self) -> (n: usize)
        ensures
            n == self@.nodes.len(),
    {
        self.nodes.len()
    }

    /// The node that `node_id` names, if there is one.
    pub fn node(&self, node_id: NodeId) -> (node: Option<&SceneNode>)
        ensures
            self@.has(node_id) ==> (node matches Some(n) && n@ == self@.node(node_id)),
            !self@.has(node_id) ==> node is None,
    {
        if node_id.0 < self.nodes.len() {
            Some(&self.nodes[node_id.0])
        } else {
            None
        }
    }

    /// The roots of the graph.
    pub fn root_nodes(&self) -> (roots: &Vec<NodeId>)
        ensures
            roots@ == self@.root_nodes,
    {
        &self.root_nodes
    }

    /// Creates a new node in the scene graph: a visible root without mesh
    /// or children, with the identity transform and the color white. Its ID
    /// is the number of nodes created before.
    pub fn create_node(&mut self) -> (id: NodeId)
        requires
            old(self).wf(),
        ensures
            final(self).wf(),
            id.0 == old(self)@.nodes.len(),
            final(self)@.nodes == old(self)@.nodes.push(SceneNodeView::fresh(id)),
            final(self)@.root_nodes == old(self)@.root_nodes.push(id),
    {
        let id = NodeId(self.nodes.len());
        let node = SceneNode::new(id);
        self.nodes.push(node);
        self.root_nodes.push(id);
        proof {
            self.rank@ = self.rank@.push(0);
            self.bound@ = self.bound@ + 1;
            assert(self@.nodes.len() == self.nodes.len());
            assert(self@.nodes =~= old(self)@.nodes.push(SceneNodeView::fresh(id)));
            let v = self@;
            let o = old(self)@;
            assert forall|i: int| 0 <= i < v.nodes.len() implies ((#[trigger] v.nodes[i]).parent matches Some(
                p,
            ) ==> p.0 < v.nodes.len() && v.nodes[p.0 as int].children.contains(NodeId(i as usize))) by {
                if i < o.nodes.len() {
                    assert(v.nodes[i] == o.nodes[i]);
                    if let Some(p) = o.nodes[i].parent {
                        assert(v.nodes[p.0 as int] == o.nodes[p.0 as int]);
                    }
                }
            }
            assert forall|i: int, k: int|
                0 <= i < v.nodes.len() && 0 <= k < v.nodes[i].children.len() implies (
            #[trigger] v.nodes[i].children[k]).0 < v.nodes.len() && v.nodes[v.nodes[i].children[k].0 as int].parent
                == Some(NodeId(i as usize)) by {
                assert(v.nodes[i] == o.nodes[i]);
                let c = o.nodes[i].children[k];
                assert(v.nodes[c.0 as int] == o.nodes[c.0 as int]);
            }
            assert forall|k: int| 0 <= k < v.root_nodes.len() implies (#[trigger] v.root_nodes[k]).0
                < v.nodes.len() && v.nodes[v.root_nodes[k].0 as int].parent is None by {
                if k < o.root_nodes.len() {
                    assert(v.root_nodes[k] == o.root_nodes[k]);
                    assert(v.nodes[o.root_nodes[k].0 as int] == o.nodes[o.root_nodes[k].0 as int]);
                }
            }
            assert(v.root_nodes.no_duplicates()) by {
                assert forall|a: int, b: int|
                    0 <= a < v.root_nodes.len() && 0 <= b < v.root_nodes.len() && a != b implies v.root_nodes[a]
                    != v.root_nodes[b] by {
                    if a < o.root_nodes.len() {
                        assert(v.root_nodes[a] == o.root_nodes[a]);
                    }
                    if b < o.root_nodes.len() {
                        assert(v.root_nodes[b] == o.root_nodes[b]);
                    }
                }
            }
            assert forall|i: int| 0 <= i < v.nodes.len() implies ((#[trigger] v.nodes[i]).parent matches Some(
                p,
            ) ==> p.0 < v.nodes.len() && self.rank()[p.0 as int] < self.rank()[i]) by {
                if i < o.nodes.len() {
                    assert(v.nodes[i] == o.nodes[i]);
                }
            }
        }
        id
    }

    /// Creates a new node with a mesh.
    pub fn create_mesh_node(&mut self, mesh_id: usize) -> (id: NodeId)
        requires
            old(self).wf(),
        ensures
            final(self).wf(),
            id.0 == old(self)@.nodes.len(),
            final(self)@.nodes == old(self)@.nodes.push(
                SceneNodeView { mesh_id: Some(mesh_id), ..SceneNodeView::fresh(id) },
            ),
            final(self)@.root_nodes == old(self)@.root_nodes.push(id),
    {
        let id = self.create_node();
        let ghost mid = self@;
        self.nodes[id.0].mesh_id = Some(mesh_id);
        proof {
            assert(mid.nodes[id.0 as int] == SceneNodeView::fresh(id));
            assert(self@.nodes[id.0 as int] == SceneNodeView {
                mesh_id: Some(mesh_id),
                ..mid.nodes[id.0 as int]
            });
            assert(self@.nodes.len() == mid.nodes.len());
            assert forall|i: int| 0 <= i < mid.nodes.len() && i != id.0 implies self@.nodes[i]
                == mid.nodes[i] by {}
            let target = old(self)@.nodes.push(
                SceneNodeView { mesh_id: Some(mesh_id), ..SceneNodeView::fresh(id) },
            );
            assert(target.len() == self@.nodes.len());
            assert(target[id.0 as int] == self@.nodes[id.0 as int]);
            assert forall|i: int| 0 <= i < target.len() implies target[i] == self@.nodes[i] by {
                if i != id.0 {
                    assert(self@.nodes[i] == mid.nodes[i]);
                    assert(mid.nodes[i] == old(self)@.nodes[i]);
                }
            }
            assert(self@.nodes =~= target);
            lemma_same_links(mid, self@, self.rank(), self.bound());
        }
        id
    }

    /// Sets the position, rotation and scale of a node relative to its
    /// parent.
    pub fn set_transform(
        &mut self,
        node_id: NodeId,
        position: Vec3,
        rotation: Quat,
        scale: Vec3,
    ) -> (r: Result<(), RendererError>)
        requires
            old(self).wf(),
        ensures
            final(self).wf(),
            !old(self)@.has(node_id) ==> r == Err::<(), RendererError>(RendererError::InvalidMeshId)
                && final(self)@ == old(self)@,
            old(self)@.has(node_id) ==> r == Ok::<(), RendererError>(()) && final(self)@ == old(
                self,
            )@.with_node(
                node_id,
                SceneNodeView {
                    position: vec3_bits(position),
                    rotation: quat_bits(rotation),
                    scale: vec3_bits(scale),
                    ..old(self)@.node(node_id)
                },
            ),
    {
        if node_id.0 >= self.nodes.len() {
            return Err(RendererError::InvalidMeshId);
        }
        self.nodes[node_id.0].position = position;
        self.nodes[node_id.0].rotation = rotation;
        self.nodes[node_id.0].scale = scale;
        proof {
            assert(self@.nodes =~= old(self)@.with_node(
                node_id,
                SceneNodeView {
                    position: vec3_bits(position),
                    rotation: quat_bits(rotation),
                    scale: vec3_bits(scale),
                    ..old(self)@.node(node_id)
                },
            ).nodes);
            lemma_same_links(old(self)@, self@, self.rank(), self.bound());
        }
        Ok(())
    }

    /// Sets the mesh of a node.
    pub fn set_mesh(&mut self, node_id: NodeId, mesh_id: Option<usize>) -> (r: Result<
        (),
        RendererError,
    >)
        requires
            old(self).wf(),
        ensures
            final(self).wf(),
            !old(self)@.has(node_id) ==> r == Err::<(), RendererError>(RendererError::InvalidMeshId)
                && final(self)@ == old(self)@,
            old(self)@.has(node_id) ==> r == Ok::<(), RendererError>(()) && final(self)@ == old(
                self,
            )@.with_node(node_id, SceneNodeView { mesh_id, ..old(self)@.node(node_id) }),
    {
        if node_id.0 >= self.nodes.len() {
            return Err(RendererError::InvalidMeshId);
        }
        self.nodes[node_id.0].mesh_id = mesh_id;
        proof {
            assert(self@.nodes =~= old(self)@.with_node(
                node_id,
                SceneNodeView { mesh_id, ..old(self)@.node(node_id) },
            ).nodes);
            lemma_same_links(old(self)@, self@, self.rank(), self.bound());
        }
        Ok(())
    }

    /// Sets the color of a node.
    pub fn set_color(&mut self, node_id: NodeId, color: Color) -> (r: Result<(), RendererError>)
        requires
            old(self).wf(),
        ensures
            final(self).wf(),
            !old(self)@.has(node_id) ==> r == Err::<(), RendererError>(RendererError::InvalidMeshId)
                && final(self)@ == old(self)@,
            old(self)@.has(node_id) ==> r == Ok::<(), RendererError>(()) && final(self)@ == old(
                self,
            )@.with_node(node_id, SceneNodeView { color, ..old(self)@.node(node_id) }),
    {
        if node_id.0 >= self.nodes.len() {
            return Err(RendererError::InvalidMeshId);
        }
        self.nodes[node_id.0].color = color;
        proof {
            assert(self@.nodes =~= old(self)@.with_node(
                node_id,
                SceneNodeView { color, ..old(self)@.node(node_id) },
            ).nodes);
            lemma_same_links(old(self)@, self@, self.rank(), self.bound());
        }
        Ok(())
    }

    /// Sets the visibility of a node. A hidden node hides its subtree.
    pub fn set_visible(&mut self, node_id: NodeId, visible: bool) -> (r: Result<(), RendererError>)
        requires
            old(self).wf(),
        ensures
            final(self).wf(),
            !old(self)@.has(node_id) ==> r == Err::<(), RendererError>(RendererError::InvalidMeshId)
                && final(self)@ == old(self)@,
            old(self)@.has(node_id) ==> r == Ok::<(), RendererError>(()) && final(self)@ == old(
                self,
            )@.with_node(node_id, SceneNodeView { visible, ..old(self)@.node(node_id) }),
    {
        if node_id.0 >= self.nodes.len() {
            return Err(RendererError::InvalidMeshId);
        }
        self.nodes[node_id.0].visible = visible;
        proof {
            assert(self@.nodes =~= old(self)@.with_node(
                node_id,
                SceneNodeView { visible, ..old(self)@.node(node_id) },
            ).nodes);
            lemma_same_links(old(self)@, self@, self.rank(), self.bound());
        }
        Ok(())
    }

    /// Whether `parent_id` is `node_id` itself or one of its descendants,
    /// so that making it the parent of `node_id` would close a cycle. The
    /// descendants of `node_id` are walked, children before grandchildren.
    fn would_create_cycle(&self, node_id: NodeId, parent_id: NodeId) -> (r: bool)
        requires
            self.wf(),
            self@.has(node_id),
            self@.has(parent_id),
        ensures
            r == self.in_subtree(node_id, parent_id),
    {
        // If the node that is to be set as parent is the node itself, it is a cycle.
        if node_id == parent_id {
            return true;
        }
        // Check whether the potential parent is below the node.
        let mut to_check: Vec<NodeId> = Vec::new();
        to_check.push(node_id);
        let ghost mut checked: Set<int> = Set::empty();
        proof {
            assert(to_check@ =~= seq![node_id]);
            lemma_walk_start(self@, self.rank(), node_id, parent_id);
        }
        loop
            invariant
                self.wf(),
                self@.has(node_id),
                self@.has(parent_id),
                node_id != parent_id,
                walk_ok(self@, self.rank(), node_id, parent_id, to_check@, checked),
                self.in_subtree(node_id, parent_id) ==> reaches(
                    self@,
                    self.rank(),
                    parent_id,
                    to_check@,
                ),
            decreases self@.nodes.len() - checked.len(),
        {
            let ghost before = to_check@;
            let ghost earlier = checked;
            let current = match to_check.pop() {
                Some(current) => current,
                None => {
                    proof {
                        lemma_walk_end(self@, self.rank(), parent_id, before);
                    }
                    return false;
                },
            };
            let ghost base = to_check@;
            proof {
                assert(base =~= before.drop_last());
                lemma_walk_pop(
                    self@,
                    self.rank(),
                    self.bound(),
                    node_id,
                    parent_id,
                    before,
                    earlier,
                );
                checked = earlier.insert(current.0 as int);
                assert(self@.nodes[current.0 as int].id == current);
            }
            let children = &self.nodes[current.0].children;
            let mut k: usize = 0;
            assert(base + children@.take(0) =~= base);
            while k < children.len()
                invariant
                    k <= children.len(),
                    self.wf(),
                    self@.has(node_id),
                    self@.has(current),
                    current != parent_id,
                    children@ == self@.node(current).children,
                    self.in_subtree(node_id, current),
                    checked == earlier.insert(current.0 as int),
                    checked.len() == earlier.len() + 1,
                    earlier.len() < self@.nodes.len(),
                    pending(self@, self.rank(), node_id, parent_id, base, earlier, current),
                    to_check@ == base + children@.take(k as int),
                    forall|j: int| 0 <= j < k ==> #[trigger] children@[j] != parent_id,
                decreases children.len() - k,
            {
                let child = children[k];
                if child == parent_id {
                    proof {
                        lemma_walk_child(self@, self.rank(), self.bound(), node_id, current, k as int);
                    }
                    return true;
                }
                to_check.push(child);
                proof {
                    assert(children@.take(k as int).push(child) =~= children@.take(k + 1));
                    assert(to_check@ =~= base + children@.take(k + 1));
                }
                k += 1;
            }
            proof {
                assert(children@.take(k as int) =~= children@);
                lemma_walk_pushed(
                    self@,
                    self.rank(),
                    self.bound(),
                    node_id,
                    parent_id,
                    base,
                    earlier,
                    current,
                );
            }
        }
    }

    /// Whether a request to link `node_id` under `parent_id` names a node
    /// that does not exist.
    pub open spec fn invalid_link(&self, node_id: NodeId, parent_id: Option<NodeId>) -> bool {
        !self@.has(node_id) || (parent_id matches Some(p) && !self@.has(p))
    }

    /// Whether linking `node_id` under `parent_id` would close a cycle:
    /// the new parent is the node itself or one of its descendants.
    pub open spec fn cyclic_link(&self, node_id: NodeId, parent_id: Option<NodeId>) -> bool {
        parent_id matches Some(p) && self.in_subtree(node_id, p)
    }

    /// Sets the parent of a node; `None` makes it a root.
    ///
    /// The node leaves the children of its old parent, or the roots, and
    /// becomes the last child of its new parent, or the last root. A request
    /// that names a node that does not exist is refused and changes
    /// nothing. A request that would close a cycle is refused too, and
    /// leaves the node as the last root.
    pub fn set_parent(&mut self, node_id: NodeId, parent_id: Option<NodeId>) -> (r: Result<
        (),
        RendererError,
    >)
        requires
            old(self).wf(),
        ensures
            final(self).wf(),
            old(self).invalid_link(node_id, parent_id) ==> r == Err::<(), RendererError>(
                RendererError::InvalidMeshId,
            ) && final(self)@ == old(self)@,
            !old(self).invalid_link(node_id, parent_id) && old(self).cyclic_link(node_id, parent_id)
                ==> r == Err::<(), RendererError>(RendererError::InvalidMeshId) && final(self)@
                == old(self)@.reparented(node_id, None),
            !old(self).invalid_link(node_id, parent_id) && !old(self).cyclic_link(
                node_id,
                parent_id,
            ) ==> r == Ok::<(), RendererError>(()) && final(self)@ == old(self)@.reparented(
                node_id,
                parent_id,
            ),
    {
        if node_id.0 >= self.nodes.len() {
            return Err(RendererError::InvalidMeshId);
        }
        let cyclic = match parent_id {
            Some(p) => {
                if p.0 >= self.nodes.len() {
                    return Err(RendererError::InvalidMeshId);
                }
                self.would_create_cycle(node_id, p)
            },
            None => false,
        };
        let target = if cyclic {
            None
        } else {
            parent_id
        };
        let ghost before = self@;
        let ghost old_rank = self.rank();
        let ghost old_bound = self.bound();
        assert(before.nodes[node_id.0 as int].id == node_id);
        match self.nodes[node_id.0].parent {
            Some(old_parent) => {
                assert(before.nodes[node_id.0 as int].parent == Some(old_parent));
                remove_id(&mut self.nodes[old_parent.0].children, node_id);
            },
            None => {
                assert(before.nodes[node_id.0 as int].parent is None);
                remove_id(&mut self.root_nodes, node_id);
            },
        }
        assert(self@.root_nodes =~= before.unlinked(node_id).root_nodes);
        assert(self@.nodes =~~= before.unlinked(node_id).nodes);
        let ghost middle = self@;
        self.nodes[node_id.0].parent = target;
        match target {
            Some(p) => {
                self.nodes[p.0].children.push(node_id);
            },
            None => {
                self.root_nodes.push(node_id);
            },
        }
        proof {
            assert(self@.root_nodes =~= middle.linked(node_id, target).root_nodes);
            assert(self@.nodes =~~= middle.linked(node_id, target).nodes);
            assert(self@ == before.reparented(node_id, target));
            if let Some(p) = target {
                assert(p != node_id);
            }
            lemma_reparent_links(before, node_id, target);
            lemma_reparent_ranks(before, old_rank, old_bound, node_id, target);
            self.rank@ = before.ranks_after(old_rank, node_id, target);
            self.bound@ = old_bound + old_bound;
        }
        if cyclic {
            Err(RendererError::InvalidMeshId)
        } else {
            Ok(())
        }
    }

    /// Cuts a node loose: takes it out of the children of its parent, or
    /// out of the roots, and leaves it without a parent.
    fn cut(&mut self, node_id: NodeId)
        requires
            old(self).wf(),
            old(self)@.has(node_id),
        ensures
            final(self).wf(),
            final(self)@ == old(self)@.cut(node_id),
    {
        let ghost before = self@;
        assert(before.nodes[node_id.0 as int].id == node_id);
        match self.nodes[node_id.0].parent {
            Some(old_parent) => {
                assert(before.nodes[node_id.0 as int].parent == Some(old_parent));
                remove_id(&mut self.nodes[old_parent.0].children, node_id);
            },
            None => {
                assert(before.nodes[node_id.0 as int].parent is None);
                remove_id(&mut self.root_nodes, node_id);
            },
        }
        assert(self@.root_nodes =~= before.unlinked(node_id).root_nodes);
        assert(self@.nodes =~~= before.unlinked(node_id).nodes);
        self.nodes[node_id.0].parent = None;
        proof {
            assert(self@.nodes =~~= before.cut(node_id).nodes);
            lemma_cut(before, self.rank(), self.bound(), node_id);
        }
    }

    /// Lets go of the children of a node: moves them to its parent, in
    /// order, or with `recursive` cuts them loose.
    fn release_children(&mut self, node_id: NodeId, recursive: bool)
        requires
            old(self).wf(),
            old(self)@.has(node_id),
        ensures
            final(self).wf(),
            final(self)@.has(node_id),
            final(self)@ == (if recursive {
                old(self)@.cut_all(old(self)@.node(node_id).children)
            } else {
                old(self)@.reparented_all(
                    old(self)@.node(node_id).children,
                    old(self)@.node(node_id).parent,
                )
            }),
            final(self)@.node(node_id).children == Seq::<NodeId>::empty(),
            final(self)@.node(node_id).parent == old(self)@.node(node_id).parent,
            apart(
                old(self)@,
                node_id,
                old(self)@.node(node_id).children,
                old(self)@.node(node_id).parent,
            ),
            children_kept(old(self)@, final(self)@, old(self)@.node(node_id).children),
            !recursive ==> forall|k: int|
                0 <= k < old(self)@.node(node_id).children.len() ==> old(self)@.node(
                    node_id,
                ).children[k] != node_id && relinked(
                    final(self)@,
                    #[trigger] old(self)@.node(node_id).children[k],
                    old(self)@.node(node_id).parent,
                ),
    {
        let ghost before = self@;
        let children = self.nodes[node_id.0].children.clone();
        let parent = self.nodes[node_id.0].parent;
        assert(before.nodes[node_id.0 as int].id == node_id);
        assert(children@ == before.node(node_id).children);
        assert(before.nodes[node_id.0 as int].children.no_duplicates());
        proof {
            lemma_children_apart(before, self.rank(), self.bound(), node_id);
            lemma_children_kept_at_first(before, children@);
        }
        let ghost goal = if recursive {
            before.cut_all(children@)
        } else {
            before.reparented_all(children@, parent)
        };
        let mut i: usize = 0;
        assert(children@.skip(0) =~= children@);
        while i < children.len()
            invariant
                i <= children.len(),
                self.wf(),
                self@.has(node_id),
                children@.no_duplicates(),
                self@.node(node_id).parent == parent,
                apart(before, node_id, children@, parent),
                children_kept(before, self@, children@),
                forall|x: NodeId|
                    self@.node(node_id).children.contains(x) <==> exists|j: int|
                        i <= j < children@.len() && #[trigger] children@[j] == x,
                goal == if recursive {
                    self@.cut_all(children@.skip(i as int))
                } else {
                    self@.reparented_all(children@.skip(i as int), parent)
                },
                !recursive ==> forall|j: int|
                    0 <= j < i ==> children@[j] != node_id && relinked(
                        self@,
                        #[trigger] children@[j],
                        parent,
                    ),
            decreases children.len() - i,
        {
            let child = children[i];
            let ghost here = self@;
            proof {
                assert(children@.skip(i as int)[0] == child);
                assert(children@.skip(i as int).skip(1) =~= children@.skip(i + 1));
                lemma_child(here, node_id, child);
                if let Some(p) = parent {
                    if self.in_subtree(child, p) {
                        lemma_subtree_rank(self@, self.rank(), self.bound(), child, p);
                    }
                }
            }
            if recursive {
                self.cut(child);
            } else {
                let moved = self.set_parent(child, parent);
                assert(moved is Ok);
            }
            proof {
                let now = self@;
                lemma_release_step(here, node_id, child, parent, recursive);
                lemma_release_keeps(before, here, node_id, child, parent, recursive, children@);
                assert forall|x: NodeId|
                    now.node(node_id).children.contains(x) <==> exists|j: int|
                        i + 1 <= j < children@.len() && #[trigger] children@[j] == x by {
                    if now.node(node_id).children.contains(x) {
                        assert(here.node(node_id).children.contains(x));
                        let j = choose|j: int| i <= j < children@.len() && children@[j] == x;
                        assert(j != i);
                    }
                    if exists|j: int| i + 1 <= j < children@.len() && #[trigger] children@[j] == x {
                        let j = choose|j: int| i + 1 <= j < children@.len() && children@[j] == x;
                        assert(children@[j] != children@[i as int]);
                        assert(here.node(node_id).children.contains(x));
                    }
                }
                if !recursive {
                    assert forall|j: int| 0 <= j < i + 1 implies children@[j] != node_id && relinked(
                        now,
                        #[trigger] children@[j],
                        parent,
                    ) by {
                        let c = children@[j];
                        if j < i {
                            assert(c != child);
                            lemma_relinked_kept(here, child, parent, c);
                        } else {
                            lemma_relinked_new(here, child, parent);
                        }
                    }
                }
            }
            i += 1;
        }
        proof {
            assert(children@.skip(i as int) =~= seq![]);
            let left = self@.node(node_id).children;
            if left.len() > 0 {
                assert(left.contains(left[0]));
            }
            assert(left =~= seq![]);
        }
    }

    /// Removes a node from the graph.
    ///
    /// Without `recursive` the children of the node move to its parent, in
    /// order, or to the roots if it has none. With `recursive` they are cut
    /// loose with their subtrees, so that nothing below the node is drawn
    /// any more. The node itself is then cut loose and left hidden, without
    /// mesh and without children. Its ID is not given out again: the number
    /// of nodes stays. The node is no root afterwards, and each of its
    /// former children has the children that it had.
    pub fn remove_node(&mut self, node_id: NodeId, recursive: bool) -> (r: Result<
        (),
        RendererError,
    >)
        requires
            old(self).wf(),
        ensures
            final(self).wf(),
            !old(self)@.has(node_id) ==> r == Err::<(), RendererError>(RendererError::InvalidMeshId)
                && final(self)@ == old(self)@,
            old(self)@.has(node_id) ==> r == Ok::<(), RendererError>(()) && final(self)@ == old(
                self,
            )@.removed(node_id, recursive),
            old(self)@.has(node_id) ==> final(self)@.has(node_id)
                && final(self)@.node(node_id).children == Seq::<NodeId>::empty()
                && !final(self)@.node(node_id).visible
                && final(self)@.node(node_id).mesh_id is None
                && final(self)@.node(node_id).parent is None,
            final(self)@.nodes.len() == old(self)@.nodes.len(),
            old(self)@.has(node_id) ==> !final(self)@.root_nodes.contains(node_id),
            old(self)@.has(node_id) ==> forall|k: int|
                0 <= k < old(self)@.node(node_id).children.len() ==> final(self)@.node(
                    #[trigger] old(self)@.node(node_id).children[k],
                ).children == old(self)@.node(old(self)@.node(node_id).children[k]).children,
            old(self)@.has(node_id) && !recursive ==> forall|k: int|
                0 <= k < old(self)@.node(node_id).children.len() ==> relinked(
                    final(self)@,
                    #[trigger] old(self)@.node(node_id).children[k],
                    old(self)@.node(node_id).parent,
                ),
    {
        if node_id.0 >= self.nodes.len() {
            return Err(RendererError::InvalidMeshId);
        }
        let ghost before = self@;
        self.release_children(node_id, recursive);
        let ghost moved = self@;
        self.cut(node_id);
        let ghost cut = self@;
        self.nodes[node_id.0].visible = false;
        self.nodes[node_id.0].mesh_id = None;
        self.nodes[node_id.0].children.clear();
        proof {
            assert(moved.nodes[node_id.0 as int].parent matches Some(p) ==> moved.has(p));
            lemma_cut_fields(moved, node_id);
            assert(cut.node(node_id).children =~= seq![]);
            assert(self@.nodes =~~= before.removed(node_id, recursive).nodes);
            lemma_same_links(cut, self@, self.rank(), self.bound());
            lemma_removed_keeps(before, moved, self@, node_id);
            if !recursive {
                assert forall|k: int| 0 <= k < before.node(node_id).children.len() implies relinked(
                    self@,
                    #[trigger] before.node(node_id).children[k],
                    before.node(node_id).parent,
                ) by {
                    let c = before.node(node_id).children[k];
                    lemma_relinked_after_cut(moved, node_id, c, before.node(node_id).parent);
                    lemma_relinked_same(cut, self@, c, before.node(node_id).parent);
                }
            }
        }
        Ok(())
    }

    /// The draw commands of the whole scene, in the order of a pre-order
    /// walk from every root, for a mesh cache that holds `mesh_count`
    /// meshes.
    pub open spec fn commands(&self, mesh_count: nat) -> Seq<DrawCommandView> {
        self@.roots_commands(self.rank(), self.bound(), mesh_count, 0)
    }

    /// Generates the draw commands for the entire scene and adds them to
    /// the queue.
    ///
    /// Every root is walked in pre-order. A visible node whose mesh is in
    /// the cache gives one command that draws that mesh under the node's
    /// accumulated transform; a hidden node gives nothing, and neither does
    /// anything below it. What the queue held stays in front, as it was.
    pub fn generate_draw_commands(
        &self,
        render_queue: &mut RenderQueue,
        mesh_storage: &MeshStorage,
    ) -> (r: Result<(), RendererError>)
        requires
            self.wf(),
        ensures
            r == Ok::<(), RendererError>(()),
            extended_by(
                old(render_queue)@,
                final(render_queue)@,
                self.commands(mesh_storage@.len()),
            ),
    {
        let ghost start = render_queue@;
        let ghost all = self.commands(mesh_storage@.len());
        let ghost mut done: Seq<DrawCommandView> = Seq::empty();
        let mut k: usize = 0;
        proof {
            lemma_extended_by_nothing(start);
            assert(done + all =~= all);
        }
        while k < self.root_nodes.len()
            invariant
                k <= self.root_nodes.len(),
                self.wf(),
                extended_by(start, render_queue@, done),
                all == done + self@.roots_commands(
                    self.rank(),
                    self.bound(),
                    mesh_storage@.len(),
                    k as nat,
                ),
            decreases self.root_nodes.len() - k,
        {
            let root_id = self.root_nodes[k];
            let ghost before = render_queue@;
            assert(self@.root_nodes[k as int] == root_id);
            let processed = self.process_node(root_id, mat4_identity(), render_queue, mesh_storage);
            proof {
                lemma_constants_are_canonical();
                let own = self@.node_commands(
                    self.rank(),
                    self.bound(),
                    mesh_storage@.len(),
                    root_id,
                    identity_cols(),
                );
                let rest = self@.roots_commands(
                    self.rank(),
                    self.bound(),
                    mesh_storage@.len(),
                    (k + 1) as nat,
                );
                lemma_extended_by_both(start, before, render_queue@, done, own);
                assert(done + (own + rest) =~= (done + own) + rest);
                done = done + own;
            }
            k += 1;
        }
        assert(done + Seq::<DrawCommandView>::empty() =~= done);
        Ok(())
    }

    /// Processes a node and, below it, its children in order.
    fn process_node(
        &self,
        node_id: NodeId,
        parent_transform: Mat4,
        render_queue: &mut RenderQueue,
        mesh_storage: &MeshStorage,
    ) -> (r: Result<(), RendererError>)
        requires
            self.wf(),
            self@.has(node_id),
        ensures
            r == Ok::<(), RendererError>(()),
            extended_by(
                old(render_queue)@,
                final(render_queue)@,
                self@.node_commands(
                    self.rank(),
                    self.bound(),
                    mesh_storage@.len(),
                    node_id,
                    canonical(mat4_cols(parent_transform)),
                ),
            ),
        decreases self.bound() - self.rank()[node_id.0 as int],
    {
        let node = &self.nodes[node_id.0];
        let ghost start = render_queue@;
        let ghost all = self@.node_commands(
            self.rank(),
            self.bound(),
            mesh_storage@.len(),
            node_id,
            canonical(mat4_cols(parent_transform)),
        );
        assert(node@ == self@.node(node_id));
        proof {
            lemma_extended_by_nothing(start);
        }
        if !node.visible {
            return Ok(());
        }
        // Calculate combined transform
        let local_transform = node.local_transform();
        let world_transform = mat4_mul(parent_transform, local_transform);
        let ghost world = canonical(mat4_cols(world_transform));
        let ghost mut done = own_commands(self@.node(node_id), mesh_storage@.len(), world);
        // If the node has a mesh that is in the cache, add a draw command
        if let Some(mesh_id) = node.mesh_id {
            if let Some(_mesh) = mesh_storage.get_mesh(mesh_id) {
                let command = DrawCommandBuilder::new_mesh(mesh_id).with_transform(
                    world_transform,
                ).build();
                proof {
                    lemma_extended_by_one_more(start, start, Seq::empty(), command@);
                    assert(Seq::<DrawCommandView>::empty().push(
                        command@.with_canonical_transform(),
                    ) =~= done);
                }
                render_queue.add_draw_command(command);
            }
        }
        assert(extended_by(start, render_queue@, done));
        // Process children
        let mut k: usize = 0;
        while k < node.children.len()
            invariant
                k <= node.children.len(),
                self.wf(),
                self@.has(node_id),
                node@ == self@.node(node_id),
                world == canonical(mat4_cols(world_transform)),
                extended_by(start, render_queue@, done),
                all == done + self@.children_commands(
                    self.rank(),
                    self.bound(),
                    mesh_storage@.len(),
                    node_id,
                    world,
                    k as nat,
                ),
            decreases node.children.len() - k,
        {
            let child_id = node.children[k];
            let ghost before = render_queue@;
            proof {
                assert(self@.nodes[node_id.0 as int].children[k as int] == child_id);
                assert(self@.nodes[child_id.0 as int].parent == Some(node_id));
            }
            let processed = self.process_node(
                child_id,
                world_transform,
                render_queue,
                mesh_storage,
            );
            proof {
                let own = self@.node_commands(
                    self.rank(),
                    self.bound(),
                    mesh_storage@.len(),
                    child_id,
                    world,
                );
                let rest = self@.children_commands(
                    self.rank(),
                    self.bound(),
                    mesh_storage@.len(),
                    node_id,
                    world,
                    (k + 1) as nat,
                );
                lemma_extended_by_both(start, before, render_queue@, done, own);
                assert(done + (own + rest) =~= (done + own) + rest);
                done = done + own;
            }
            k += 1;
        }
        assert(done + Seq::<DrawCommandView>::empty() =~= done);
        Ok(())
    }

    /// Calculates the world transform of a node: its local transform,
    /// multiplied from the left by the local transform of each ancestor in
    /// turn, up to the root.
    pub fn get_world_transform(&self, node_id: NodeId) -> (r: Result<Mat4, RendererError>)
        requires
            self.wf(),
        ensures
            !self@.has(node_id) ==> r == Err::<Mat4, RendererError>(RendererError::InvalidMeshId),
            self@.has(node_id) ==> (r matches Ok(m) && canonical(mat4_cols(m))
                == self.world_transform(node_id)),
    {
        if node_id.0 >= self.nodes.len() {
            return Err(RendererError::InvalidMeshId);
        }
        let mut transform = self.nodes[node_id.0].local_transform();
        let mut current = node_id;
        loop
            invariant
                self.wf(),
                self@.has(node_id),
                self@.has(current),
                self.world_transform(node_id) == self@.lifted(
                    self.rank(),
                    current,
                    canonical(mat4_cols(transform)),
                ),
            decreases self.rank()[current.0 as int],
        {
            match self.nodes[current.0].parent {
                Some(parent_id) => {
                    assert(self@.nodes[current.0 as int].parent == Some(parent_id));
                    let parent = &self.nodes[parent_id.0];
                    transform = mat4_mul(parent.local_transform(), transform);
                    current = parent_id;
                },
                None => {
                    return Ok(transform);
                },
            }
        }
    }
}

/// A graph that differs from another only in what its nodes carry, not in
/// how they are linked, is linked as soundly.
pub proof fn lemma_same_links(v: SceneGraphView, w: SceneGraphView, rank: Seq<nat>, bound: nat)
    requires
        v.links_ok(),
        v.ranked(rank, bound),
        w.nodes.len() == v.nodes.len(),
        w.root_nodes == v.root_nodes,
        forall|i: int|
            0 <= i < v.nodes.len() ==> (#[trigger] w.nodes[i]).id == v.nodes[i].id && w.nodes[i].parent
                == v.nodes[i].parent && w.nodes[i].children == v.nodes[i].children,
    ensures
        w.links_ok(),
        w.ranked(rank, bound),
{
    let n = v.nodes.len();
    assert forall|i: int| 0 <= i < n implies ((#[trigger] w.nodes[i]).parent matches Some(p) ==> p.0 < n
        && w.nodes[p.0 as int].children.contains(NodeId(i as usize))) by {
        assert(w.nodes[i].parent == v.nodes[i].parent);
        if let Some(p) = v.nodes[i].parent {
            assert(w.nodes[p.0 as int].children == v.nodes[p.0 as int].children);
        }
    }
    assert forall|i: int, k: int| 0 <= i < n && 0 <= k < w.nodes[i].children.len() implies (
    #[trigger] w.nodes[i].children[k]).0 < n && w.nodes[w.nodes[i].children[k].0 as int].parent == Some(
        NodeId(i as usize),
    ) by {
        assert(w.nodes[i].children == v.nodes[i].children);
        let c = v.nodes[i].children[k];
        assert(w.nodes[c.0 as int].parent == v.nodes[c.0 as int].parent);
    }
    assert forall|k: int| 0 <= k < w.root_nodes.len() implies (#[trigger] w.root_nodes[k]).0 < n
        && w.nodes[w.root_nodes[k].0 as int].parent is None by {
        let r = v.root_nodes[k];
        assert(w.nodes[r.0 as int].parent == v.nodes[r.0 as int].parent);
    }
    assert forall|i: int| 0 <= i < n implies ((#[trigger] w.nodes[i]).parent matches Some(p) ==> p.0 < n
        && rank[p.0 as int] < rank[i]) by {
        assert(w.nodes[i].parent == v.nodes[i].parent);
    }
    assert forall|i: int| 0 <= i < n implies (#[trigger] w.nodes[i]).children.no_duplicates() by {
        assert(w.nodes[i].children == v.nodes[i].children);
    }
    assert forall|i: int| 0 <= i < n implies (#[trigger] w.nodes[i]).id == NodeId(i as usize) by {
        assert(w.nodes[i].id == v.nodes[i].id);
    }
}

/// Where `position` points: at the first occurrence, or past the end.
pub proof fn lemma_position(s: Seq<NodeId>, id: NodeId)
    ensures
        0 <= position(s, id) <= s.len(),
        position(s, id) < s.len() ==> s[position(s, id)] == id,
        forall|j: int| 0 <= j < position(s, id) ==> #[trigger] s[j] != id,
        position(s, id) < s.len() <==> s.contains(id),
    decreases s.len(),
{
    if s.len() == 0 {
    } else if s[0] == id {
    } else {
        let t = s.skip(1);
        lemma_position(t, id);
        let k = position(t, id);
        assert forall|j: int| 0 <= j < k + 1 implies #[trigger] s[j] != id by {
            if j > 0 {
                assert(t[j - 1] == s[j]);
            }
        }
        if k < t.len() {
            assert(t[k] == s[k + 1]);
        }
        if s.contains(id) {
            let j = choose|j: int| 0 <= j < s.len() && s[j] == id;
            assert(t[j - 1] == id);
        }
    }
}

/// The first index at which `id` stands is its position.
proof fn lemma_position_is(s: Seq<NodeId>, id: NodeId, k: int)
    requires
        0 <= k <= s.len(),
        forall|j: int| 0 <= j < k ==> #[trigger] s[j] != id,
        k < s.len() ==> s[k] == id,
    ensures
        position(s, id) == k,
{
    lemma_position(s, id);
    let q = position(s, id);
    if q < k {
        assert(s[q] != id);
    } else if k < q {
        assert(s[k] != id);
    }
}

/// What taking an ID out of a list without repetitions leaves: the other
/// IDs, each once.
pub proof fn lemma_swap_removed(s: Seq<NodeId>, id: NodeId)
    requires
        s.no_duplicates(),
    ensures
        swap_removed(s, id).no_duplicates(),
        !swap_removed(s, id).contains(id),
        forall|x: NodeId| x != id && s.contains(x) ==> #[trigger] swap_removed(s, id).contains(x),
        forall|x: NodeId| #[trigger] swap_removed(s, id).contains(x) ==> s.contains(x),
        swap_removed(s, id).len() == if s.contains(id) {
            s.len() - 1
        } else {
            s.len() as int
        },
{
    lemma_position(s, id);
    let k = position(s, id);
    let t = swap_removed(s, id);
    let last = s.len() - 1;
    if k < s.len() {
        assert forall|a: int, b: int| 0 <= a < t.len() && 0 <= b < t.len() && a != b implies t[a]
            != t[b] by {
            let ia = if a == k {
                last
            } else {
                a
            };
            let ib = if b == k {
                last
            } else {
                b
            };
            assert(t[a] == s[ia]);
            assert(t[b] == s[ib]);
        }
        assert forall|x: NodeId| x != id && s.contains(x) implies #[trigger] t.contains(x) by {
            let j = choose|j: int| 0 <= j < s.len() && s[j] == x;
            if j == last {
                assert(t[k] == x);
            } else {
                assert(t[j] == x);
            }
        }
        assert forall|x: NodeId| #[trigger] t.contains(x) implies s.contains(x) by {
            let j = choose|j: int| 0 <= j < t.len() && t[j] == x;
            if j == k {
                assert(s[last] == x);
            } else {
                assert(s[j] == x);
            }
        }
        if t.contains(id) {
            let j = choose|j: int| 0 <= j < t.len() && t[j] == id;
            if j == k {
                assert(s[last] == id);
                assert(s[k] == id);
            } else {
                assert(s[j] == id);
            }
        }
    } else {
        assert(t == s);
    }
}

/// Adding an ID that a list without repetitions lacks leaves it without
/// repetitions.
proof fn lemma_push_fresh(s: Seq<NodeId>, id: NodeId)
    requires
        s.no_duplicates(),
        !s.contains(id),
    ensures
        s.push(id).no_duplicates(),
        forall|x: NodeId| #[trigger] s.push(id).contains(x) <==> (x == id || s.contains(x)),
{
    let t = s.push(id);
    assert forall|a: int, b: int| 0 <= a < t.len() && 0 <= b < t.len() && a != b implies t[a]
        != t[b] by {
        if a < s.len() {
            assert(t[a] == s[a]);
            assert(s.contains(t[a]));
        }
        if b < s.len() {
            assert(t[b] == s[b]);
            assert(s.contains(t[b]));
        }
    }
    assert forall|x: NodeId| #[trigger] t.contains(x) <==> (x == id || s.contains(x)) by {
        if t.contains(x) {
            let j = choose|j: int| 0 <= j < t.len() && t[j] == x;
            if j < s.len() {
                assert(s[j] == x);
            }
        }
        if x == id {
            assert(t[s.len() as int] == x);
        }
        if s.contains(x) {
            let j = choose|j: int| 0 <= j < s.len() && s[j] == x;
            assert(t[j] == x);
        }
    }
}

impl SceneGraphView {
    /// The children of node `i` after `id` was moved under `target`.
    pub open spec fn children_after(self, id: NodeId, target: Option<NodeId>, i: NodeId) -> Seq<
        NodeId,
    > {
        let base = if self.node(id).parent == Some(i) {
            swap_removed(self.node(i).children, id)
        } else {
            self.node(i).children
        };
        if target == Some(i) {
            base.push(id)
        } else {
            base
        }
    }

    /// The roots after `id` was moved under `target`.
    pub open spec fn roots_after(self, id: NodeId, target: Option<NodeId>) -> Seq<NodeId> {
        let base = if self.node(id).parent is None {
            swap_removed(self.root_nodes, id)
        } else {
            self.root_nodes
        };
        if target is None {
            base.push(id)
        } else {
            base
        }
    }
}

/// What moving a node leaves of each record: the node has its new parent,
/// its old parent has lost it, its new parent has gained it as last child,
/// and nothing else has changed.
pub proof fn lemma_reparented(v: SceneGraphView, id: NodeId, target: Option<NodeId>)
    requires
        v.nodes.len() <= usize::MAX,
        v.has(id),
        v.node(id).parent matches Some(p) ==> v.has(p),
        target matches Some(p) ==> v.has(p),
    ensures
        v.reparented(id, target).nodes.len() == v.nodes.len(),
        v.reparented(id, target).root_nodes == v.roots_after(id, target),
        forall|i: int|
            0 <= i < v.nodes.len() ==> #[trigger] v.reparented(id, target).nodes[i] == (SceneNodeView {
                parent: if i == id.0 {
                    target
                } else {
                    v.nodes[i].parent
                },
                children: v.children_after(id, target, NodeId(i as usize)),
                ..v.nodes[i]
            }),
{
    let u = v.unlinked(id);
    let w = u.linked(id, target);
    assert(u.nodes.len() == v.nodes.len());
    assert forall|i: int| 0 <= i < v.nodes.len() implies #[trigger] w.nodes[i] == (SceneNodeView {
        parent: if i == id.0 {
            target
        } else {
            v.nodes[i].parent
        },
        children: v.children_after(id, target, NodeId(i as usize)),
        ..v.nodes[i]
    }) by {
        assert(NodeId(i as usize).0 == i);
        assert(v.node(NodeId(i as usize)) == v.nodes[i]);
    }
}

/// Moving a node to a place outside its own subtree keeps every link sound.
pub proof fn lemma_reparent_links(v: SceneGraphView, id: NodeId, target: Option<NodeId>)
    requires
        v.links_ok(),
        v.has(id),
        target matches Some(p) ==> v.has(p) && p != id,
    ensures
        v.reparented(id, target).links_ok(),
{
    let w = v.reparented(id, target);
    let n = v.nodes.len();
    assert(v.nodes[id.0 as int].id == id);
    lemma_reparented(v, id, target);
    // What each list of children holds afterwards.
    assert forall|i: int| 0 <= i < n implies (#[trigger] w.nodes[i]).children.no_duplicates() && (
    forall|x: NodeId|
        w.nodes[i].children.contains(x) <==> ((x != id && v.nodes[i].children.contains(x)) || (x
            == id && target == Some(NodeId(i as usize))))) by {
        let me = NodeId(i as usize);
        let old_children = v.nodes[i].children;
        assert(v.nodes[i].children.no_duplicates());
        lemma_swap_removed(old_children, id);
        let base = if v.node(id).parent == Some(me) {
            swap_removed(old_children, id)
        } else {
            old_children
        };
        if old_children.contains(id) {
            let k = choose|k: int| 0 <= k < old_children.len() && old_children[k] == id;
            assert(v.nodes[v.nodes[i].children[k].0 as int].parent == Some(me));
        }
        assert(!base.contains(id));
        assert(base.no_duplicates());
        lemma_push_fresh(base, id);
        assert(w.nodes[i].children == v.children_after(id, target, me));
    }
    assert forall|i: int| 0 <= i < n implies ((#[trigger] w.nodes[i]).parent matches Some(p) ==> p.0 < n
        && w.nodes[p.0 as int].children.contains(NodeId(i as usize))) by {
        if let Some(p) = w.nodes[i].parent {
            let me = NodeId(i as usize);
            if i == id.0 {
                assert(target == Some(p));
                assert(NodeId(p.0 as int as usize) == p);
                assert(w.nodes[p.0 as int].children.contains(id));
            } else {
                assert(v.nodes[i].parent == Some(p));
                assert(v.nodes[p.0 as int].children.contains(me));
                assert(w.nodes[p.0 as int].children.contains(me));
            }
        }
    }
    assert forall|i: int, k: int| 0 <= i < n && 0 <= k < w.nodes[i].children.len() implies (
    #[trigger] w.nodes[i].children[k]).0 < n && w.nodes[w.nodes[i].children[k].0 as int].parent == Some(
        NodeId(i as usize),
    ) by {
        let c = w.nodes[i].children[k];
        assert(w.nodes[i].children.contains(c));
        if c == id {
            assert(target == Some(NodeId(i as usize)));
        } else {
            assert(v.nodes[i].children.contains(c));
            let j = choose|j: int| 0 <= j < v.nodes[i].children.len() && v.nodes[i].children[j] == c;
            assert(v.nodes[v.nodes[i].children[j].0 as int].parent == Some(NodeId(i as usize)));
        }
    }
    // The roots.
    let old_roots = v.root_nodes;
    lemma_swap_removed(old_roots, id);
    let base = if v.node(id).parent is None {
        swap_removed(old_roots, id)
    } else {
        old_roots
    };
    if old_roots.contains(id) {
        let k = choose|k: int| 0 <= k < old_roots.len() && old_roots[k] == id;
        assert(v.nodes[v.root_nodes[k].0 as int].parent is None);
    }
    assert(!base.contains(id));
    lemma_push_fresh(base, id);
    assert(w.root_nodes == v.roots_after(id, target));
    assert forall|k: int| 0 <= k < w.root_nodes.len() implies (#[trigger] w.root_nodes[k]).0 < n
        && w.nodes[w.root_nodes[k].0 as int].parent is None by {
        let r = w.root_nodes[k];
        assert(w.root_nodes.contains(r));
        if r == id {
            assert(target is None);
        } else {
            assert(base.contains(r));
            assert(old_roots.contains(r));
            let j = choose|j: int| 0 <= j < old_roots.len() && old_roots[j] == r;
            assert(v.nodes[v.root_nodes[j].0 as int].parent is None);
        }
    }
}

/// Takes the first occurrence of `id` out of the list; the last element
/// takes its place.
fn remove_id(list: &mut Vec<NodeId>, id: NodeId)
    ensures
        final(list)@ == swap_removed(old(list)@, id),
{
    let mut i: usize = 0;
    while i < list.len()
        invariant
            i <= list.len(),
            list@ == old(list)@,
            forall|j: int| 0 <= j < i ==> #[trigger] list@[j] != id,
        decreases list.len() - i,
    {
        if list[i] == id {
            proof {
                lemma_position_is(list@, id, i as int);
            }
            list.swap_remove(i);
            return ;
        }
        i += 1;
    }
    proof {
        lemma_position_is(list@, id, i as int);
    }
}

/// The command that a visible node contributes: one that draws its mesh
/// under the transform `world`, if it has a mesh and the mesh is among the
/// `mesh_count` meshes of the cache.
pub open spec fn own_commands(node: SceneNodeView, mesh_count: nat, world: Seq<u32>) -> Seq<
    DrawCommandView,
> {
    match node.mesh_id {
        Some(mesh_id) => if mesh_id < mesh_count {
            seq![DrawCommandView::Mesh { mesh_id, instance_data: None, transform: world }]
        } else {
            seq![]
        },
        None => seq![],
    }
}

impl SceneGraphView {
    /// The commands of the subtree of `x` in pre-order, with canonical
    /// transforms, where the accumulated transform of the parent of `x` has
    /// the canonical components `parent_transform`:
    /// nothing if `x` is hidden; else the command of `x` itself under
    /// `parent_transform * local`, then those of its children in order.
    pub open spec fn node_commands(
        self,
        rank: Seq<nat>,
        bound: nat,
        mesh_count: nat,
        x: NodeId,
        parent_transform: Seq<u32>,
    ) -> Seq<DrawCommandView>
        decreases bound - rank[x.0 as int], 1nat, 0nat,
    {
        if self.has(x) && self.node(x).visible {
            let world = product_cols(parent_transform, self.node(x).local_transform());
            own_commands(self.node(x), mesh_count, world) + self.children_commands(
                rank,
                bound,
                mesh_count,
                x,
                world,
                0,
            )
        } else {
            seq![]
        }
    }

    /// The commands of the subtrees of the children of `x` from the `k`-th
    /// on, in order, where the accumulated transform of `x` is `world`.
    pub open spec fn children_commands(
        self,
        rank: Seq<nat>,
        bound: nat,
        mesh_count: nat,
        x: NodeId,
        world: Seq<u32>,
        k: nat,
    ) -> Seq<DrawCommandView>
        decreases bound - rank[x.0 as int], 0nat, self.node(x).children.len() - k,
    {
        let children = self.node(x).children;
        if k < children.len() {
            let c = children[k as int];
            (if self.has(c) && c.0 < rank.len() && x.0 < rank.len() && rank[x.0 as int]
                < rank[c.0 as int] && rank[c.0 as int] < bound {
                self.node_commands(rank, bound, mesh_count, c, world)
            } else {
                seq![]
            }) + self.children_commands(rank, bound, mesh_count, x, world, k + 1)
        } else {
            seq![]
        }
    }

    /// The commands of the subtrees of the roots from the `k`-th on, in
    /// order. The accumulated transform above a root is the identity.
    pub open spec fn roots_commands(
        self,
        rank: Seq<nat>,
        bound: nat,
        mesh_count: nat,
        k: nat,
    ) -> Seq<DrawCommandView>
        decreases self.root_nodes.len() - k,
    {
        if k < self.root_nodes.len() {
            self.node_commands(rank, bound, mesh_count, self.root_nodes[k as int], identity_cols())
                + self.roots_commands(rank, bound, mesh_count, k + 1)
        } else {
            seq![]
        }
    }

    /// The graph after `id` was cut loose: taken out of the children of its
    /// parent, or out of the roots, and left without a parent. The node
    /// keeps what is below it.
    pub open spec fn cut(self, id: NodeId) -> SceneGraphView {
        let u = self.unlinked(id);
        u.with_node(id, SceneNodeView { parent: None, ..u.node(id) })
    }

    /// The graph after each of `ids` in turn was cut loose.
    pub open spec fn cut_all(self, ids: Seq<NodeId>) -> SceneGraphView
        decreases ids.len(),
    {
        if ids.len() == 0 {
            self
        } else {
            self.cut(ids[0]).cut_all(ids.skip(1))
        }
    }

    /// The graph after each of `ids` in turn was moved under `parent`.
    pub open spec fn reparented_all(self, ids: Seq<NodeId>, parent: Option<NodeId>) -> SceneGraphView
        decreases ids.len(),
    {
        if ids.len() == 0 {
            self
        } else {
            self.reparented(ids[0], parent).reparented_all(ids.skip(1), parent)
        }
    }

    /// The graph after `id` was removed. Its children were first moved to
    /// its parent, in order, or to the roots if it has none; with
    /// `recursive` they were cut loose instead, each with its own subtree.
    /// Then the node itself was cut loose and left hidden, without mesh and
    /// without children.
    pub open spec fn removed(self, id: NodeId, recursive: bool) -> SceneGraphView {
        let children = self.node(id).children;
        let moved = if recursive {
            self.cut_all(children)
        } else {
            self.reparented_all(children, self.node(id).parent)
        };
        let cut = moved.cut(id);
        cut.with_node(
            id,
            SceneNodeView { mesh_id: None, visible: false, children: seq![], ..cut.node(id) },
        )
    }

    /// Ranks for the graph after `id` was moved under `target`: the nodes
    /// of the subtree of `id` are lifted above the new parent.
    pub open spec fn ranks_after(self, rank: Seq<nat>, id: NodeId, target: Option<NodeId>) -> Seq<
        nat,
    > {
        match target {
            Some(p) => Seq::new(
                rank.len(),
                |i: int|
                    if self.in_subtree(rank, id, NodeId(i as usize)) {
                        rank[i] + rank[p.0 as int] + 1
                    } else {
                        rank[i]
                    },
            ),
            None => rank,
        }
    }
}

/// Moving a node to a place outside its own subtree leaves the graph
/// without a cycle.
pub proof fn lemma_reparent_ranks(
    v: SceneGraphView,
    rank: Seq<nat>,
    bound: nat,
    id: NodeId,
    target: Option<NodeId>,
)
    requires
        v.nodes.len() <= usize::MAX,
        v.ranked(rank, bound),
        v.has(id),
        target matches Some(p) ==> v.has(p) && !v.in_subtree(rank, id, p),
    ensures
        v.reparented(id, target).ranked(v.ranks_after(rank, id, target), bound + bound),
{
    let w = v.reparented(id, target);
    let after = v.ranks_after(rank, id, target);
    let n = v.nodes.len();
    assert(v.nodes[id.0 as int].parent matches Some(p) ==> v.has(p));
    lemma_reparented(v, id, target);
    assert forall|i: int| 0 <= i < n implies ((#[trigger] w.nodes[i]).parent matches Some(q) ==> q.0 < n
        && after[q.0 as int] < after[i]) by {
        if let Some(q) = w.nodes[i].parent {
            let me = NodeId(i as usize);
            if i == id.0 {
                assert(target == Some(q));
                assert(NodeId(q.0 as int as usize) == q);
                assert(v.in_subtree(rank, id, me));
            } else {
                assert(v.nodes[i].parent == Some(q));
                assert(NodeId(q.0 as int as usize) == q);
                assert(v.in_subtree(rank, id, me) == v.in_subtree(rank, id, q));
            }
        }
    }
    assert forall|i: int| 0 <= i < n implies #[trigger] after[i] < bound + bound by {
        assert(rank[i] < bound);
    }
}

/// `child` hangs under `parent`: it names it as its parent and is among its
/// children; without a parent it is among the roots.
pub open spec fn relinked(v: SceneGraphView, child: NodeId, parent: Option<NodeId>) -> bool {
    &&& v.has(child)
    &&& v.node(child).parent == parent
    &&& match parent {
        Some(p) => v.has(p) && v.node(p).children.contains(child),
        None => v.root_nodes.contains(child),
    }
}

/// A node in the subtree of another has a rank that is no lower.
proof fn lemma_subtree_rank(v: SceneGraphView, rank: Seq<nat>, bound: nat, a: NodeId, x: NodeId)
    requires
        v.ranked(rank, bound),
        v.in_subtree(rank, a, x),
    ensures
        rank[a.0 as int] <= rank[x.0 as int],
    decreases rank[x.0 as int],
{
    if x != a {
        let q = v.node(x).parent->Some_0;
        lemma_subtree_rank(v, rank, bound, a, q);
    }
}

/// What cutting a node loose leaves of each record.
proof fn lemma_cut_fields(v: SceneGraphView, id: NodeId)
    requires
        v.nodes.len() <= usize::MAX,
        v.has(id),
        v.node(id).parent matches Some(p) ==> v.has(p),
    ensures
        v.cut(id).nodes.len() == v.nodes.len(),
        v.cut(id).root_nodes == (if v.node(id).parent is None {
            swap_removed(v.root_nodes, id)
        } else {
            v.root_nodes
        }),
        forall|i: int|
            0 <= i < v.nodes.len() ==> #[trigger] v.cut(id).nodes[i] == (SceneNodeView {
                parent: if i == id.0 {
                    None
                } else {
                    v.nodes[i].parent
                },
                children: if v.node(id).parent == Some(NodeId(i as usize)) {
                    swap_removed(v.nodes[i].children, id)
                } else {
                    v.nodes[i].children
                },
                ..v.nodes[i]
            }),
{
    let w = v.cut(id);
    assert forall|i: int| 0 <= i < v.nodes.len() implies #[trigger] w.nodes[i] == (SceneNodeView {
        parent: if i == id.0 {
            None
        } else {
            v.nodes[i].parent
        },
        children: if v.node(id).parent == Some(NodeId(i as usize)) {
            swap_removed(v.nodes[i].children, id)
        } else {
            v.nodes[i].children
        },
        ..v.nodes[i]
    }) by {
        assert(NodeId(i as usize).0 == i);
    }
}

/// Cutting a node loose keeps every link sound and closes no cycle.
proof fn lemma_cut(v: SceneGraphView, rank: Seq<nat>, bound: nat, id: NodeId)
    requires
        v.links_ok(),
        v.ranked(rank, bound),
        v.has(id),
    ensures
        v.cut(id).links_ok(),
        v.cut(id).ranked(rank, bound),
{
    let w = v.reparented(id, None);
    let c = v.cut(id);
    let n = v.nodes.len();
    assert(v.nodes[id.0 as int].id == id);
    lemma_reparent_links(v, id, None);
    lemma_reparented(v, id, None);
    lemma_cut_fields(v, id);
    assert(c.nodes =~= w.nodes);
    assert(c.root_nodes =~= w.root_nodes.drop_last());
    assert forall|k: int| 0 <= k < c.root_nodes.len() implies (#[trigger] c.root_nodes[k]).0 < n
        && c.nodes[c.root_nodes[k].0 as int].parent is None by {
        assert(c.root_nodes[k] == w.root_nodes[k]);
    }
    assert forall|a: int, b: int|
        0 <= a < c.root_nodes.len() && 0 <= b < c.root_nodes.len() && a != b implies c.root_nodes[a]
        != c.root_nodes[b] by {
        assert(c.root_nodes[a] == w.root_nodes[a]);
        assert(c.root_nodes[b] == w.root_nodes[b]);
    }
    assert forall|i: int| 0 <= i < n implies ((#[trigger] c.nodes[i]).parent matches Some(q) ==> q.0 < n
        && rank[q.0 as int] < rank[i]) by {
        if i != id.0 {
            assert(c.nodes[i].parent == v.nodes[i].parent);
        }
    }
}

/// A node that hangs under `parent` still does after another node was
/// moved there.
proof fn lemma_relinked_kept(v: SceneGraphView, moved: NodeId, parent: Option<NodeId>, c: NodeId)
    requires
        v.links_ok(),
        v.has(moved),
        parent matches Some(p) ==> v.has(p),
        c != moved,
        relinked(v, c, parent),
    ensures
        relinked(v.reparented(moved, parent), c, parent),
{
    let w = v.reparented(moved, parent);
    assert(v.nodes[moved.0 as int].parent matches Some(p) ==> v.has(p));
    lemma_reparented(v, moved, parent);
    assert(w.nodes[c.0 as int].parent == parent);
    match parent {
        Some(p) => {
            assert(NodeId(p.0 as int as usize) == p);
            assert(v.nodes[p.0 as int].children.no_duplicates());
            lemma_swap_removed(v.node(p).children, moved);
            let base = if v.node(moved).parent == Some(p) {
                swap_removed(v.node(p).children, moved)
            } else {
                v.node(p).children
            };
            assert(base.contains(c));
            let j = choose|j: int| 0 <= j < base.len() && base[j] == c;
            assert(base.push(moved)[j] == c);
            assert(w.nodes[p.0 as int].children == base.push(moved));
        },
        None => {
            lemma_swap_removed(v.root_nodes, moved);
            let base = if v.node(moved).parent is None {
                swap_removed(v.root_nodes, moved)
            } else {
                v.root_nodes
            };
            assert(base.contains(c));
            let j = choose|j: int| 0 <= j < base.len() && base[j] == c;
            assert(base.push(moved)[j] == c);
        },
    }
}

/// A node that was moved under `parent` hangs there.
proof fn lemma_relinked_new(v: SceneGraphView, moved: NodeId, parent: Option<NodeId>)
    requires
        v.links_ok(),
        v.has(moved),
        parent matches Some(p) ==> v.has(p),
    ensures
        relinked(v.reparented(moved, parent), moved, parent),
{
    let w = v.reparented(moved, parent);
    assert(v.nodes[moved.0 as int].parent matches Some(p) ==> v.has(p));
    lemma_reparented(v, moved, parent);
    assert(w.nodes[moved.0 as int].parent == parent);
    match parent {
        Some(p) => {
            assert(NodeId(p.0 as int as usize) == p);
            let list = w.nodes[p.0 as int].children;
            assert(list[list.len() - 1] == moved);
        },
        None => {
            let list = w.root_nodes;
            assert(list[list.len() - 1] == moved);
        },
    }
}

/// A node that hangs under `parent` still does after another node was cut
/// loose.
proof fn lemma_relinked_after_cut(v: SceneGraphView, id: NodeId, c: NodeId, parent: Option<NodeId>)
    requires
        v.links_ok(),
        v.has(id),
        c != id,
        relinked(v, c, parent),
    ensures
        relinked(v.cut(id), c, parent),
{
    let w = v.cut(id);
    assert(v.nodes[id.0 as int].parent matches Some(p) ==> v.has(p));
    lemma_cut_fields(v, id);
    assert(w.nodes[c.0 as int].parent == parent);
    match parent {
        Some(p) => {
            assert(NodeId(p.0 as int as usize) == p);
            assert(v.nodes[p.0 as int].children.no_duplicates());
            lemma_swap_removed(v.node(p).children, id);
        },
        None => {
            lemma_swap_removed(v.root_nodes, id);
        },
    }
}

/// A child of a node is a node of the graph, names the node as its parent
/// and is not the node itself.
proof fn lemma_child(v: SceneGraphView, id: NodeId, child: NodeId)
    requires
        v.links_ok(),
        v.has(id),
        v.node(id).children.contains(child),
    ensures
        v.has(child),
        v.node(child).parent == Some(id),
        v.node(child).parent matches Some(p) ==> v.has(p),
        v.node(id).parent matches Some(p) ==> v.has(p),
{
    let k = choose|k: int| 0 <= k < v.node(id).children.len() && v.node(id).children[k] == child;
    assert(v.nodes[id.0 as int].children[k] == child);
    assert(v.nodes[id.0 as int].id == id);
}

/// What letting go of one child leaves of the node: its parent is as
/// before, and it has lost that child and no other.
proof fn lemma_release_step(
    v: SceneGraphView,
    id: NodeId,
    child: NodeId,
    parent: Option<NodeId>,
    recursive: bool,
)
    requires
        v.links_ok(),
        v.has(id),
        v.has(child),
        child != id,
        v.node(child).parent == Some(id),
        v.node(id).parent == parent,
        parent != Some(id),
    ensures
        ({
            let w = if recursive {
                v.cut(child)
            } else {
                v.reparented(child, parent)
            };
            &&& w.has(id)
            &&& w.node(id).parent == parent
            &&& forall|x: NodeId|
                w.node(id).children.contains(x) <==> (x != child && v.node(id).children.contains(
                    x,
                ))
        }),
{
    assert(v.nodes[id.0 as int].id == id);
    assert(v.nodes[id.0 as int].parent matches Some(p) ==> v.has(p));
    assert(v.nodes[id.0 as int].children.no_duplicates());
    lemma_swap_removed(v.node(id).children, child);
    if recursive {
        lemma_cut_fields(v, child);
        assert(v.cut(child).nodes[id.0 as int].children == swap_removed(
            v.node(id).children,
            child,
        ));
    } else {
        lemma_reparented(v, child, parent);
        assert(v.reparented(child, parent).nodes[id.0 as int].children == swap_removed(
            v.node(id).children,
            child,
        ));
    }
}

/// A node that hangs under `parent` still does in a graph that is linked
/// in the same way.
proof fn lemma_relinked_same(v: SceneGraphView, w: SceneGraphView, c: NodeId, parent: Option<NodeId>)
    requires
        relinked(v, c, parent),
        w.nodes.len() == v.nodes.len(),
        w.root_nodes == v.root_nodes,
        forall|i: int|
            0 <= i < v.nodes.len() ==> (#[trigger] w.nodes[i]).parent == v.nodes[i].parent
                && w.nodes[i].children == v.nodes[i].children,
    ensures
        relinked(w, c, parent),
{
    assert(w.nodes[c.0 as int].parent == v.nodes[c.0 as int].parent);
    if let Some(p) = parent {
        assert(w.nodes[p.0 as int].children == v.nodes[p.0 as int].children);
    }
}

/// A refused link leaves a root as it was: when the parent asked for is
/// the node itself or one of its descendants and the node has no parent,
/// then after the refusal the node and the parent asked for have the parent
/// and the children that they had, and the node is among the roots.
pub proof fn lemma_refused_link_keeps_root(graph: SceneGraph, node_id: NodeId, parent_id: NodeId)
    requires
        graph.wf(),
        graph@.has(node_id),
        graph@.has(parent_id),
        graph.cyclic_link(node_id, Some(parent_id)),
        graph@.node(node_id).parent is None,
    ensures
        graph@.reparented(node_id, None).node(node_id).parent == graph@.node(node_id).parent,
        graph@.reparented(node_id, None).node(node_id).children == graph@.node(node_id).children,
        graph@.reparented(node_id, None).node(parent_id).parent == graph@.node(parent_id).parent,
        graph@.reparented(node_id, None).node(parent_id).children == graph@.node(
            parent_id,
        ).children,
        graph@.reparented(node_id, None).root_nodes.contains(node_id),
{
    let v = graph@;
    let w = v.reparented(node_id, None);
    lemma_reparented(v, node_id, None);
    assert(w.nodes[node_id.0 as int].parent == v.nodes[node_id.0 as int].parent);
    assert(w.nodes[parent_id.0 as int].parent == v.nodes[parent_id.0 as int].parent);
    assert(NodeId(node_id.0 as int as usize) == node_id);
    assert(NodeId(parent_id.0 as int as usize) == parent_id);
    assert(w.root_nodes[w.root_nodes.len() - 1] == node_id);
}

/// What the world transform of a node is, link by link: a matrix is lifted
/// to the world of a root as it is, and to the world of any other node by
/// multiplying it from the left with the local transform of the node's
/// parent and lifting the product from there.
pub proof fn lemma_lifted(graph: SceneGraph, x: NodeId, m: Seq<u32>)
    requires
        graph.wf(),
        graph@.has(x),
    ensures
        graph.world_transform(x) == graph@.lifted(
            graph.rank(),
            x,
            graph@.node(x).local_transform(),
        ),
        graph@.lifted(graph.rank(), x, m) == (match graph@.node(x).parent {
            Some(p) => graph@.lifted(
                graph.rank(),
                p,
                product_cols(graph@.node(p).local_transform(), m),
            ),
            None => m,
        }),
{
    assert(graph@.nodes[x.0 as int].parent matches Some(p) ==> graph@.has(p));
}

/// The state of a walk over the descendants of `node` in search of
/// `target`: `stack` holds the nodes that are still to be looked at, and
/// `checked` those whose children have been put on the stack. Every node
/// on the stack is below `node` or `node` itself, is not `target`, was not
/// looked at yet and stands there once; every node but `node`, on the stack
/// or looked at, hangs under a node that was looked at.
#[verifier::opaque]
spec fn walk_ok(
    v: SceneGraphView,
    rank: Seq<nat>,
    node: NodeId,
    target: NodeId,
    stack: Seq<NodeId>,
    checked: Set<int>,
) -> bool {
    &&& stack.no_duplicates()
    &&& checked.finite()
    &&& forall|i: int|
        0 <= i < stack.len() ==> v.has(#[trigger] stack[i]) && v.in_subtree(rank, node, stack[i])
            && stack[i] != target && !checked.contains(stack[i].0 as int) && (stack[i] != node
            ==> (v.node(stack[i]).parent matches Some(q) && checked.contains(q.0 as int)))
    &&& forall|x: int|
        #[trigger] checked.contains(x) ==> 0 <= x < v.nodes.len() && (x != node.0 ==> (
        v.nodes[x].parent matches Some(q) && checked.contains(q.0 as int)))
}

/// Some node on the stack has `target` in its subtree.
#[verifier::opaque]
spec fn reaches(v: SceneGraphView, rank: Seq<nat>, target: NodeId, stack: Seq<NodeId>) -> bool {
    exists|i: int| 0 <= i < stack.len() && v.in_subtree(rank, #[trigger] stack[i], target)
}

/// Some child of `current` has `target` in its subtree.
spec fn child_reaches(v: SceneGraphView, rank: Seq<nat>, current: NodeId, target: NodeId) -> bool {
    exists|k: int|
        0 <= k < v.node(current).children.len() && v.in_subtree(
            rank,
            #[trigger] v.node(current).children[k],
            target,
        )
}

/// The state of the walk while the children of `current`, which was taken
/// off the stack, are being put on it.
#[verifier::opaque]
spec fn pending(
    v: SceneGraphView,
    rank: Seq<nat>,
    node: NodeId,
    target: NodeId,
    base: Seq<NodeId>,
    earlier: Set<int>,
    current: NodeId,
) -> bool {
    &&& walk_ok(v, rank, node, target, base, earlier)
    &&& !earlier.contains(current.0 as int)
    &&& !base.contains(current)
    &&& current != node ==> (v.node(current).parent matches Some(q) && earlier.contains(
        q.0 as int,
    ))
    &&& v.in_subtree(rank, node, target) ==> reaches(v, rank, target, base) || child_reaches(
        v,
        rank,
        current,
        target,
    )
}

/// A node below another one is below one of its children.
proof fn lemma_descend(v: SceneGraphView, rank: Seq<nat>, bound: nat, a: NodeId, x: NodeId)
    requires
        v.links_ok(),
        v.ranked(rank, bound),
        v.has(a),
        v.in_subtree(rank, a, x),
        x != a,
    ensures
        child_reaches(v, rank, a, x),
    decreases rank[x.0 as int],
{
    let q = v.node(x).parent->Some_0;
    assert(v.nodes[x.0 as int].id == x);
    assert(v.nodes[a.0 as int].id == a);
    if q == a {
        assert(v.nodes[x.0 as int].parent == Some(a));
        assert(v.nodes[a.0 as int].children.contains(x));
        let k = choose|k: int| 0 <= k < v.node(a).children.len() && v.node(a).children[k] == x;
        assert(v.in_subtree(rank, v.node(a).children[k], x));
    } else {
        lemma_descend(v, rank, bound, a, q);
        let k = choose|k: int|
            0 <= k < v.node(a).children.len() && v.in_subtree(
                rank,
                #[trigger] v.node(a).children[k],
                q,
            );
        assert(v.in_subtree(rank, v.node(a).children[k], x));
    }
}

/// The walk starts with the node itself on the stack.
proof fn lemma_walk_start(v: SceneGraphView, rank: Seq<nat>, node: NodeId, target: NodeId)
    requires
        v.has(node),
        node != target,
    ensures
        walk_ok(v, rank, node, target, seq![node], Set::empty()),
        v.in_subtree(rank, node, target) ==> reaches(v, rank, target, seq![node]),
{
    reveal(walk_ok);
    reveal(reaches);
    let stack = seq![node];
    assert(stack[0] == node);
    if v.in_subtree(rank, node, target) {
        assert(v.in_subtree(rank, stack[0], target));
    }
}

/// An empty stack reaches nothing.
proof fn lemma_walk_end(v: SceneGraphView, rank: Seq<nat>, target: NodeId, stack: Seq<NodeId>)
    requires
        stack.len() == 0,
    ensures
        !reaches(v, rank, target, stack),
{
    reveal(reaches);
}

/// Taking the top node off the stack: it is a node below `node` that was
/// not looked at yet, not every node was looked at, and where `target` is
/// below `node` it is below a node of the rest of the stack or below a child
/// of the top node.
proof fn lemma_walk_pop(
    v: SceneGraphView,
    rank: Seq<nat>,
    bound: nat,
    node: NodeId,
    target: NodeId,
    stack: Seq<NodeId>,
    checked: Set<int>,
)
    requires
        v.links_ok(),
        v.ranked(rank, bound),
        stack.len() > 0,
        walk_ok(v, rank, node, target, stack, checked),
        v.in_subtree(rank, node, target) ==> reaches(v, rank, target, stack),
    ensures
        v.has(stack.last()),
        stack.last() != target,
        v.in_subtree(rank, node, stack.last()),
        checked.len() < v.nodes.len(),
        checked.insert(stack.last().0 as int).len() == checked.len() + 1,
        pending(v, rank, node, target, stack.drop_last(), checked, stack.last()),
{
    reveal(walk_ok);
    reveal(reaches);
    reveal(pending);
    let top = stack.last();
    let rest = stack.drop_last();
    assert(stack[stack.len() - 1] == top);
    assert forall|i: int| 0 <= i < rest.len() implies rest[i] == stack[i] by {}
    if rest.contains(top) {
        let i = choose|i: int| 0 <= i < rest.len() && rest[i] == top;
        assert(stack[i] == stack[stack.len() - 1]);
    }
    let all = vstd::set_lib::set_int_range(0, v.nodes.len() as int);
    vstd::set_lib::lemma_int_range(0, v.nodes.len() as int);
    let more = checked.insert(top.0 as int);
    assert(more.subset_of(all));
    vstd::set_lib::lemma_len_subset(more, all);
    if v.in_subtree(rank, node, target) {
        let i = choose|i: int| 0 <= i < stack.len() && v.in_subtree(rank, #[trigger] stack[i], target);
        if i < rest.len() {
            assert(v.in_subtree(rank, rest[i], target));
        } else {
            lemma_descend(v, rank, bound, top, target);
        }
    }
}

/// A child of a node in the subtree of `node` is in that subtree, is not
/// `node` and hangs under its parent.
proof fn lemma_walk_child(
    v: SceneGraphView,
    rank: Seq<nat>,
    bound: nat,
    node: NodeId,
    current: NodeId,
    k: int,
)
    requires
        v.links_ok(),
        v.ranked(rank, bound),
        v.has(node),
        v.has(current),
        v.in_subtree(rank, node, current),
        0 <= k < v.node(current).children.len(),
    ensures
        v.has(v.node(current).children[k]),
        v.node(v.node(current).children[k]).parent == Some(current),
        v.in_subtree(rank, node, v.node(current).children[k]),
        v.node(current).children[k] != node,
        v.node(current).children[k] != current,
{
    let child = v.node(current).children[k];
    assert(v.nodes[current.0 as int].id == current);
    assert(v.nodes[current.0 as int].children[k] == child);
    assert(v.nodes[child.0 as int].parent == Some(current));
    lemma_subtree_rank(v, rank, bound, node, current);
}

/// After the children of the node that was taken off the stack were put
/// on it, the walk is in order again, and where `target` is below `node` it
/// is still below a node on the stack.
proof fn lemma_walk_pushed(
    v: SceneGraphView,
    rank: Seq<nat>,
    bound: nat,
    node: NodeId,
    target: NodeId,
    base: Seq<NodeId>,
    earlier: Set<int>,
    current: NodeId,
)
    requires
        v.links_ok(),
        v.ranked(rank, bound),
        v.has(node),
        v.has(current),
        current != target,
        v.in_subtree(rank, node, current),
        pending(v, rank, node, target, base, earlier, current),
        forall|j: int|
            0 <= j < v.node(current).children.len() ==> #[trigger] v.node(current).children[j]
                != target,
    ensures
        walk_ok(
            v,
            rank,
            node,
            target,
            base + v.node(current).children,
            earlier.insert(current.0 as int),
        ),
        v.in_subtree(rank, node, target) ==> reaches(
            v,
            rank,
            target,
            base + v.node(current).children,
        ),
{
    reveal(walk_ok);
    reveal(reaches);
    reveal(pending);
    let children = v.node(current).children;
    let stack = base + children;
    let checked = earlier.insert(current.0 as int);
    assert(v.nodes[current.0 as int].id == current);
    assert(v.nodes[current.0 as int].children.no_duplicates());
    assert forall|j: int| 0 <= j < children.len() implies v.has(#[trigger] children[j])
        && v.node(children[j]).parent == Some(current) && v.in_subtree(rank, node, children[j])
        && children[j] != node && children[j] != current by {
        lemma_walk_child(v, rank, bound, node, current, j);
    }
    assert forall|i: int| 0 <= i < stack.len() implies v.has(#[trigger] stack[i]) && v.in_subtree(
        rank,
        node,
        stack[i],
    ) && stack[i] != target && !checked.contains(stack[i].0 as int) && (stack[i] != node ==> (
    v.node(stack[i]).parent matches Some(q) && checked.contains(q.0 as int))) by {
        if i < base.len() {
            assert(stack[i] == base[i]);
            assert(base.contains(base[i]));
            assert(v.nodes[base[i].0 as int].id == base[i]);
        } else {
            let j = i - base.len();
            assert(stack[i] == children[j]);
            let child = children[j];
            assert(v.nodes[child.0 as int].id == child);
            if earlier.contains(child.0 as int) {
                assert(v.nodes[child.0 as int].parent == Some(current));
            }
        }
    }
    assert forall|a: int, b: int| 0 <= a < stack.len() && 0 <= b < stack.len() && a != b implies stack[a]
        != stack[b] by {
        if a < base.len() && b < base.len() {
            assert(stack[a] == base[a] && stack[b] == base[b]);
        } else if a >= base.len() && b >= base.len() {
            assert(stack[a] == children[a - base.len()] && stack[b] == children[b - base.len()]);
        } else {
            let lo = if a < b {
                a
            } else {
                b
            };
            let hi = if a < b {
                b
            } else {
                a
            };
            assert(stack[lo] == base[lo]);
            assert(stack[hi] == children[hi - base.len()]);
            let child = children[hi - base.len()];
            if base[lo] == child {
                assert(v.node(base[lo]).parent == Some(current));
            }
        }
    }
    if v.in_subtree(rank, node, target) {
        if reaches(v, rank, target, base) {
            let i = choose|i: int| 0 <= i < base.len() && v.in_subtree(rank, #[trigger] base[i], target);
            assert(stack[i] == base[i]);
        } else {
            let j = choose|j: int|
                0 <= j < children.len() && v.in_subtree(rank, #[trigger] children[j], target);
            assert(stack[base.len() + j] == children[j]);
        }
    }
}

/// The children of a node are nodes of the graph, are not the node itself
/// and are not its parent.
pub open spec fn apart(
    v: SceneGraphView,
    id: NodeId,
    children: Seq<NodeId>,
    parent: Option<NodeId>,
) -> bool {
    forall|j: int|
        0 <= j < children.len() ==> v.has(#[trigger] children[j]) && children[j] != id && parent
            != Some(children[j])
}

/// The graph has as many nodes as before, and each of the given nodes has
/// the children that it had.
pub open spec fn children_kept(before: SceneGraphView, now: SceneGraphView, nodes: Seq<NodeId>) -> bool {
    &&& now.nodes.len() == before.nodes.len()
    &&& forall|j: int|
        0 <= j < nodes.len() ==> now.node(#[trigger] nodes[j]).children == before.node(
            nodes[j],
        ).children
}

/// In a forest the children of a node are apart from the node and from its
/// parent.
proof fn lemma_children_apart(v: SceneGraphView, rank: Seq<nat>, bound: nat, id: NodeId)
    requires
        v.links_ok(),
        v.ranked(rank, bound),
        v.has(id),
    ensures
        apart(v, id, v.node(id).children, v.node(id).parent),
{
    let children = v.node(id).children;
    assert(v.nodes[id.0 as int].id == id);
    assert forall|j: int| 0 <= j < children.len() implies v.has(#[trigger] children[j])
        && children[j] != id && v.node(id).parent != Some(children[j]) by {
        let c = children[j];
        assert(v.nodes[id.0 as int].children[j] == c);
        assert(v.nodes[c.0 as int].parent == Some(id));
        assert(rank[id.0 as int] < rank[c.0 as int]);
        if v.node(id).parent == Some(c) {
            assert(v.nodes[id.0 as int].parent == Some(c));
            assert(rank[c.0 as int] < rank[id.0 as int]);
        }
    }
}

/// Nothing has changed at first.
proof fn lemma_children_kept_at_first(v: SceneGraphView, nodes: Seq<NodeId>)
    ensures
        children_kept(v, v, nodes),
{
}

/// Letting go of one child of a node leaves the number of nodes as it is,
/// and leaves the children of the node with the children that they have.
proof fn lemma_release_keeps(
    before: SceneGraphView,
    v: SceneGraphView,
    id: NodeId,
    child: NodeId,
    parent: Option<NodeId>,
    recursive: bool,
    children: Seq<NodeId>,
)
    requires
        v.nodes.len() <= usize::MAX,
        v.has(id),
        v.has(child),
        v.node(child).parent == Some(id),
        parent matches Some(p) ==> v.has(p),
        apart(before, id, children, parent),
        children_kept(before, v, children),
    ensures
        children_kept(
            before,
            if recursive {
                v.cut(child)
            } else {
                v.reparented(child, parent)
            },
            children,
        ),
{
    let w = if recursive {
        v.cut(child)
    } else {
        v.reparented(child, parent)
    };
    if recursive {
        lemma_cut_fields(v, child);
    } else {
        lemma_reparented(v, child, parent);
    }
    assert forall|j: int| 0 <= j < children.len() implies w.node(#[trigger] children[j]).children
        == before.node(children[j]).children by {
        let x = children[j];
        assert(NodeId(x.0 as int as usize) == x);
        assert(w.nodes[x.0 as int].children == v.nodes[x.0 as int].children);
    }
}

/// After the children of a node were let go of and the node was cut loose
/// and cleared, the number of nodes is as it was, the node is no root, and
/// its former children have the children that they had.
proof fn lemma_removed_keeps(
    before: SceneGraphView,
    moved: SceneGraphView,
    after: SceneGraphView,
    id: NodeId,
)
    requires
        moved.links_ok(),
        moved.has(id),
        moved.node(id).parent == before.node(id).parent,
        apart(before, id, before.node(id).children, before.node(id).parent),
        children_kept(before, moved, before.node(id).children),
        after.nodes.len() == moved.nodes.len(),
        after.root_nodes == moved.cut(id).root_nodes,
        forall|i: int|
            0 <= i < moved.nodes.len() && i != id.0 ==> (#[trigger] after.nodes[i]).children
                == moved.cut(id).nodes[i].children,
    ensures
        after.nodes.len() == before.nodes.len(),
        !after.root_nodes.contains(id),
        forall|k: int|
            0 <= k < before.node(id).children.len() ==> after.node(
                #[trigger] before.node(id).children[k],
            ).children == before.node(before.node(id).children[k]).children,
{
    let children = before.node(id).children;
    assert(moved.nodes[id.0 as int].id == id);
    assert(moved.nodes[id.0 as int].parent matches Some(p) ==> moved.has(p));
    lemma_cut_fields(moved, id);
    lemma_swap_removed(moved.root_nodes, id);
    if moved.root_nodes.contains(id) {
        let k = choose|k: int| 0 <= k < moved.root_nodes.len() && moved.root_nodes[k] == id;
        assert(moved.nodes[moved.root_nodes[k].0 as int].parent is None);
    }
    assert forall|k: int| 0 <= k < children.len() implies after.node(#[trigger] children[k]).children
        == before.node(children[k]).children by {
        let x = children[k];
        assert(NodeId(x.0 as int as usize) == x);
        assert(after.nodes[x.0 as int].children == moved.cut(id).nodes[x.0 as int].children);
        assert(moved.cut(id).nodes[x.0 as int].children == moved.nodes[x.0 as int].children);
    }
}

} // verus!
