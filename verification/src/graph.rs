//! The constraint graph.
//!
//! A graph is a table of nodes, each asserting one directive value or
//! aggregating a set of permitted values of one key, together with edge
//! relations between nodes and a domain-description table recording, per
//! directive key, whether the key is single valued.  Two graphs from
//! different sources can be combined into one, provided their node
//! identifier namespaces do not collide and their domain descriptions
//! agree.

use vstd::prelude::*;
use crate::values::{DirKeyKind, DirValue};

verus! {

/// What one graph node stands for.
pub enum NodeKind {
    /// The node asserts one concrete directive value.
    Assertion(DirValue),
    /// The node aggregates the permitted values of one key: several
    /// values of the key may coexist, as long as each is permitted.
    Aggregator { key: DirKeyKind, allowed: Vec<DirValue> },
}

/// One graph node, under an explicit identifier.  Identifiers are chosen
/// by whoever builds the graph; combination fails when two sources chose
/// overlapping identifiers.
pub struct Node {
    pub id: u64,
    pub kind: NodeKind,
}

/// The logical relationship an edge records between two nodes.
#[derive(Clone, Copy, Debug, PartialEq, Eq, Structural)]
pub enum EdgeKind {
    /// The left node's value and the right node's value are mutually
    /// exclusive: no context may assert both.
    Excludes,
    /// The left node's value restricts a whole key: while it is asserted,
    /// every asserted value of the right aggregator's key must be among
    /// the aggregator's permitted values.
    Implies,
}

/// One directed edge between two node identifiers.
#[derive(Clone, Copy, Debug, PartialEq, Eq, Structural)]
pub struct Edge {
    pub lhs: u64,
    pub rhs: u64,
    pub kind: EdgeKind,
}

/// The domain description of one directive key: whether the key is
/// single valued.  A key without a description is single valued.
#[derive(Clone, Copy, Debug, PartialEq, Eq, Structural)]
pub struct DomainDescription {
    pub key: DirKeyKind,
    pub exclusive: bool,
}

/// A constraint graph.
pub struct ConstraintGraph {
    pub nodes: Vec<Node>,
    pub edges: Vec<Edge>,
    pub domains: Vec<DomainDescription>,
}

/// Why two graphs could not be combined.
#[derive(Clone, Copy, Debug, PartialEq, Eq, Structural)]
pub enum GraphError {
    /// Both graphs define a node under this identifier.
    NodeIdCollision(u64),
    /// Both graphs describe this key's domain, and the descriptions
    /// disagree.
    DomainIdCollision(DirKeyKind),
}

// ---------------------------------------------------------------------
// The mathematical model of a graph.
// ---------------------------------------------------------------------

/// Ghost counterpart of [`NodeKind`].
#[verifier::ext_equal]
pub enum NodeKindModel {
    Assertion(DirValue),
    Aggregator { key: DirKeyKind, allowed: Seq<DirValue> },
}

/// Ghost counterpart of [`Node`].
#[verifier::ext_equal]
pub struct NodeModel {
    pub id: u64,
    pub kind: NodeKindModel,
}

/// Ghost counterpart of [`ConstraintGraph`].
#[verifier::ext_equal]
pub struct GraphModel {
    pub nodes: Seq<NodeModel>,
    pub edges: Seq<Edge>,
    pub domains: Seq<DomainDescription>,
}

/// The model of one node.
pub open spec fn node_model(n: Node) -> NodeModel {
    NodeModel {
        id: n.id,
        kind: match n.kind {
            NodeKind::Assertion(v) => NodeKindModel::Assertion(v),
            NodeKind::Aggregator { key, allowed } => NodeKindModel::Aggregator {
                key,
                allowed: allowed@,
            },
        },
    }
}

impl ConstraintGraph {
    /// The mathematical content of the graph: everything analysis and
    /// combination depend on.
    pub open spec fn model(self) -> GraphModel {
        GraphModel {
            nodes: self.nodes@.map_values(|n: Node| node_model(n)),
            edges: self.edges@,
            domains: self.domains@,
        }
    }
}

// ---------------------------------------------------------------------
// Lookups over the model.
// ---------------------------------------------------------------------

/// The first node carrying `id`, if any.
pub open spec fn find_node(nodes: Seq<NodeModel>, id: u64) -> Option<NodeModel>
    decreases nodes.len(),
{
    if nodes.len() == 0 {
        None
    } else if nodes[0].id == id {
        Some(nodes[0])
    } else {
        find_node(nodes.drop_first(), id)
    }
}

/// The first domain description of `key`, if any.
pub open spec fn find_domain(domains: Seq<DomainDescription>, key: DirKeyKind) -> Option<
    DomainDescription,
>
    decreases domains.len(),
{
    if domains.len() == 0 {
        None
    } else if domains[0].key == key {
        Some(domains[0])
    } else {
        find_domain(domains.drop_first(), key)
    }
}

/// Whether `key` is single valued under this graph.  A key that no
/// domain description covers is single valued.
pub open spec fn key_exclusive(m: GraphModel, key: DirKeyKind) -> bool {
    match find_domain(m.domains, key) {
        Some(d) => d.exclusive,
        None => true,
    }
}

/// `find_node` returns an element of the sequence carrying the id.
pub proof fn lemma_find_node_some(nodes: Seq<NodeModel>, id: u64)
    requires
        find_node(nodes, id) is Some,
    ensures
        exists|i: int|
            0 <= i < nodes.len() && nodes[i] == find_node(nodes, id)->Some_0 && nodes[i].id == id,
    decreases nodes.len(),
{
    if nodes.len() > 0 && nodes[0].id != id {
        lemma_find_node_some(nodes.drop_first(), id);
        let j = choose|j: int|
            0 <= j < nodes.drop_first().len() && nodes.drop_first()[j] == find_node(
                nodes.drop_first(),
                id,
            )->Some_0 && nodes.drop_first()[j].id == id;
        assert(nodes[j + 1] == nodes.drop_first()[j]);
    }
}

/// `find_node` finds something whenever some element carries the id.
pub proof fn lemma_find_node_exists(nodes: Seq<NodeModel>, id: u64)
    requires
        exists|i: int| 0 <= i < nodes.len() && nodes[i].id == id,
    ensures
        find_node(nodes, id) is Some,
    decreases nodes.len(),
{
    if nodes.len() > 0 && nodes[0].id != id {
        let i = choose|i: int| 0 <= i < nodes.len() && nodes[i].id == id;
        assert(nodes.drop_first()[i - 1] == nodes[i]);
        lemma_find_node_exists(nodes.drop_first(), id);
    }
}

/// Finding an id in a concatenation looks left first, then right.
pub proof fn lemma_find_node_concat(a: Seq<NodeModel>, b: Seq<NodeModel>, id: u64)
    ensures
        find_node(a + b, id) == if find_node(a, id) is Some {
            find_node(a, id)
        } else {
            find_node(b, id)
        },
    decreases a.len(),
{
    if a.len() == 0 {
        assert(a + b =~= b);
    } else {
        assert((a + b).drop_first() =~= a.drop_first() + b);
        lemma_find_node_concat(a.drop_first(), b, id);
    }
}

/// Finding a key in a concatenation of domain tables looks left first.
pub proof fn lemma_find_domain_concat(
    a: Seq<DomainDescription>,
    b: Seq<DomainDescription>,
    key: DirKeyKind,
)
    ensures
        find_domain(a + b, key) == if find_domain(a, key) is Some {
            find_domain(a, key)
        } else {
            find_domain(b, key)
        },
    decreases a.len(),
{
    if a.len() == 0 {
        assert(a + b =~= b);
    } else {
        assert((a + b).drop_first() =~= a.drop_first() + b);
        lemma_find_domain_concat(a.drop_first(), b, key);
    }
}

/// A found domain description is an element of the table.
pub proof fn lemma_find_domain_some(domains: Seq<DomainDescription>, key: DirKeyKind)
    requires
        find_domain(domains, key) is Some,
    ensures
        exists|i: int|
            0 <= i < domains.len() && domains[i] == find_domain(domains, key)->Some_0
                && domains[i].key == key,
    decreases domains.len(),
{
    if domains.len() > 0 && domains[0].key != key {
        lemma_find_domain_some(domains.drop_first(), key);
        let j = choose|j: int|
            0 <= j < domains.drop_first().len() && domains.drop_first()[j] == find_domain(
                domains.drop_first(),
                key,
            )->Some_0 && domains.drop_first()[j].key == key;
        assert(domains[j + 1] == domains.drop_first()[j]);
    }
}

/// `find_domain` finds something whenever some entry covers the key.
pub proof fn lemma_find_domain_exists(domains: Seq<DomainDescription>, key: DirKeyKind)
    requires
        exists|i: int| 0 <= i < domains.len() && domains[i].key == key,
    ensures
        find_domain(domains, key) is Some,
    decreases domains.len(),
{
    if domains.len() > 0 && domains[0].key != key {
        let i = choose|i: int| 0 <= i < domains.len() && domains[i].key == key;
        assert(domains.drop_first()[i - 1] == domains[i]);
        lemma_find_domain_exists(domains.drop_first(), key);
    }
}

// ---------------------------------------------------------------------
// Well-formedness.
// ---------------------------------------------------------------------

/// Whether a node model is an assertion node.
pub open spec fn is_assertion(n: NodeModel) -> bool {
    n.kind is Assertion
}

/// Whether a node model is an aggregator node.
pub open spec fn is_aggregator(n: NodeModel) -> bool {
    n.kind is Aggregator
}

/// An edge is well formed when both endpoints resolve and carry the node
/// shapes its kind asks for.
pub open spec fn edge_wf(m: GraphModel, e: Edge) -> bool {
    match e.kind {
        EdgeKind::Excludes => {
            &&& find_node(m.nodes, e.lhs) matches Some(l) && is_assertion(l)
            &&& find_node(m.nodes, e.rhs) matches Some(r) && is_assertion(r)
        },
        EdgeKind::Implies => {
            &&& find_node(m.nodes, e.lhs) matches Some(l) && is_assertion(l)
            &&& find_node(m.nodes, e.rhs) matches Some(r) && is_aggregator(r)
        },
    }
}

/// Well-formedness of a graph model: node identifiers are unique, every
/// edge resolves, and repeated domain descriptions of one key agree.
pub open spec fn model_wf(m: GraphModel) -> bool {
    &&& forall|i: int, j: int|
        0 <= i < j < m.nodes.len() ==> m.nodes[i].id != m.nodes[j].id
    &&& forall|i: int| 0 <= i < m.edges.len() ==> edge_wf(m, #[trigger] m.edges[i])
    &&& forall|i: int, j: int|
        0 <= i < m.domains.len() && 0 <= j < m.domains.len() && m.domains[i].key
            == m.domains[j].key ==> m.domains[i].exclusive == m.domains[j].exclusive
}

impl ConstraintGraph {
    /// Well-formedness of the graph.
    pub open spec fn wf(self) -> bool {
        model_wf(self.model())
    }
}

// ---------------------------------------------------------------------
// Combination.
// ---------------------------------------------------------------------

/// Whether some node identifier occurs in both graphs.
pub open spec fn has_node_collision(a: GraphModel, b: GraphModel) -> bool {
    exists|i: int, j: int|
        0 <= i < a.nodes.len() && 0 <= j < b.nodes.len() && a.nodes[i].id == b.nodes[j].id
}

/// Whether the two domain tables disagree on some key.
pub open spec fn has_domain_collision(a: GraphModel, b: GraphModel) -> bool {
    exists|i: int, j: int|
        0 <= i < a.domains.len() && 0 <= j < b.domains.len() && a.domains[i].key
            == b.domains[j].key && a.domains[i].exclusive != b.domains[j].exclusive
}

/// The model of a successful combination: node, edge and domain tables
/// concatenated, the left graph first.
pub open spec fn combined_model(a: GraphModel, b: GraphModel) -> GraphModel {
    GraphModel { nodes: a.nodes + b.nodes, edges: a.edges + b.edges, domains: a.domains + b.domains }
}

impl NodeKind {
    /// A structurally identical copy of this node kind.
    fn duplicate(&self) -> (r: NodeKind)
        ensures
            node_model(Node { id: 0, kind: r }) == node_model(Node { id: 0, kind: *self }),
    {
        match self {
            NodeKind::Assertion(v) => NodeKind::Assertion(*v),
            NodeKind::Aggregator { key, allowed } => {
                let mut copy: Vec<DirValue> = Vec::new();
                let mut i: usize = 0;
                while i < allowed.len()
                    invariant
                        i <= allowed.len(),
                        copy@ == allowed@.take(i as int),
                    decreases allowed.len() - i,
                {
                    copy.push(allowed[i]);
                    proof {
                        assert(copy@ =~= allowed@.take(i as int + 1));
                    }
                    i = i + 1;
                }
                proof {
                    assert(copy@ =~= allowed@);
                }
                NodeKind::Aggregator { key: *key, allowed: copy }
            },
        }
    }
}

impl Node {
    /// A structurally identical copy of this node.
    fn duplicate(&self) -> (r: Node)
        ensures
            node_model(r) == node_model(*self),
    {
        let r = Node { id: self.id, kind: self.kind.duplicate() };
        proof {
            assert(node_model(r).kind =~~= node_model(*self).kind);
            assert(node_model(r) =~~= node_model(*self));
        }
        r
    }
}

impl ConstraintGraph {
    /// An empty graph.
    pub fn new() -> (r: ConstraintGraph)
        ensures
            r.model().nodes =~= Seq::<NodeModel>::empty(),
            r.model().edges =~= Seq::<Edge>::empty(),
            r.model().domains =~= Seq::<DomainDescription>::empty(),
            r.wf(),
    {
        let r = ConstraintGraph { nodes: Vec::new(), edges: Vec::new(), domains: Vec::new() };
        proof {
            assert(r.model().nodes =~= Seq::<NodeModel>::empty());
        }
        r
    }

    /// Merges two graphs into a new one, leaving both inputs untouched.
    /// Fails when the node identifier namespaces collide, or when the two
    /// graphs describe one key's domain differently.
    pub fn combine(a: &ConstraintGraph, b: &ConstraintGraph) -> (r: Result<
        ConstraintGraph,
        GraphError,
    >)
        ensures
            r is Ok ==> !has_node_collision(a.model(), b.model()) && !has_domain_collision(
                a.model(),
                b.model(),
            ) && r->Ok_0.model() == combined_model(a.model(), b.model()),
            r is Err ==> match r->Err_0 {
                GraphError::NodeIdCollision(id) => has_node_collision(a.model(), b.model())
                    && exists|i: int, j: int|
                    0 <= i < a.model().nodes.len() && 0 <= j < b.model().nodes.len()
                        && a.model().nodes[i].id == id && b.model().nodes[j].id == id,
                GraphError::DomainIdCollision(key) => has_domain_collision(a.model(), b.model())
                    && exists|i: int, j: int|
                    0 <= i < a.model().domains.len() && 0 <= j < b.model().domains.len()
                        && a.model().domains[i].key == key && b.model().domains[j].key == key
                        && a.model().domains[i].exclusive != b.model().domains[j].exclusive,
            },
            (r is Ok) == (!has_node_collision(a.model(), b.model()) && !has_domain_collision(
                a.model(),
                b.model(),
            )),
    {
        // Detect node identifier collisions.
        let mut i: usize = 0;
        while i < a.nodes.len()
            invariant
                i <= a.nodes.len(),
                forall|p: int, q: int|
                    0 <= p < i && 0 <= q < b.model().nodes.len() ==> a.model().nodes[p].id
                        != b.model().nodes[q].id,
            decreases a.nodes.len() - i,
        {
            let mut j: usize = 0;
            while j < b.nodes.len()
                invariant
                    i < a.nodes.len(),
                    j <= b.nodes.len(),
                    forall|q: int| 0 <= q < j ==> a.model().nodes[i as int].id != b.model().nodes[q].id,
                decreases b.nodes.len() - j,
            {
                if a.nodes[i].id == b.nodes[j].id {
                    proof {
                        assert(a.model().nodes[i as int] == node_model(a.nodes@[i as int]));
                        assert(b.model().nodes[j as int] == node_model(b.nodes@[j as int]));
                        assert(a.model().nodes[i as int].id == b.model().nodes[j as int].id);
                    }
                    return Err(GraphError::NodeIdCollision(a.nodes[i].id));
                }
                j = j + 1;
            }
            i = i + 1;
        }
        // Detect conflicting domain descriptions.
        let mut i: usize = 0;
        while i < a.domains.len()
            invariant
                i <= a.domains.len(),
                forall|p: int, q: int|
                    0 <= p < i && 0 <= q < b.domains@.len() && a.domains@[p].key == b.domains@[q].key
                        ==> a.domains@[p].exclusive == b.domains@[q].exclusive,
                forall|p: int, q: int|
                    0 <= p < a.model().nodes.len() && 0 <= q < b.model().nodes.len()
                        ==> a.model().nodes[p].id != b.model().nodes[q].id,
            decreases a.domains.len() - i,
        {
            let mut j: usize = 0;
            while j < b.domains.len()
                invariant
                    i < a.domains.len(),
                    j <= b.domains.len(),
                    forall|q: int|
                        0 <= q < j && a.domains@[i as int].key == b.domains@[q].key
                            ==> a.domains@[i as int].exclusive == b.domains@[q].exclusive,
                    forall|p: int, q: int|
                        0 <= p < a.model().nodes.len() && 0 <= q < b.model().nodes.len()
                            ==> a.model().nodes[p].id != b.model().nodes[q].id,
                decreases b.domains.len() - j,
            {
                if a.domains[i].key == b.domains[j].key && a.domains[i].exclusive
                    != b.domains[j].exclusive {
                    return Err(GraphError::DomainIdCollision(a.domains[i].key));
                }
                j = j + 1;
            }
            i = i + 1;
        }
        // No collision: build the union.
        let mut nodes: Vec<Node> = Vec::new();
        let mut i: usize = 0;
        while i < a.nodes.len()
            invariant
                i <= a.nodes.len(),
                nodes@.len() == i,
                forall|k: int|
                    0 <= k < i ==> node_model(#[trigger] nodes@[k]) == a.model().nodes[k],
            decreases a.nodes.len() - i,
        {
            nodes.push(a.nodes[i].duplicate());
            proof {
                assert(a.model().nodes[i as int] == node_model(a.nodes@[i as int]));
            }
            i = i + 1;
        }
        let mut i: usize = 0;
        while i < b.nodes.len()
            invariant
                i <= b.nodes.len(),
                nodes@.len() == a.nodes@.len() + i,
                forall|k: int|
                    0 <= k < a.nodes@.len() ==> node_model(#[trigger] nodes@[k])
                        == a.model().nodes[k],
                forall|k: int|
                    0 <= k < i ==> node_model(#[trigger] nodes@[a.nodes@.len() + k])
                        == b.model().nodes[k],
            decreases b.nodes.len() - i,
        {
            nodes.push(b.nodes[i].duplicate());
            proof {
                assert(b.model().nodes[i as int] == node_model(b.nodes@[i as int]));
            }
            i = i + 1;
        }
        let mut edges: Vec<Edge> = Vec::new();
        let mut i: usize = 0;
        while i < a.edges.len()
            invariant
                i <= a.edges.len(),
                edges@ =~= a.edges@.take(i as int),
            decreases a.edges.len() - i,
        {
            edges.push(a.edges[i]);
            i = i + 1;
        }
        let mut i: usize = 0;
        while i < b.edges.len()
            invariant
                i <= b.edges.len(),
                edges@ =~= a.edges@ + b.edges@.take(i as int),
            decreases b.edges.len() - i,
        {
            edges.push(b.edges[i]);
            i = i + 1;
        }
        let mut domains: Vec<DomainDescription> = Vec::new();
        let mut i: usize = 0;
        while i < a.domains.len()
            invariant
                i <= a.domains.len(),
                domains@ =~= a.domains@.take(i as int),
            decreases a.domains.len() - i,
        {
            domains.push(a.domains[i]);
            i = i + 1;
        }
        let mut i: usize = 0;
        while i < b.domains.len()
            invariant
                i <= b.domains.len(),
                domains@ =~= a.domains@ + b.domains@.take(i as int),
            decreases b.domains.len() - i,
        {
            domains.push(b.domains[i]);
            i = i + 1;
        }
        let r = ConstraintGraph { nodes, edges, domains };
        proof {
            assert forall|k: int| 0 <= k < r.model().nodes.len() implies r.model().nodes[k] == (
            a.model().nodes + b.model().nodes)[k] by {
                assert(r.model().nodes[k] == node_model(r.nodes@[k]));
                if k >= a.nodes@.len() {
                    let k2 = k - a.nodes@.len();
                    assert(node_model(r.nodes@[a.nodes@.len() + k2]) == b.model().nodes[k2]);
                }
            }
            assert(r.model().nodes =~= a.model().nodes + b.model().nodes);
            assert(a.edges@ + b.edges@.take(b.edges@.len() as int) =~= a.edges@ + b.edges@);
            assert(a.domains@ + b.domains@.take(b.domains@.len() as int) =~= a.domains@
                + b.domains@);
            assert(r.model() =~~= combined_model(a.model(), b.model()));
        }
        Ok(r)
    }
}

/// Combining two well-formed graphs yields a well-formed graph.
pub proof fn lemma_combine_wf(a: GraphModel, b: GraphModel)
    requires
        model_wf(a),
        model_wf(b),
        !has_node_collision(a, b),
        !has_domain_collision(a, b),
    ensures
        model_wf(combined_model(a, b)),
{
    let c = combined_model(a, b);
    assert forall|i: int, j: int| 0 <= i < j < c.nodes.len() implies c.nodes[i].id != c.nodes[j].id
    by {
        if j < a.nodes.len() {
        } else if i >= a.nodes.len() {
            assert(c.nodes[i] == b.nodes[i - a.nodes.len()]);
            assert(c.nodes[j] == b.nodes[j - a.nodes.len()]);
        } else {
            assert(c.nodes[i] == a.nodes[i]);
            assert(c.nodes[j] == b.nodes[j - a.nodes.len()]);
        }
    }
    assert forall|i: int| 0 <= i < c.edges.len() implies edge_wf(c, #[trigger] c.edges[i]) by {
        let e = c.edges[i];
        lemma_find_node_concat(a.nodes, b.nodes, e.lhs);
        lemma_find_node_concat(a.nodes, b.nodes, e.rhs);
        if i < a.edges.len() {
            assert(e == a.edges[i]);
            assert(edge_wf(a, e));
            assert(find_node(a.nodes, e.lhs) is Some);
            assert(find_node(c.nodes, e.lhs) == find_node(a.nodes, e.lhs));
            assert(find_node(a.nodes, e.rhs) is Some);
            assert(find_node(c.nodes, e.rhs) == find_node(a.nodes, e.rhs));
        } else {
            assert(e == b.edges[i - a.edges.len()]);
            assert(edge_wf(b, e));
            assert(find_node(b.nodes, e.lhs) is Some);
            assert(find_node(b.nodes, e.rhs) is Some);
            if find_node(a.nodes, e.lhs) is Some {
                lemma_find_node_some(a.nodes, e.lhs);
                lemma_find_node_some(b.nodes, e.lhs);
                assert(false);
            }
            if find_node(a.nodes, e.rhs) is Some {
                lemma_find_node_some(a.nodes, e.rhs);
                lemma_find_node_some(b.nodes, e.rhs);
                assert(false);
            }
            assert(find_node(c.nodes, e.lhs) == find_node(b.nodes, e.lhs));
            assert(find_node(c.nodes, e.rhs) == find_node(b.nodes, e.rhs));
        }
    }
    assert forall|i: int, j: int|
        0 <= i < c.domains.len() && 0 <= j < c.domains.len() && c.domains[i].key
            == c.domains[j].key implies c.domains[i].exclusive == c.domains[j].exclusive by {
        let la = a.domains.len() as int;
        if i < la && j < la {
        } else if i >= la && j >= la {
            assert(c.domains[i] == b.domains[i - la]);
            assert(c.domains[j] == b.domains[j - la]);
        } else if i < la && j >= la {
            assert(c.domains[i] == a.domains[i]);
            assert(c.domains[j] == b.domains[j - la]);
        } else {
            assert(c.domains[i] == b.domains[i - la]);
            assert(c.domains[j] == a.domains[j]);
        }
    }
}

} // verus!
