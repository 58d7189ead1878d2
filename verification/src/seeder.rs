//! The knowledge graph seeder: builds a constraint graph from a
//! merchant's configured connector accounts and merges it with the
//! static global analysis graph.
//!
//! Each account contributes one assertion node for its connector and
//! one aggregator per capability dimension (supported payment methods,
//! supported card networks), with implication edges from the connector
//! to each aggregator: while the connector is asserted, only supported
//! values of those keys may be asserted beside it.

use vstd::prelude::*;
use crate::values::{DirValue, DirKeyKind, PaymentMethod, CardNetwork, ConnectorChoice};
use crate::graph::{
    ConstraintGraph,
    GraphModel,
    Node,
    NodeKind,
    NodeModel,
    NodeKindModel,
    Edge,
    EdgeKind,
    GraphError,
    node_model,
    model_wf,
    edge_wf,
    find_node,
    combined_model,
    has_node_collision,
    has_domain_collision,
};

verus! {

/// Node identifiers of the global analysis graph start here, far above
/// any identifier the account graph uses.
pub const GLOBAL_GRAPH_ID_BASE: u64 = 0x1_0000_0000_0000;

/// The account graph never uses identifiers at or above this bound.
pub const ACCOUNT_ID_LIMIT: u64 = 0x1_0000_0000_0000;

/// One configured connector account: the connector and the capabilities
/// it supports.
pub struct ConnectorAccount {
    pub connector: ConnectorChoice,
    pub payment_methods: Vec<PaymentMethod>,
    pub card_networks: Vec<CardNetwork>,
}

/// Ghost counterpart of [`ConnectorAccount`].
#[verifier::ext_equal]
pub struct ConnectorAccountModel {
    pub connector: ConnectorChoice,
    pub payment_methods: Seq<PaymentMethod>,
    pub card_networks: Seq<CardNetwork>,
}

impl View for ConnectorAccount {
    type V = ConnectorAccountModel;

    open spec fn view(&self) -> ConnectorAccountModel {
        ConnectorAccountModel {
            connector: self.connector,
            payment_methods: self.payment_methods@,
            card_networks: self.card_networks@,
        }
    }
}

/// The node the account graph holds at position `j`: accounts take
/// three nodes each — the connector assertion, the payment method
/// aggregator, the card network aggregator.
pub open spec fn account_node_at(accounts: Seq<ConnectorAccountModel>, j: int) -> NodeModel {
    let a = accounts[j / 3];
    if j % 3 == 0 {
        NodeModel { id: j as u64, kind: NodeKindModel::Assertion(DirValue::Connector(a.connector)) }
    } else if j % 3 == 1 {
        NodeModel {
            id: j as u64,
            kind: NodeKindModel::Aggregator {
                key: DirKeyKind::PaymentMethod,
                allowed: a.payment_methods.map_values(|p: PaymentMethod| DirValue::PaymentMethod(p)),
            },
        }
    } else {
        NodeModel {
            id: j as u64,
            kind: NodeKindModel::Aggregator {
                key: DirKeyKind::CardNetwork,
                allowed: a.card_networks.map_values(|c: CardNetwork| DirValue::CardNetwork(c)),
            },
        }
    }
}

/// The account graph: three nodes and two implication edges per
/// account, no domain descriptions.
pub open spec fn account_graph_model(accounts: Seq<ConnectorAccountModel>) -> GraphModel {
    GraphModel {
        nodes: Seq::new(accounts.len() * 3, |j: int| account_node_at(accounts, j)),
        edges: Seq::new(
            accounts.len() * 2,
            |j: int|
                Edge {
                    lhs: ((j / 2) * 3) as u64,
                    rhs: ((j / 2) * 3 + 1 + j % 2) as u64,
                    kind: EdgeKind::Implies,
                },
        ),
        domains: Seq::empty(),
    }
}

/// Under unique identifiers, looking up an element's own identifier
/// finds that element.
proof fn lemma_find_node_at(ns: Seq<NodeModel>, k: int)
    requires
        0 <= k < ns.len(),
        forall|i: int, j: int| 0 <= i < j < ns.len() ==> ns[i].id != ns[j].id,
    ensures
        find_node(ns, ns[k].id) == Some(ns[k]),
{
    crate::graph::lemma_find_node_exists(ns, ns[k].id);
    crate::graph::lemma_find_node_some(ns, ns[k].id);
    let n = find_node(ns, ns[k].id)->Some_0;
    let i = choose|i: int| 0 <= i < ns.len() && ns[i] == n && ns[i].id == ns[k].id;
    assert(i == k);
}

/// The account graph is well formed.
pub proof fn lemma_account_graph_wf(accounts: Seq<ConnectorAccountModel>)
    requires
        accounts.len() * 3 <= ACCOUNT_ID_LIMIT,
    ensures
        model_wf(account_graph_model(accounts)),
{
    let m = account_graph_model(accounts);
    assert forall|i: int, j: int| 0 <= i < j < m.nodes.len() implies m.nodes[i].id != m.nodes[j].id
    by {
        assert(m.nodes[i].id == i as u64);
        assert(m.nodes[j].id == j as u64);
    }
    assert forall|i: int| 0 <= i < m.edges.len() implies edge_wf(m, #[trigger] m.edges[i]) by {
        let e = m.edges[i];
        let a = i / 2;
        let lhs_pos = a * 3;
        let rhs_pos = a * 3 + 1 + i % 2;
        assert(0 <= lhs_pos < m.nodes.len());
        assert(0 <= rhs_pos < m.nodes.len());
        assert(m.nodes[lhs_pos].id == e.lhs);
        assert(m.nodes[rhs_pos].id == e.rhs);
        lemma_find_node_at(m.nodes, lhs_pos);
        lemma_find_node_at(m.nodes, rhs_pos);
        assert(lhs_pos % 3 == 0);
        assert(rhs_pos % 3 == 1 + i % 2);
        assert(m.nodes[lhs_pos].kind is Assertion);
        assert(m.nodes[rhs_pos].kind is Aggregator);
    }
}

/// Maps supported payment methods into directive values.
fn payment_method_values(ms: &Vec<PaymentMethod>) -> (r: Vec<DirValue>)
    ensures
        r@ == ms@.map_values(|p: PaymentMethod| DirValue::PaymentMethod(p)),
{
    let mut r: Vec<DirValue> = Vec::new();
    let mut i: usize = 0;
    while i < ms.len()
        invariant
            i <= ms@.len(),
            r@ =~= ms@.take(i as int).map_values(|p: PaymentMethod| DirValue::PaymentMethod(p)),
        decreases ms@.len() - i,
    {
        r.push(DirValue::PaymentMethod(ms[i]));
        proof {
            assert(r@ =~= ms@.take(i as int + 1).map_values(
                |p: PaymentMethod| DirValue::PaymentMethod(p),
            ));
        }
        i = i + 1;
    }
    proof {
        assert(r@ =~= ms@.map_values(|p: PaymentMethod| DirValue::PaymentMethod(p)));
    }
    r
}

/// Maps supported card networks into directive values.
fn card_network_values(ms: &Vec<CardNetwork>) -> (r: Vec<DirValue>)
    ensures
        r@ == ms@.map_values(|c: CardNetwork| DirValue::CardNetwork(c)),
{
    let mut r: Vec<DirValue> = Vec::new();
    let mut i: usize = 0;
    while i < ms.len()
        invariant
            i <= ms@.len(),
            r@ =~= ms@.take(i as int).map_values(|c: CardNetwork| DirValue::CardNetwork(c)),
        decreases ms@.len() - i,
    {
        r.push(DirValue::CardNetwork(ms[i]));
        proof {
            assert(r@ =~= ms@.take(i as int + 1).map_values(
                |c: CardNetwork| DirValue::CardNetwork(c),
            ));
        }
        i = i + 1;
    }
    proof {
        assert(r@ =~= ms@.map_values(|c: CardNetwork| DirValue::CardNetwork(c)));
    }
    r
}

/// Builds the constraint graph encoding the capabilities of the given
/// connector accounts.
pub fn make_connector_graph(accounts: &Vec<ConnectorAccount>) -> (r: ConstraintGraph)
    requires
        accounts@.len() * 3 <= ACCOUNT_ID_LIMIT,
    ensures
        r.model() == account_graph_model(accounts@.map_values(|a: ConnectorAccount| a@)),
        r.wf(),
{
    let ghost am = accounts@.map_values(|a: ConnectorAccount| a@);
    let ghost gm = account_graph_model(am);
    let mut nodes: Vec<Node> = Vec::new();
    let mut edges: Vec<Edge> = Vec::new();
    let mut i: usize = 0;
    while i < accounts.len()
        invariant
            am == accounts@.map_values(|a: ConnectorAccount| a@),
            gm == account_graph_model(am),
            am.len() == accounts@.len(),
            am.len() * 3 <= ACCOUNT_ID_LIMIT,
            i <= am.len(),
            nodes@.len() == i * 3,
            edges@.len() == i * 2,
            forall|k: int|
                0 <= k < i * 3 ==> node_model(#[trigger] nodes@[k]) == gm.nodes[k],
            forall|k: int| 0 <= k < i * 2 ==> #[trigger] edges@[k] == gm.edges[k],
        decreases am.len() - i,
    {
        let a = &accounts[i];
        proof {
            assert(am[i as int] == accounts@[i as int]@);
        }
        let base: u64 = (i as u64) * 3;
        nodes.push(
            Node { id: base, kind: NodeKind::Assertion(DirValue::Connector(a.connector)) },
        );
        nodes.push(
            Node {
                id: base + 1,
                kind: NodeKind::Aggregator {
                    key: DirKeyKind::PaymentMethod,
                    allowed: payment_method_values(&a.payment_methods),
                },
            },
        );
        nodes.push(
            Node {
                id: base + 2,
                kind: NodeKind::Aggregator {
                    key: DirKeyKind::CardNetwork,
                    allowed: card_network_values(&a.card_networks),
                },
            },
        );
        edges.push(Edge { lhs: base, rhs: base + 1, kind: EdgeKind::Implies });
        edges.push(Edge { lhs: base, rhs: base + 2, kind: EdgeKind::Implies });
        proof {
            let ii = i as int;
            assert forall|k: int|
                0 <= k < (ii + 1) * 3 implies node_model(#[trigger] nodes@[k]) == gm.nodes[k] by {
                if k < ii * 3 {
                } else {
                    assert(k / 3 == ii && (k % 3 == k - ii * 3));
                    assert(gm.nodes[k] == account_node_at(am, k));
                    if k == ii * 3 {
                        assert(nodes@[k] == Node {
                            id: (ii * 3) as u64,
                            kind: NodeKind::Assertion(
                                DirValue::Connector(accounts@[ii].connector),
                            ),
                        });
                    } else if k == ii * 3 + 1 {
                        assert(node_model(nodes@[k]).kind =~~= gm.nodes[k].kind);
                    } else {
                        assert(node_model(nodes@[k]).kind =~~= gm.nodes[k].kind);
                    }
                    assert(node_model(nodes@[k]) =~~= gm.nodes[k]);
                }
            }
            assert forall|k: int| 0 <= k < (ii + 1) * 2 implies #[trigger] edges@[k]
                == gm.edges[k] by {
                if k >= ii * 2 {
                    assert(k / 2 == ii && k % 2 == k - ii * 2);
                }
            }
        }
        i = i + 1;
    }
    let r = ConstraintGraph { nodes, edges, domains: Vec::new() };
    proof {
        assert forall|k: int| 0 <= k < r.model().nodes.len() implies r.model().nodes[k]
            == gm.nodes[k] by {
            assert(r.model().nodes[k] == node_model(r.nodes@[k]));
        }
        assert(r.model().nodes =~= gm.nodes);
        assert(r.model().edges =~= gm.edges);
        assert(r.model().domains =~= gm.domains);
        assert(r.model() =~~= gm);
        lemma_account_graph_wf(am);
    }
    r
}

/// The payment methods that carry no card network.
pub open spec fn non_card_payment_methods() -> Seq<PaymentMethod> {
    seq![
        PaymentMethod::Wallet,
        PaymentMethod::PayLater,
        PaymentMethod::BankRedirect,
        PaymentMethod::BankDebit,
        PaymentMethod::BankTransfer,
        PaymentMethod::Crypto,
        PaymentMethod::Reward,
        PaymentMethod::Upi,
        PaymentMethod::Voucher,
        PaymentMethod::GiftCard,
    ]
}

/// The static global analysis graph: for every payment method that
/// carries no card network, asserting that method forbids asserting any
/// card network beside it.
pub open spec fn global_graph_model() -> GraphModel {
    GraphModel {
        nodes: Seq::new(
            non_card_payment_methods().len() * 2,
            |j: int|
                if j % 2 == 0 {
                    NodeModel {
                        id: (GLOBAL_GRAPH_ID_BASE + j) as u64,
                        kind: NodeKindModel::Assertion(
                            DirValue::PaymentMethod(non_card_payment_methods()[j / 2]),
                        ),
                    }
                } else {
                    NodeModel {
                        id: (GLOBAL_GRAPH_ID_BASE + j) as u64,
                        kind: NodeKindModel::Aggregator {
                            key: DirKeyKind::CardNetwork,
                            allowed: Seq::empty(),
                        },
                    }
                },
        ),
        edges: Seq::new(
            non_card_payment_methods().len(),
            |j: int|
                Edge {
                    lhs: (GLOBAL_GRAPH_ID_BASE + 2 * j) as u64,
                    rhs: (GLOBAL_GRAPH_ID_BASE + 2 * j + 1) as u64,
                    kind: EdgeKind::Implies,
                },
        ),
        domains: Seq::empty(),
    }
}

/// Builds the static global analysis graph.
pub fn default_analysis_graph() -> (r: ConstraintGraph)
    ensures
        r.model() == global_graph_model(),
        r.wf(),
{
    let mut pms: Vec<PaymentMethod> = Vec::new();
    pms.push(PaymentMethod::Wallet);
    pms.push(PaymentMethod::PayLater);
    pms.push(PaymentMethod::BankRedirect);
    pms.push(PaymentMethod::BankDebit);
    pms.push(PaymentMethod::BankTransfer);
    pms.push(PaymentMethod::Crypto);
    pms.push(PaymentMethod::Reward);
    pms.push(PaymentMethod::Upi);
    pms.push(PaymentMethod::Voucher);
    pms.push(PaymentMethod::GiftCard);
    proof {
        assert(pms@ =~= non_card_payment_methods());
    }
    let ghost gm = global_graph_model();
    let mut nodes: Vec<Node> = Vec::new();
    let mut edges: Vec<Edge> = Vec::new();
    let mut i: usize = 0;
    while i < pms.len()
        invariant
            pms@ == non_card_payment_methods(),
            gm == global_graph_model(),
            i <= pms@.len(),
            nodes@.len() == i * 2,
            edges@.len() == i,
            forall|k: int|
                0 <= k < i * 2 ==> node_model(#[trigger] nodes@[k]) == gm.nodes[k],
            forall|k: int| 0 <= k < i ==> #[trigger] edges@[k] == gm.edges[k],
        decreases pms@.len() - i,
    {
        let lhs_id: u64 = GLOBAL_GRAPH_ID_BASE + (i as u64) * 2;
        nodes.push(
            Node { id: lhs_id, kind: NodeKind::Assertion(DirValue::PaymentMethod(pms[i])) },
        );
        nodes.push(
            Node {
                id: lhs_id + 1,
                kind: NodeKind::Aggregator { key: DirKeyKind::CardNetwork, allowed: Vec::new() },
            },
        );
        edges.push(Edge { lhs: lhs_id, rhs: lhs_id + 1, kind: EdgeKind::Implies });
        proof {
            let ii = i as int;
            assert forall|k: int|
                0 <= k < (ii + 1) * 2 implies node_model(#[trigger] nodes@[k]) == gm.nodes[k] by {
                if k >= ii * 2 {
                    assert(k / 2 == ii && k % 2 == k - ii * 2);
                    assert(node_model(nodes@[k]).kind =~~= gm.nodes[k].kind);
                    assert(node_model(nodes@[k]) =~~= gm.nodes[k]);
                }
            }
        }
        i = i + 1;
    }
    let r = ConstraintGraph { nodes, edges, domains: Vec::new() };
    proof {
        assert forall|k: int| 0 <= k < r.model().nodes.len() implies r.model().nodes[k]
            == gm.nodes[k] by {
            assert(r.model().nodes[k] == node_model(r.nodes@[k]));
        }
        assert(r.model().nodes =~= gm.nodes);
        assert(r.model().edges =~= gm.edges);
        assert(r.model().domains =~= gm.domains);
        assert(r.model() =~~= gm);
        lemma_global_graph_wf();
    }
    r
}

/// The global analysis graph is well formed.
pub proof fn lemma_global_graph_wf()
    ensures
        model_wf(global_graph_model()),
{
    let m = global_graph_model();
    assert forall|i: int, j: int| 0 <= i < j < m.nodes.len() implies m.nodes[i].id != m.nodes[j].id
    by {
        assert(m.nodes[i].id == (GLOBAL_GRAPH_ID_BASE + i) as u64);
        assert(m.nodes[j].id == (GLOBAL_GRAPH_ID_BASE + j) as u64);
    }
    assert forall|i: int| 0 <= i < m.edges.len() implies edge_wf(m, #[trigger] m.edges[i]) by {
        let e = m.edges[i];
        let lhs_pos = 2 * i;
        let rhs_pos = 2 * i + 1;
        assert(m.nodes[lhs_pos].id == e.lhs);
        assert(m.nodes[rhs_pos].id == e.rhs);
        lemma_find_node_at(m.nodes, lhs_pos);
        lemma_find_node_at(m.nodes, rhs_pos);
        assert(m.nodes[lhs_pos].kind is Assertion);
        assert(m.nodes[rhs_pos].kind is Aggregator);
    }
}

/// A seeded knowledge graph, with the candidate connector list the
/// accounts define.
pub struct SeedData {
    pub cgraph: ConstraintGraph,
    pub connectors: Vec<ConnectorChoice>,
}

/// Builds the account graph, merges it with the given global analysis
/// graph, and extracts the candidate connector list, in account order.
/// Fails when the two graphs' node identifier namespaces collide or
/// their domain descriptions disagree.
pub fn seed_knowledge_graph(accounts: &Vec<ConnectorAccount>, global: &ConstraintGraph) -> (r:
    Result<SeedData, GraphError>)
    requires
        accounts@.len() * 3 <= ACCOUNT_ID_LIMIT,
    ensures
        ({
            let am = account_graph_model(accounts@.map_values(|a: ConnectorAccount| a@));
            &&& (r is Ok) == (!has_node_collision(am, global.model()) && !has_domain_collision(
                am,
                global.model(),
            ))
            &&& r matches Ok(sd) ==> sd.cgraph.model() == combined_model(am, global.model())
                && sd.connectors@ == accounts@.map_values(|a: ConnectorAccount| a@.connector)
                && (model_wf(global.model()) ==> sd.cgraph.wf())
        }),
{
    let mca = make_connector_graph(accounts);
    let combined = match ConstraintGraph::combine(&mca, global) {
        Ok(g) => g,
        Err(e) => {
            return Err(e);
        },
    };
    proof {
        let am = account_graph_model(accounts@.map_values(|a: ConnectorAccount| a@));
        if model_wf(global.model()) {
            lemma_account_graph_wf(accounts@.map_values(|a: ConnectorAccount| a@));
            crate::graph::lemma_combine_wf(am, global.model());
        }
    }
    let mut connectors: Vec<ConnectorChoice> = Vec::new();
    let mut i: usize = 0;
    while i < accounts.len()
        invariant
            i <= accounts@.len(),
            connectors@ =~= accounts@.take(i as int).map_values(
                |a: ConnectorAccount| a@.connector,
            ),
        decreases accounts@.len() - i,
    {
        connectors.push(accounts[i].connector);
        proof {
            assert(connectors@ =~= accounts@.take(i as int + 1).map_values(
                |a: ConnectorAccount| a@.connector,
            ));
        }
        i = i + 1;
    }
    proof {
        assert(connectors@ =~= accounts@.map_values(|a: ConnectorAccount| a@.connector));
    }
    Ok(SeedData { cgraph: combined, connectors })
}

} // verus!
