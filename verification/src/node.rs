//! Raw nodes as fetched from the upstream graph store, modelled over plain
//! values, with the pre-processing steps that run before item building:
//! skipping completed nodes, discarding inactive timestamps, and expanding
//! the timestamp triple into concrete occurrences.

use vstd::prelude::*;
use crate::dates::{date_valid, Date};
use crate::repeat::{is_expansion_of, ActionItemRepeat, RepeatData};
use crate::strutil::seq_has_str;
use crate::timestamps::{ts_valid, ts_year_le, Timestamp, EXPAND_YEAR_MAX};

verus! {

/// A representation of all the information about a single node in the graph.
pub struct Node {
    /// The node's unique identifier.
    pub id: u128,
    /// The title of this node and its parents, outermost first.
    pub title: Vec<String>,
    /// The path the node came from.
    pub path: String,
    /// The tags on this node itself.
    pub tags: Vec<String>,
    /// The tags on this node's parents.
    pub parent_tags: Vec<String>,
    /// The identifier of the parent, if there is one.
    pub parent_id: Option<u128>,
    /// The metadata about the node, if requested.
    pub metadata: Option<NodeMetadata>,
    /// The body of the node, if requested and present.
    pub body: Option<String>,
    /// The identifiers and titles of the direct children of this node.
    pub children: Vec<(u128, String)>,
    /// Valid connections this node has directly to other nodes.
    pub connections: Vec<(u128, NodeConnection)>,
    /// Connections this node's children have to other nodes.
    pub child_connections: Vec<(u128, NodeConnection)>,
    /// Connections from other nodes to this node.
    pub backlinks: Vec<(u128, NodeConnection)>,
    /// Connections from other nodes to children of this node.
    pub child_backlinks: Vec<(u128, NodeConnection)>,
}

/// Metadata about a node.
pub struct NodeMetadata {
    /// The level of this node in the hierarchy of its document.
    pub level: u8,
    /// The priority marker on this heading, if one was present.
    pub priority: Option<String>,
    /// A deadline on this node, if present.
    pub deadline: Option<Timestamp>,
    /// A scheduled timestamp on this node, if present.
    pub scheduled: Option<Timestamp>,
    /// A closed timestamp on this node, if present.
    pub closed: Option<Timestamp>,
    /// The free-form properties of the node.
    pub properties: Vec<(String, String)>,
    /// The action-state keyword at the start of the node, if present.
    pub keyword: Option<String>,
    /// Timestamps at the end of the node.
    pub timestamps: Vec<Timestamp>,
}

/// A connection with another node.
pub struct NodeConnection {
    /// The other node's raw title.
    pub title: Vec<String>,
    /// The aggregated types of the connection.
    pub types: Vec<String>,
}

/// Options used when requesting node information from the store.
#[derive(Clone, Copy, Debug)]
pub struct NodeOptions {
    /// Whether to return the body of the node.
    pub body: bool,
    /// Whether to return metadata about the node.
    pub metadata: bool,
    /// Whether to return the identifiers of direct children.
    pub children: bool,
    /// Whether to return connections and backlinks.
    pub connections: bool,
    /// Whether to return connections in the children too.
    pub child_connections: bool,
    /// The format links should be serialised to.
    pub conn_format: Format,
}

/// The format of a node's links.
#[derive(Clone, Copy, PartialEq, Eq, Structural, Debug)]
pub enum Format {
    Markdown,
    Org,
}

pub open spec fn opt_ts_wf(t: Option<Timestamp>) -> bool {
    match t {
        Some(ts) => ts_valid(ts) && ts_year_le(ts, EXPAND_YEAR_MAX as int),
        None => true,
    }
}

/// A node the engine can work on: metadata present, a non-empty title path,
/// and all timestamps well-formed and within the expansion year bound.
pub open spec fn node_wf(n: Node) -> bool {
    &&& n.metadata is Some
    &&& n.title@.len() >= 1
    &&& {
        let md = n.metadata.unwrap();
        &&& opt_ts_wf(md.deadline)
        &&& opt_ts_wf(md.scheduled)
        &&& opt_ts_wf(md.closed)
        &&& forall|i: int|
            0 <= i < md.timestamps@.len() ==> opt_ts_wf(Some(#[trigger] md.timestamps@[i]))
    }
}

/// Whether the node should be kept: it has no keyword, or its keyword is not
/// one of the completion keywords.
pub open spec fn skip_complete_spec(n: Node, done_keywords: Seq<String>) -> bool {
    match n.metadata.unwrap().keyword {
        Some(k) => !seq_has_str(done_keywords, k@),
        None => true,
    }
}

/// Keeps the node only if it does not carry a completion keyword.
pub fn skip_complete(node: &Node, done_keywords: &Vec<String>) -> (r: bool)
    requires
        node.metadata is Some,
    ensures
        r == skip_complete_spec(*node, done_keywords@),
{
    match &node.metadata.as_ref().unwrap().keyword {
        Some(k) => !crate::strutil::strings_contain(done_keywords, k.as_str()),
        None => true,
    }
}

/// The subsequence of active timestamps.
pub open spec fn active_ts(s: Seq<Timestamp>) -> Seq<Timestamp>
    decreases s.len(),
{
    if s.len() == 0 {
        Seq::empty()
    } else if s[0].active {
        seq![s[0]] + active_ts(s.drop_first())
    } else {
        active_ts(s.drop_first())
    }
}

/// An optional timestamp with inactive values discarded.
pub open spec fn opt_active(t: Option<Timestamp>) -> Option<Timestamp> {
    match t {
        Some(ts) => if ts.active {
            Some(ts)
        } else {
            None
        },
        None => None,
    }
}

proof fn lemma_active_ts_step(s: Seq<Timestamp>, i: int)
    requires
        0 <= i < s.len(),
    ensures
        s[i].active ==> active_ts(s.skip(i)) == seq![s[i]] + active_ts(s.skip(i + 1)),
        !s[i].active ==> active_ts(s.skip(i)) == active_ts(s.skip(i + 1)),
{
    assert(s.skip(i)[0] == s[i]);
    assert(s.skip(i).drop_first() =~= s.skip(i + 1));
}

/// `pn` is `node` with all inactive timestamps discarded, from the trailing
/// timestamp list and from the scheduled/deadline/closed slots alike, and
/// everything else untouched.
pub open spec fn pruned_rel(node: Node, pn: Node) -> bool {
    &&& pn.metadata is Some
    &&& {
        let m0 = node.metadata.unwrap();
        let m1 = pn.metadata.unwrap();
        &&& m1.timestamps@ == active_ts(m0.timestamps@)
        &&& m1.scheduled == opt_active(m0.scheduled)
        &&& m1.deadline == opt_active(m0.deadline)
        &&& m1.closed == opt_active(m0.closed)
        &&& m1.level == m0.level
        &&& m1.priority == m0.priority
        &&& m1.properties == m0.properties
        &&& m1.keyword == m0.keyword
    }
    &&& pn.id == node.id
    &&& pn.title == node.title
    &&& pn.path == node.path
    &&& pn.tags == node.tags
    &&& pn.parent_tags == node.parent_tags
    &&& pn.parent_id == node.parent_id
    &&& pn.body == node.body
    &&& pn.children == node.children
    &&& pn.connections == node.connections
    &&& pn.child_connections == node.child_connections
    &&& pn.backlinks == node.backlinks
    &&& pn.child_backlinks == node.child_backlinks
}

proof fn lemma_active_ts_wf(s: Seq<Timestamp>)
    requires
        forall|j: int| 0 <= j < s.len() ==> opt_ts_wf(Some(#[trigger] s[j])),
    ensures
        forall|i: int|
            0 <= i < active_ts(s).len() ==> opt_ts_wf(Some(#[trigger] active_ts(s)[i])),
    decreases s.len(),
{
    if s.len() > 0 {
        let t = s.drop_first();
        assert forall|j: int| 0 <= j < t.len() implies opt_ts_wf(Some(#[trigger] t[j])) by {
            assert(t[j] == s[j + 1]);
            assert(opt_ts_wf(Some(s[j + 1])));
        };
        lemma_active_ts_wf(t);
        assert forall|i: int| 0 <= i < active_ts(s).len() implies opt_ts_wf(
            Some(#[trigger] active_ts(s)[i]),
        ) by {
            if s[0].active {
                if i == 0 {
                    assert(active_ts(s)[0] == s[0]);
                    assert(opt_ts_wf(Some(s[0])));
                } else {
                    assert(active_ts(s)[i] == active_ts(t)[i - 1]);
                    assert(opt_ts_wf(Some(active_ts(t)[i - 1])));
                }
            } else {
                assert(active_ts(s)[i] == active_ts(t)[i]);
                assert(opt_ts_wf(Some(active_ts(t)[i])));
            }
        };
    }
}

/// Pruning preserves well-formedness of the node.
pub proof fn lemma_pruned_wf(node: Node, pn: Node)
    requires
        node_wf(node),
        pruned_rel(node, pn),
    ensures
        node_wf(pn),
{
    let m0 = node.metadata.unwrap();
    lemma_active_ts_wf(m0.timestamps@);
}

/// Removes all inactive timestamps from the node, both from the trailing
/// timestamp list and from the scheduled/deadline/closed slots.
pub fn prune_inactive_ts(node: Node) -> (r: Node)
    requires
        node.metadata is Some,
    ensures
        pruned_rel(node, r),
{
    let Node {
        id,
        title,
        path,
        tags,
        parent_tags,
        parent_id,
        metadata,
        body,
        children,
        connections,
        child_connections,
        backlinks,
        child_backlinks,
    } = node;
    let md = match metadata {
        Some(m) => m,
        None => unreached(),
    };
    let NodeMetadata {
        level,
        priority,
        deadline,
        scheduled,
        closed,
        properties,
        keyword,
        timestamps,
    } = md;

    let ghost all_ts = timestamps@;
    let mut kept: Vec<Timestamp> = Vec::new();
    let mut i: usize = 0;
    proof {
        assert(all_ts.skip(0) =~= all_ts);
    }
    while i < timestamps.len()
        invariant
            i <= all_ts.len(),
            timestamps@ == all_ts,
            kept@ + active_ts(all_ts.skip(i as int)) == active_ts(all_ts),
        decreases all_ts.len() - i,
    {
        proof {
            lemma_active_ts_step(all_ts, i as int);
        }
        let ts = timestamps[i];
        let ghost old_kept = kept@;
        if ts.active {
            kept.push(ts);
            proof {
                assert(old_kept + (seq![all_ts[i as int]] + active_ts(all_ts.skip(i + 1)))
                    =~= kept@ + active_ts(all_ts.skip(i + 1)));
            }
        }
        i = i + 1;
    }
    proof {
        assert(all_ts.skip(all_ts.len() as int) =~= Seq::<Timestamp>::empty());
        assert(kept@ + Seq::<Timestamp>::empty() =~= kept@);
    }

    let scheduled = match scheduled {
        Some(ts) => if ts.active {
            Some(ts)
        } else {
            None
        },
        None => None,
    };
    let deadline = match deadline {
        Some(ts) => if ts.active {
            Some(ts)
        } else {
            None
        },
        None => None,
    };
    let closed = match closed {
        Some(ts) => if ts.active {
            Some(ts)
        } else {
            None
        },
        None => None,
    };

    Node {
        id,
        title,
        path,
        tags,
        parent_tags,
        parent_id,
        metadata: Some(
            NodeMetadata {
                level,
                priority,
                deadline,
                scheduled,
                closed,
                properties,
                keyword,
                timestamps: kept,
            },
        ),
        body,
        children,
        connections,
        child_connections,
        backlinks,
        child_backlinks,
    }
}

/// The timestamp triple of the node, guided by one primary timestamp (or
/// none).
pub open spec fn node_rd(n: Node, primary: Option<Timestamp>) -> RepeatData {
    RepeatData {
        primary,
        scheduled: n.metadata.unwrap().scheduled,
        deadline: n.metadata.unwrap().deadline,
    }
}

/// `gs` holds one expansion per primary timestamp of the node (a single
/// primary-less expansion when the node has no trailing timestamps).
pub open spec fn expands_into(n: Node, until: Date, gs: Seq<Seq<ActionItemRepeat>>) -> bool {
    let md = n.metadata.unwrap();
    if md.timestamps@.len() == 0 {
        gs.len() == 1 && is_expansion_of(node_rd(n, None), until, gs[0])
    } else {
        gs.len() == md.timestamps@.len() && forall|i: int|
            0 <= i < gs.len() ==> is_expansion_of(
                node_rd(n, Some(md.timestamps@[i])),
                until,
                #[trigger] gs[i],
            )
    }
}

/// `s` is the concatenation of the node's per-primary-timestamp expansions.
pub open spec fn expand_result(n: Node, until: Date, s: Seq<ActionItemRepeat>) -> bool {
    exists|gs: Seq<Seq<ActionItemRepeat>>| #[trigger] expands_into(n, until, gs) && s
        == gs.flatten()
}

/// Expands the timestamps on the given node, repeating them until `until`.
/// Each primary (trailing) timestamp guides its own expansion of the triple;
/// a node without primary timestamps still expands its scheduled/deadline
/// pair once, so every node yields at least one occurrence.
pub fn expand_timestamps(node: &Node, until: Date) -> (r: Vec<ActionItemRepeat>)
    requires
        node_wf(*node),
        date_valid(until),
        until.year <= EXPAND_YEAR_MAX,
    ensures
        expand_result(*node, until, r@),
        r@.len() >= 1,
{
    let md = node.metadata.as_ref().unwrap();
    if md.timestamps.len() == 0 {
        let rd = RepeatData { primary: None, scheduled: md.scheduled, deadline: md.deadline };
        let occs = rd.repeat_until(until);
        proof {
            let gs = seq![occs@];
            assert(expands_into(*node, until, gs));
            gs.lemma_flatten_one_element();
            assert(gs.flatten() == occs@);
        }
        occs
    } else {
        let mut out: Vec<ActionItemRepeat> = Vec::new();
        let ghost mut gs: Seq<Seq<ActionItemRepeat>> = Seq::empty();
        let mut i: usize = 0;
        proof {
            assert(Seq::<Seq<ActionItemRepeat>>::empty().flatten() =~= Seq::<
                ActionItemRepeat,
            >::empty());
        }
        while i < md.timestamps.len()
            invariant
                node_wf(*node),
                date_valid(until),
                until.year <= EXPAND_YEAR_MAX,
                node.metadata.unwrap() == *md,
                i <= md.timestamps@.len(),
                gs.len() == i,
                out@ == gs.flatten(),
                i >= 1 ==> out@.len() >= 1,
                forall|j: int|
                    0 <= j < i ==> is_expansion_of(
                        node_rd(*node, Some(md.timestamps@[j])),
                        until,
                        #[trigger] gs[j],
                    ),
            decreases md.timestamps@.len() - i,
        {
            let ts = md.timestamps[i];
            let rd = RepeatData { primary: Some(ts), scheduled: md.scheduled, deadline: md.deadline };
            proof {
                assert(opt_ts_wf(Some(md.timestamps@[i as int])));
            }
            let mut occs = rd.repeat_until(until);
            let ghost occs_view = occs@;
            out.append(&mut occs);
            proof {
                gs.lemma_flatten_push(occs_view);
                gs = gs.push(occs_view);
            }
            i = i + 1;
        }
        proof {
            assert(expands_into(*node, until, gs));
        }
        out
    }
}

} // verus!
