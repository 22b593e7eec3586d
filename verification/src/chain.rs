//! Chains of trust of any depth.
//!
//! A node holds a public key and, unless it is an anchor, the place of its
//! parent and the parent's signature over exactly the node's public key. A
//! key is trusted if it is the anchor, or if its parent's signature validates
//! and the parent is trusted in turn. The walk from a key to the anchor is
//! bounded by a number of links, so that a cycle among the parent references
//! cannot keep it going. A walk that has not ended after as many links as
//! there are nodes is in a cycle, so no walk takes more links than that,
//! however many are allowed.

use vstd::prelude::*;
use vstd::set_lib::{lemma_int_range, lemma_len_subset, set_int_range};
use vstd::slice::slice_to_vec;
use crate::keys::{Journalist, RootKeyPair, SignedKeyPair};
use crate::signing::{verifies, verify};

verus! {

/// A key in a chain of trust.
pub struct ChainNode {
    /// The public key of this node.
    pub public_key: [u8; 32],
    /// The place of the node that attests this one; `None` for an anchor.
    pub parent: Option<usize>,
    /// The parent's signature over `public_key`; empty for an anchor.
    pub signature: Vec<u8>,
}

/// The bytes and the parent reference of a node.
pub struct ChainNodeView {
    pub public_key: Seq<u8>,
    pub parent: Option<usize>,
    pub signature: Seq<u8>,
}

impl View for ChainNode {
    type V = ChainNodeView;

    open spec fn view(&self) -> ChainNodeView {
        ChainNodeView {
            public_key: self.public_key@,
            parent: self.parent,
            signature: self.signature@,
        }
    }
}

/// Why a key is not trusted.
#[derive(Clone, Copy, Debug, PartialEq, Eq, Structural)]
pub enum ChainError {
    /// The walk reached a place where there is no node.
    UnknownKey(usize),
    /// The walk reached a node other than the anchor that names no parent.
    NoParent(usize),
    /// The anchor was not reached within the allowed number of links.
    TooDeep,
    /// The signature of the node at this place does not validate under its
    /// parent's key.
    BrokenLink(usize),
}

/// The nodes of a chain as mathematical values.
pub open spec fn node_views(nodes: Seq<ChainNode>) -> Seq<ChainNodeView> {
    nodes.map_values(|node: ChainNode| node@)
}

/// The node at `key` names a parent that exists, and the parent's key
/// validates the node's signature over the node's public key.
pub open spec fn link_holds(nodes: Seq<ChainNodeView>, key: usize) -> bool {
    &&& nodes[key as int].parent matches Some(parent)
    &&& parent < nodes.len()
    &&& verifies(
        nodes[parent as int].public_key,
        nodes[key as int].public_key,
        nodes[key as int].signature,
    )
}

/// The key at `key` is trusted: it is the anchor, or its link holds and its
/// parent is trusted with one link less to go.
pub open spec fn trusted(nodes: Seq<ChainNodeView>, anchor: usize, key: usize, depth: nat) -> bool
    decreases depth,
{
    &&& key < nodes.len()
    &&& (key == anchor || (depth > 0 && link_holds(nodes, key) && trusted(
        nodes,
        anchor,
        nodes[key as int].parent->0,
        (depth - 1) as nat,
    )))
}

/// The places from `key` to the anchor along the parent references, or the
/// reason why the anchor is not reached within `depth` links.
pub open spec fn path_outcome(
    nodes: Seq<ChainNodeView>,
    anchor: usize,
    key: usize,
    depth: nat,
) -> Result<Seq<usize>, ChainError>
    decreases depth,
{
    if key >= nodes.len() {
        Err(ChainError::UnknownKey(key))
    } else if key == anchor {
        Ok(seq![key])
    } else if depth == 0 {
        Err(ChainError::TooDeep)
    } else {
        match nodes[key as int].parent {
            None => Err(ChainError::NoParent(key)),
            Some(parent) => match path_outcome(nodes, anchor, parent, (depth - 1) as nat) {
                Ok(rest) => Ok(seq![key] + rest),
                Err(error) => Err(error),
            },
        }
    }
}

/// The signature of the node at `child` validates under the key of the node
/// at `parent`.
pub open spec fn step_holds(nodes: Seq<ChainNodeView>, child: usize, parent: usize) -> bool {
    verifies(
        nodes[parent as int].public_key,
        nodes[child as int].public_key,
        nodes[child as int].signature,
    )
}

/// What checking the links of `path` from place `from` on reports: the first
/// link whose signature does not validate, if there is one.
pub open spec fn links_outcome(nodes: Seq<ChainNodeView>, path: Seq<usize>, from: int) -> Result<
    (),
    ChainError,
>
    decreases path.len() - from,
{
    if from < 0 || from + 1 >= path.len() {
        Ok(())
    } else if !step_holds(nodes, path[from], path[from + 1]) {
        Err(ChainError::BrokenLink(path[from]))
    } else {
        links_outcome(nodes, path, from + 1)
    }
}

/// What verifying the key at `key` reports: the path to the anchor is found
/// first, without any check of a signature; then its links are checked from
/// `key` towards the anchor.
pub open spec fn chain_outcome(
    nodes: Seq<ChainNodeView>,
    anchor: usize,
    key: usize,
    depth: nat,
) -> Result<(), ChainError> {
    match path_outcome(nodes, anchor, key, depth) {
        Err(error) => Err(error),
        Ok(path) => links_outcome(nodes, path, 0),
    }
}

/// `path` leads from `key` to `anchor` along the parent references of nodes
/// that exist, over at most `depth` links.
pub open spec fn is_path(
    nodes: Seq<ChainNodeView>,
    anchor: usize,
    key: usize,
    depth: nat,
    path: Seq<usize>,
) -> bool {
    &&& 1 <= path.len() <= depth + 1
    &&& path[0] == key
    &&& path[path.len() - 1] == anchor
    &&& forall|i: int| 0 <= i < path.len() ==> (#[trigger] path[i]) < nodes.len()
    &&& forall|i: int|
        0 <= i < path.len() - 1 ==> nodes[(#[trigger] path[i]) as int].parent == Some(path[i + 1])
}

/// A path that `path_outcome` finds is a path.
pub proof fn lemma_path_outcome_is_path(
    nodes: Seq<ChainNodeView>,
    anchor: usize,
    key: usize,
    depth: nat,
)
    requires
        path_outcome(nodes, anchor, key, depth) is Ok,
    ensures
        is_path(nodes, anchor, key, depth, path_outcome(nodes, anchor, key, depth)->Ok_0),
    decreases depth,
{
    if key != anchor {
        let parent = nodes[key as int].parent->0;
        lemma_path_outcome_is_path(nodes, anchor, parent, (depth - 1) as nat);
        let rest = path_outcome(nodes, anchor, parent, (depth - 1) as nat)->Ok_0;
        let path = seq![key] + rest;
        assert forall|i: int| 0 <= i < path.len() implies (#[trigger] path[i]) < nodes.len() by {
            if i > 0 {
                assert(path[i] == rest[i - 1]);
            }
        }
        assert forall|i: int| 0 <= i < path.len() - 1 implies nodes[(#[trigger] path[i]) as int].parent
            == Some(path[i + 1]) by {
            if i > 0 {
                assert(path[i] == rest[i - 1]);
                assert(path[i + 1] == rest[i]);
            }
        }
    }
}

/// Checking the links of a path that starts with `key` checks the link at
/// `key` and then the links of the rest.
proof fn lemma_links_shift(nodes: Seq<ChainNodeView>, key: usize, rest: Seq<usize>, from: int)
    requires
        0 <= from,
    ensures
        links_outcome(nodes, seq![key] + rest, from + 1) == links_outcome(nodes, rest, from),
    decreases rest.len() - from,
{
    let path = seq![key] + rest;
    if from + 1 < rest.len() {
        assert(path[from + 1] == rest[from]);
        assert(path[from + 2] == rest[from + 1]);
        lemma_links_shift(nodes, key, rest, from + 1);
    }
}

/// The recursive definition of trust and the walk agree: a key is trusted
/// exactly where the walk finds a path and every link on it validates.
pub proof fn lemma_trusted_iff_chain_outcome_ok(
    nodes: Seq<ChainNodeView>,
    anchor: usize,
    key: usize,
    depth: nat,
)
    ensures
        trusted(nodes, anchor, key, depth) <==> chain_outcome(nodes, anchor, key, depth) is Ok,
    decreases depth,
{
    if key < nodes.len() && key != anchor && depth > 0 && nodes[key as int].parent is Some {
        let parent = nodes[key as int].parent->0;
        lemma_trusted_iff_chain_outcome_ok(nodes, anchor, parent, (depth - 1) as nat);
        if path_outcome(nodes, anchor, parent, (depth - 1) as nat) is Ok {
            let rest = path_outcome(nodes, anchor, parent, (depth - 1) as nat)->Ok_0;
            lemma_path_outcome_is_path(nodes, anchor, parent, (depth - 1) as nat);
            let path = seq![key] + rest;
            assert(path[0] == key);
            assert(path[1] == rest[0]);
            lemma_links_shift(nodes, key, rest, 0);
        }
    }
}

/// A key that is trusted within some number of links is trusted within any
/// greater number.
pub proof fn lemma_trusted_monotonic(
    nodes: Seq<ChainNodeView>,
    anchor: usize,
    key: usize,
    depth: nat,
    more: nat,
)
    requires
        trusted(nodes, anchor, key, depth),
        depth <= more,
    ensures
        trusted(nodes, anchor, key, more),
    decreases depth,
{
    if key != anchor {
        lemma_trusted_monotonic(
            nodes,
            anchor,
            nodes[key as int].parent->0,
            (depth - 1) as nat,
            (more - 1) as nat,
        );
    }
}

/// An anchor is trusted without any signature, at any depth.
pub proof fn lemma_anchor_trusted(nodes: Seq<ChainNodeView>, anchor: usize, depth: nat)
    requires
        anchor < nodes.len(),
    ensures
        trusted(nodes, anchor, anchor, depth),
{
}

/// Where the walk goes from `key`: to the parent, or nowhere if there is
/// none.
spec fn next(nodes: Seq<ChainNodeView>, key: usize) -> usize {
    if key < nodes.len() && nodes[key as int].parent is Some {
        nodes[key as int].parent->0
    } else {
        key
    }
}

/// Where the walk from `key` stands after `count` links.
spec fn hop(nodes: Seq<ChainNodeView>, key: usize, count: nat) -> usize
    decreases count,
{
    if count == 0 {
        key
    } else {
        hop(nodes, next(nodes, key), (count - 1) as nat)
    }
}

/// The walk neither ends nor fails at `key`.
spec fn passable(nodes: Seq<ChainNodeView>, anchor: usize, key: usize) -> bool {
    key < nodes.len() && key != anchor && nodes[key as int].parent is Some
}

/// A walk that has ended, or has failed for another reason than its depth,
/// comes out the same with more links allowed.
proof fn lemma_decided_stays(
    nodes: Seq<ChainNodeView>,
    anchor: usize,
    key: usize,
    depth: nat,
    more: nat,
)
    requires
        depth <= more,
        path_outcome(nodes, anchor, key, depth) != Err::<Seq<usize>, ChainError>(
            ChainError::TooDeep,
        ),
    ensures
        path_outcome(nodes, anchor, key, more) == path_outcome(nodes, anchor, key, depth),
    decreases depth,
{
    if key < nodes.len() && key != anchor && depth > 0 && nodes[key as int].parent is Some {
        lemma_decided_stays(
            nodes,
            anchor,
            nodes[key as int].parent->0,
            (depth - 1) as nat,
            (more - 1) as nat,
        );
    }
}

/// A walk that ran out of links passed a node at every link.
proof fn lemma_too_deep_passed(nodes: Seq<ChainNodeView>, anchor: usize, key: usize, depth: nat)
    requires
        path_outcome(nodes, anchor, key, depth) == Err::<Seq<usize>, ChainError>(
            ChainError::TooDeep,
        ),
    ensures
        forall|j: nat| j < depth ==> passable(nodes, anchor, #[trigger] hop(nodes, key, j)),
        hop(nodes, key, depth) < nodes.len(),
    decreases depth,
{
    if depth > 0 {
        let parent = nodes[key as int].parent->0;
        lemma_too_deep_passed(nodes, anchor, parent, (depth - 1) as nat);
        assert forall|j: nat| j < depth implies passable(
            nodes,
            anchor,
            #[trigger] hop(nodes, key, j),
        ) by {
            if j > 0 {
                assert(hop(nodes, key, j) == hop(nodes, parent, (j - 1) as nat));
            }
        }
    }
}

/// A walk that passes a node at every link runs out of links.
proof fn lemma_passing_is_too_deep(nodes: Seq<ChainNodeView>, anchor: usize, key: usize, depth: nat)
    requires
        forall|j: nat| j <= depth ==> passable(nodes, anchor, #[trigger] hop(nodes, key, j)),
    ensures
        path_outcome(nodes, anchor, key, depth) == Err::<Seq<usize>, ChainError>(
            ChainError::TooDeep,
        ),
    decreases depth,
{
    assert(passable(nodes, anchor, hop(nodes, key, 0)));
    if depth > 0 {
        let parent = nodes[key as int].parent->0;
        assert forall|j: nat| j <= depth - 1 implies passable(
            nodes,
            anchor,
            #[trigger] hop(nodes, parent, j),
        ) by {
            assert(hop(nodes, key, j + 1) == hop(nodes, parent, j));
        }
        lemma_passing_is_too_deep(nodes, anchor, parent, (depth - 1) as nat);
    }
}

/// Walking `first` links and then `then` links is walking both in a row.
proof fn lemma_hop_add(nodes: Seq<ChainNodeView>, key: usize, first: nat, then: nat)
    ensures
        hop(nodes, key, first + then) == hop(nodes, hop(nodes, key, first), then),
    decreases first,
{
    if first > 0 {
        lemma_hop_add(nodes, next(nodes, key), (first - 1) as nat, then);
    }
}

/// A walk of as many links as there are nodes, over nodes that exist, stands
/// on some node twice.
proof fn lemma_walk_repeats(nodes: Seq<ChainNodeView>, key: usize) -> (places: (nat, nat))
    requires
        forall|t: nat| t <= nodes.len() ==> (#[trigger] hop(nodes, key, t)) < nodes.len(),
    ensures
        places.0 < places.1 <= nodes.len(),
        hop(nodes, key, places.0) == hop(nodes, key, places.1),
{
    let count = nodes.len() as int;
    let walk = Seq::new((count + 1) as nat, |t: int| hop(nodes, key, t as nat) as int);
    if walk.no_duplicates() {
        walk.unique_seq_to_set();
        lemma_int_range(0, count);
        assert forall|place: int| walk.to_set().contains(place) implies set_int_range(
            0,
            count,
        ).contains(place) by {
            let t = choose|t: int| 0 <= t < walk.len() && walk[t] == place;
            assert(hop(nodes, key, t as nat) < nodes.len());
        }
        lemma_len_subset(walk.to_set(), set_int_range(0, count));
        assert(false);
    }
    let (i, j) = choose|i: int, j: int|
        0 <= i < walk.len() && 0 <= j < walk.len() && i != j && walk[i] == walk[j];
    if i < j {
        (i as nat, j as nat)
    } else {
        (j as nat, i as nat)
    }
}

/// A walk that stands on a node twice, and passes a node at every link up to
/// the second time, passes a node at every link.
proof fn lemma_cycle_goes_on(
    nodes: Seq<ChainNodeView>,
    anchor: usize,
    key: usize,
    first: nat,
    second: nat,
    at: nat,
)
    requires
        first < second,
        hop(nodes, key, first) == hop(nodes, key, second),
        forall|j: nat| j < second ==> passable(nodes, anchor, #[trigger] hop(nodes, key, j)),
    ensures
        passable(nodes, anchor, hop(nodes, key, at)),
    decreases at,
{
    if at >= second {
        let beyond = (at - second) as nat;
        lemma_hop_add(nodes, key, second, beyond);
        lemma_hop_add(nodes, key, first, beyond);
        assert(first + beyond < at);
        lemma_cycle_goes_on(nodes, anchor, key, first, second, first + beyond);
    }
}

/// More links than there are nodes add nothing: the walk comes out the same,
/// and the same keys are trusted.
pub proof fn lemma_depth_beyond_nodes(
    nodes: Seq<ChainNodeView>,
    anchor: usize,
    key: usize,
    depth: nat,
)
    requires
        depth >= nodes.len(),
    ensures
        path_outcome(nodes, anchor, key, depth) == path_outcome(nodes, anchor, key, nodes.len()),
        chain_outcome(nodes, anchor, key, depth) == chain_outcome(nodes, anchor, key, nodes.len()),
        trusted(nodes, anchor, key, depth) <==> trusted(nodes, anchor, key, nodes.len()),
{
    let count = nodes.len();
    if path_outcome(nodes, anchor, key, count) == Err::<Seq<usize>, ChainError>(
        ChainError::TooDeep,
    ) {
        lemma_too_deep_passed(nodes, anchor, key, count);
        let (first, second) = lemma_walk_repeats(nodes, key);
        assert forall|j: nat| j <= depth implies passable(
            nodes,
            anchor,
            #[trigger] hop(nodes, key, j),
        ) by {
            lemma_cycle_goes_on(nodes, anchor, key, first, second, j);
        }
        lemma_passing_is_too_deep(nodes, anchor, key, depth);
    } else {
        lemma_decided_stays(nodes, anchor, key, count, depth);
    }
    lemma_trusted_iff_chain_outcome_ok(nodes, anchor, key, depth);
    lemma_trusted_iff_chain_outcome_ok(nodes, anchor, key, count);
}

/// What follows `prefix` on the way to the anchor.
spec fn continued(prefix: Seq<usize>, rest: Result<Seq<usize>, ChainError>) -> Result<
    Seq<usize>,
    ChainError,
> {
    match rest {
        Ok(rest) => Ok(prefix + rest),
        Err(error) => Err(error),
    }
}

/// Walks from `key` along the parent references until it reaches `anchor`,
/// over at most `max_depth` links, and hands back the places it passed, `key`
/// first and `anchor` last. No signature is checked. The walk takes no more
/// links than there are nodes, whatever `max_depth` is.
pub fn path_to_anchor(nodes: &Vec<ChainNode>, anchor: usize, key: usize, max_depth: usize) -> (outcome:
    Result<Vec<usize>, ChainError>)
    ensures
        match outcome {
            Ok(path) => path_outcome(node_views(nodes@), anchor, key, max_depth as nat) == Ok::<
                Seq<usize>,
                ChainError,
            >(path@),
            Err(error) => path_outcome(node_views(nodes@), anchor, key, max_depth as nat) == Err::<
                Seq<usize>,
                ChainError,
            >(error),
        },
        outcome matches Ok(path) ==> is_path(
            node_views(nodes@),
            anchor,
            key,
            max_depth as nat,
            path@,
        ),
{
    let ghost views = node_views(nodes@);
    let ghost goal = path_outcome(views, anchor, key, max_depth as nat);
    let limit = if max_depth > nodes.len() {
        proof {
            lemma_depth_beyond_nodes(views, anchor, key, max_depth as nat);
        }
        nodes.len()
    } else {
        max_depth
    };
    let mut path: Vec<usize> = Vec::new();
    let mut current = key;
    let mut remaining = limit;
    loop
        invariant
            views == node_views(nodes@),
            goal == path_outcome(views, anchor, key, max_depth as nat),
            goal == continued(path@, path_outcome(views, anchor, current, remaining as nat)),
        decreases remaining,
    {
        if current >= nodes.len() {
            return Err(ChainError::UnknownKey(current));
        }
        if current == anchor {
            let ghost before = path@;
            path.push(current);
            proof {
                assert(path@ =~= before + seq![current]);
                lemma_path_outcome_is_path(views, anchor, key, max_depth as nat);
            }
            return Ok(path);
        }
        if remaining == 0 {
            return Err(ChainError::TooDeep);
        }
        match nodes[current].parent {
            None => {
                return Err(ChainError::NoParent(current));
            },
            Some(parent) => {
                proof {
                    let rest = path_outcome(views, anchor, parent, (remaining - 1) as nat);
                    if rest is Ok {
                        assert(path@.push(current) + rest->Ok_0 =~= path@ + (seq![current]
                            + rest->Ok_0));
                    }
                }
                path.push(current);
                current = parent;
                remaining = remaining - 1;
            },
        }
    }
}

/// Verifies the key at `key` against the anchor at `anchor`, over at most
/// `max_depth` links. The key is accepted exactly where it is trusted.
pub fn verify_chain(nodes: &Vec<ChainNode>, anchor: usize, key: usize, max_depth: usize) -> (outcome:
    Result<(), ChainError>)
    ensures
        outcome == chain_outcome(node_views(nodes@), anchor, key, max_depth as nat),
        outcome is Ok <==> trusted(node_views(nodes@), anchor, key, max_depth as nat),
{
    let ghost views = node_views(nodes@);
    proof {
        lemma_trusted_iff_chain_outcome_ok(views, anchor, key, max_depth as nat);
    }
    let path = match path_to_anchor(nodes, anchor, key, max_depth) {
        Ok(path) => path,
        Err(error) => {
            return Err(error);
        },
    };
    let mut i: usize = 0;
    while i + 1 < path.len()
        invariant
            i < path@.len(),
            views == node_views(nodes@),
            is_path(views, anchor, key, max_depth as nat, path@),
            path_outcome(views, anchor, key, max_depth as nat) == Ok::<Seq<usize>, ChainError>(
                path@,
            ),
            links_outcome(views, path@, 0) == links_outcome(views, path@, i as int),
            trusted(views, anchor, key, max_depth as nat) <==> chain_outcome(
                views,
                anchor,
                key,
                max_depth as nat,
            ) is Ok,
        decreases path@.len() - i,
    {
        let child = path[i];
        let parent = path[i + 1];
        assert(path@[i as int] < views.len());
        assert(path@[i + 1] < views.len());
        assert(views[child as int] == nodes@[child as int]@);
        assert(views[parent as int] == nodes@[parent as int]@);
        let link = verify(
            &nodes[parent].public_key,
            &nodes[child].public_key,
            nodes[child].signature.as_slice(),
        );
        if link.is_err() {
            return Err(ChainError::BrokenLink(child));
        }
        i += 1;
    }
    Ok(())
}

/// The chain of the fixed hierarchy: the root at place 0 as the anchor, the
/// intermediate at place 1 under the root, and the journalist's signing key
/// at place 2 and encrypting key at place 3, both under the intermediate.
pub fn three_level_chain(root: &RootKeyPair, intermediate: &SignedKeyPair, journalist: &Journalist) -> (nodes:
    Vec<ChainNode>)
    ensures
        nodes@.len() == 4,
        nodes@[0]@ == (ChainNodeView {
            public_key: root@.public,
            parent: None,
            signature: Seq::<u8>::empty(),
        }),
        nodes@[1]@ == (ChainNodeView {
            public_key: intermediate@.public,
            parent: Some(0usize),
            signature: intermediate@.signature,
        }),
        nodes@[2]@ == (ChainNodeView {
            public_key: journalist@.signing.public,
            parent: Some(1usize),
            signature: journalist@.signing.signature,
        }),
        nodes@[3]@ == (ChainNodeView {
            public_key: journalist@.encrypting.public,
            parent: Some(1usize),
            signature: journalist@.encrypting.signature,
        }),
{
    let mut nodes: Vec<ChainNode> = Vec::new();
    nodes.push(ChainNode { public_key: root.public_key(), parent: None, signature: Vec::new() });
    nodes.push(
        ChainNode {
            public_key: intermediate.public_key(),
            parent: Some(0),
            signature: slice_to_vec(intermediate.signature().as_slice()),
        },
    );
    nodes.push(
        ChainNode {
            public_key: journalist.signing().public_key(),
            parent: Some(1),
            signature: slice_to_vec(journalist.signing().signature().as_slice()),
        },
    );
    nodes.push(
        ChainNode {
            public_key: journalist.encrypting().public_key(),
            parent: Some(1),
            signature: slice_to_vec(journalist.encrypting().signature().as_slice()),
        },
    );
    nodes
}

/// In a chain of three levels, a leaf is trusted within two links exactly
/// where the root's key validates the intermediate's signature and the
/// intermediate's key validates the leaf's.
pub proof fn lemma_three_levels(nodes: Seq<ChainNodeView>, leaf: usize)
    requires
        nodes.len() > leaf,
        leaf >= 2,
        nodes[1].parent == Some(0usize),
        nodes[leaf as int].parent == Some(1usize),
    ensures
        trusted(nodes, 0, leaf, 2) <==> (verifies(
            nodes[0].public_key,
            nodes[1].public_key,
            nodes[1].signature,
        ) && verifies(nodes[1].public_key, nodes[leaf as int].public_key, nodes[leaf as int].signature)),
{
    reveal_with_fuel(trusted, 3);
}

} // verus!
