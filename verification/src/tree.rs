//! A record as a tree, and the extractor on its stream. The decoder walks
//! the tree of a record and tells the extractor of each element that opens
//! and closes; the extractor never sees the tree. Still it takes from every
//! element what a walk of the tree itself would take, with the parent of
//! each element at hand: the path that the extractor keeps names the parent
//! at every step.

use vstd::prelude::*;
use crate::ancestors::parent_of;
use crate::bodyfilevisitor::{position_of, Position, VisitorState};
use crate::document::{document_events, leaf_events, leaves_events, Document, Leaf};
use crate::error::ErrorView;
use crate::payload::Entry;
use crate::stream::{lemma_run_concat, lemma_run_element, lemma_run_one, run, EventView};

verus! {

/// A node of a record: an element with attributes and children, or a text.
pub enum Node {
    Element { tag: Seq<char>, attributes: Seq<Entry>, children: Seq<Node> },
    Text { value: Seq<char> },
}

/// The events that the decoder emits for a node: an element opens, its
/// children follow in order, and the element closes.
pub open spec fn node_events(node: Node) -> Seq<EventView>
    decreases node, 0nat,
{
    match node {
        Node::Text { value } => seq![EventView::Text { value }],
        Node::Element { tag, attributes, children } => seq![EventView::Enter { tag, attributes }]
            + children_events(children, children.len()) + seq![EventView::Leave { tag }],
    }
}

/// The events for the first `n` of the children.
pub open spec fn children_events(children: Seq<Node>, n: nat) -> Seq<EventView>
    decreases children, n,
{
    if n == 0 || n > children.len() {
        Seq::empty()
    } else {
        children_events(children, (n - 1) as nat) + node_events(children[n - 1])
    }
}

/// What a walk of the tree takes from a node that stands inside an element
/// with the tag `parent`: the walk knows the parent of each node from the
/// tree, and leaves the path of the state alone.
pub open spec fn absorbed(state: VisitorState, parent: Option<Seq<char>>, node: Node) -> Result<
    VisitorState,
    ErrorView,
>
    decreases node, 0nat,
{
    match node {
        Node::Text { value } => Ok(state.texted_under(parent, value)),
        Node::Element { tag, attributes, children } => match state.noted_at(
            position_of(parent, tag),
            attributes,
        ) {
            Ok(noted) => {
                let inside = VisitorState {
                    root_seen: noted.root_seen || (parent.is_none() && tag == "Event"@),
                    ..noted
                };
                match absorbed_children(inside, tag, children, children.len()) {
                    Ok(done) => Ok(VisitorState { pending_key: None, ..done }),
                    Err(e) => Err(e),
                }
            },
            Err(e) => Err(e),
        },
    }
}

/// What a walk takes from the first `n` children of an element with the tag
/// `tag`.
pub open spec fn absorbed_children(
    state: VisitorState,
    tag: Seq<char>,
    children: Seq<Node>,
    n: nat,
) -> Result<VisitorState, ErrorView>
    decreases children, n,
{
    if n == 0 || n > children.len() {
        Ok(state)
    } else {
        match absorbed_children(state, tag, children, (n - 1) as nat) {
            Ok(before) => absorbed(before, Some(tag), children[n - 1]),
            Err(e) => Err(e),
        }
    }
}

/// The state `state` on the path `stack`.
pub open spec fn on_path(state: VisitorState, stack: Seq<Seq<char>>) -> VisitorState {
    VisitorState { stack, ..state }
}

/// An outcome on the path `stack`.
pub open spec fn outcome_on_path(outcome: Result<VisitorState, ErrorView>, stack: Seq<Seq<char>>)
    -> Result<VisitorState, ErrorView> {
    match outcome {
        Ok(state) => Ok(on_path(state, stack)),
        Err(e) => Err(e),
    }
}

/// The extractor on the stream of a node does what the walk of the node
/// does: from whatever state and on whatever path it starts, it ends on the
/// same path, with what the walk takes when it is told the innermost open
/// element as the parent of the node. The same holds for the children of an
/// element, inside that element.
pub proof fn lemma_stream_follows_tree(state: VisitorState, stack: Seq<Seq<char>>, node: Node)
    ensures
        run(on_path(state, stack), node_events(node)) == outcome_on_path(
            absorbed(state, parent_of(stack), node),
            stack,
        ),
    decreases node, 0nat,
{
    let start = on_path(state, stack);
    match node {
        Node::Text { value } => {
            lemma_run_one(start, EventView::Text { value });
            assert(start.texted(value) =~= on_path(
                state.texted_under(parent_of(stack), value),
                stack,
            ));
        },
        Node::Element { tag, attributes, children } => {
            let within = children_events(children, children.len());
            let position = position_of(parent_of(stack), tag);
            lemma_run_element(start, tag, attributes, within);
            match state.noted_at(position, attributes) {
                Ok(noted) => {
                    let inside = VisitorState {
                        root_seen: noted.root_seen || (parent_of(stack).is_none() && tag
                            == "Event"@),
                        ..noted
                    };
                    let deeper = stack.push(tag);
                    lemma_noted_on_path(state, stack, position, attributes);
                    assert(on_path(noted, stack).opened(tag) =~= on_path(inside, deeper));
                    lemma_stream_follows_children(inside, deeper, tag, children, children.len());
                    match absorbed_children(inside, tag, children, children.len()) {
                        Ok(done) => {
                            assert(deeper.drop_last() =~= stack);
                            assert(on_path(done, deeper).left() =~= on_path(
                                VisitorState { pending_key: None, ..done },
                                stack,
                            ));
                        },
                        Err(e) => {},
                    }
                },
                Err(e) => {
                    lemma_noted_on_path(state, stack, position, attributes);
                },
            }
        },
    }
}

/// What an element changes does not depend on the path of the state.
pub proof fn lemma_noted_on_path(
    state: VisitorState,
    stack: Seq<Seq<char>>,
    position: Position,
    attributes: Seq<Entry>,
)
    ensures
        on_path(state, stack).noted_at(position, attributes) == outcome_on_path(
            state.noted_at(position, attributes),
            stack,
        ),
{
}

/// See [`lemma_stream_follows_tree`]: the children of an element with the
/// tag `tag`, on a path that ends in that element.
pub proof fn lemma_stream_follows_children(
    state: VisitorState,
    stack: Seq<Seq<char>>,
    tag: Seq<char>,
    children: Seq<Node>,
    n: nat,
)
    requires
        parent_of(stack) == Some(tag),
        n <= children.len(),
    ensures
        run(on_path(state, stack), children_events(children, n)) == outcome_on_path(
            absorbed_children(state, tag, children, n),
            stack,
        ),
    decreases children, n,
{
    let start = on_path(state, stack);
    if n > 0 {
        let fewer = (n - 1) as nat;
        lemma_stream_follows_children(state, stack, tag, children, fewer);
        lemma_run_concat(start, children_events(children, fewer), node_events(children[n - 1]));
        match absorbed_children(state, tag, children, fewer) {
            Ok(before) => {
                lemma_stream_follows_tree(before, stack, children[n - 1]);
            },
            Err(e) => {},
        }
    }
}

/// The stream of a whole record: a fresh extractor ends where the walk of
/// the tree from its root ends, with no element open.
pub proof fn lemma_record_stream_follows_tree(state: VisitorState, root: Node)
    requires
        state.stack.len() == 0,
    ensures
        run(state, node_events(root)) == absorbed(state, None, root),
        run(state, node_events(root)) matches Ok(end) ==> end.stack.len() == 0,
{
    lemma_stream_follows_tree(state, state.stack, root);
    assert(on_path(state, state.stack) =~= state);
    lemma_walk_keeps_path(state, None, root);
    match absorbed(state, None, root) {
        Ok(end) => {
            assert(on_path(end, state.stack) =~= end);
        },
        Err(e) => {},
    }
}

/// The walk leaves the path of the state alone.
pub proof fn lemma_walk_keeps_path(state: VisitorState, parent: Option<Seq<char>>, node: Node)
    ensures
        absorbed(state, parent, node) matches Ok(end) ==> end.stack == state.stack,
    decreases node, 0nat,
{
    match node {
        Node::Text { value } => {},
        Node::Element { tag, attributes, children } => {
            match state.noted_at(position_of(parent, tag), attributes) {
                Ok(noted) => {
                    let inside = VisitorState {
                        root_seen: noted.root_seen || (parent.is_none() && tag == "Event"@),
                        ..noted
                    };
                    lemma_walk_keeps_path_children(inside, tag, children, children.len());
                },
                Err(e) => {},
            }
        },
    }
}

/// See [`lemma_walk_keeps_path`]: the children of an element.
pub proof fn lemma_walk_keeps_path_children(
    state: VisitorState,
    tag: Seq<char>,
    children: Seq<Node>,
    n: nat,
)
    requires
        n <= children.len(),
    ensures
        absorbed_children(state, tag, children, n) matches Ok(end) ==> end.stack == state.stack,
    decreases children, n,
{
    if n > 0 {
        let fewer = (n - 1) as nat;
        lemma_walk_keeps_path_children(state, tag, children, fewer);
        match absorbed_children(state, tag, children, fewer) {
            Ok(before) => {
                lemma_walk_keeps_path(before, Some(tag), children[n - 1]);
            },
            Err(e) => {},
        }
    }
}

/// An element without child elements as a node.
pub open spec fn leaf_node(leaf: Leaf) -> Node {
    Node::Element {
        tag: leaf.tag,
        attributes: leaf.attributes,
        children: match leaf.text {
            Some(value) => seq![Node::Text { value }],
            None => Seq::empty(),
        },
    }
}

/// A record in the usual layout as a tree: an `Event` that holds `System`
/// and `EventData`, each with its elements.
pub open spec fn document_tree(document: Document) -> Node {
    Node::Element {
        tag: "Event"@,
        attributes: document.event_attributes,
        children: seq![
            Node::Element {
                tag: "System"@,
                attributes: document.system_attributes,
                children: document.system.map_values(|leaf: Leaf| leaf_node(leaf)),
            },
            Node::Element {
                tag: "EventData"@,
                attributes: document.data_attributes,
                children: document.data.map_values(|leaf: Leaf| leaf_node(leaf)),
            },
        ],
    }
}

/// The events of elements without child elements are the events of their
/// nodes.
pub proof fn lemma_leaves_are_nodes(leaves: Seq<Leaf>, n: nat)
    requires
        n <= leaves.len(),
    ensures
        children_events(leaves.map_values(|leaf: Leaf| leaf_node(leaf)), n) == leaves_events(
            leaves.take(n as int),
        ),
    decreases n,
{
    let nodes = leaves.map_values(|leaf: Leaf| leaf_node(leaf));
    if n == 0 {
        assert(leaves.take(0) =~= Seq::<Leaf>::empty());
    } else {
        let fewer = (n - 1) as nat;
        lemma_leaves_are_nodes(leaves, fewer);
        let leaf = leaves[n - 1];
        assert(leaves.take(n as int).drop_last() =~= leaves.take(fewer as int));
        assert(leaves.take(n as int).last() == leaf);
        assert(nodes[n - 1] == leaf_node(leaf));
        assert(node_events(leaf_node(leaf)) =~= leaf_events(leaf)) by {
            reveal_with_fuel(children_events, 3);
            match leaf.text {
                Some(value) => {
                    let children = seq![Node::Text { value }];
                    assert(children_events(children, 1) =~= seq![EventView::Text { value }]);
                },
                None => {
                    assert(children_events(Seq::<Node>::empty(), 0) =~= Seq::<EventView>::empty());
                },
            }
        }
    }
}

/// The stream of a record in the usual layout is the stream of its tree.
pub proof fn lemma_document_is_tree(document: Document)
    ensures
        node_events(document_tree(document)) == document_events(document),
{
    let system = Node::Element {
        tag: "System"@,
        attributes: document.system_attributes,
        children: document.system.map_values(|leaf: Leaf| leaf_node(leaf)),
    };
    let data = Node::Element {
        tag: "EventData"@,
        attributes: document.data_attributes,
        children: document.data.map_values(|leaf: Leaf| leaf_node(leaf)),
    };
    let both = seq![system, data];
    lemma_leaves_are_nodes(document.system, document.system.len());
    lemma_leaves_are_nodes(document.data, document.data.len());
    assert(document.system.take(document.system.len() as int) =~= document.system);
    assert(document.data.take(document.data.len() as int) =~= document.data);
    assert(children_events(both, 2) == children_events(both, 1) + node_events(data));
    assert(children_events(both, 1) == children_events(both, 0) + node_events(system));
    assert(children_events(both, 0) =~= Seq::<EventView>::empty());
    assert(node_events(document_tree(document)) =~= document_events(document));
}

} // verus!
