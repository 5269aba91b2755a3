//! The flowchart model: nodes with shapes and labels, and connectors between them.
use vstd::prelude::*;

use crate::graph::{add_edge, all_edges, edge_map, edge_weight, new_graph, EdgeGraph};
use crate::scan::{col_at, line_at, locate, offset_at};

verus! {

/// The direction the flowchart should be drawn in.
#[derive(Debug, Clone, Copy, PartialEq, Eq, Structural)]
pub enum Direction {
    /// Flow from top to bottom.
    TopBottom,
    /// Flow from bottom to top.
    BottomTop,
    /// Flow from left to right.
    LeftRight,
    /// Flow from right to left.
    RightLeft,
}

/// The shape that a node is drawn inside.
#[derive(Debug, Clone, Copy, PartialEq, Eq, Structural)]
pub enum NodeStyle {
    /// A square node (the default).
    Square,
    /// Slightly rounded edges.
    Round,
    /// Fully rounded edges (like a chariot stadium).
    Stadium,
    /// Square with lines down each side, for a subroutine.
    Subroutine,
    /// The shape of a 3D cylinder, for a database.
    Cylinder,
    /// A circle.
    Circle,
    /// A flag shape.
    Asymmetric,
    /// A rhombus (diamond).
    Rhombus,
    /// A hexagon.
    Hexagon,
    /// A parallelogram leaning forward.
    Parallelogram,
    /// A parallelogram leaning backward.
    ParallelogramRev,
    /// A trapezoid bigger at the bottom.
    Trapezoid,
    /// A trapezoid bigger at the top.
    TrapezoidRev,
    /// A circle with an extra line round the edge.
    DoubleCircle,
}

/// The style of a connector's line.
#[derive(Debug, Clone, Copy, PartialEq, Eq, Structural)]
pub enum LineStyle {
    /// A normal solid line (the default).
    Normal,
    /// A thicker solid line.
    Thick,
    /// A dotted line.
    Dotted,
}

/// The head drawn at one end of a connector.
#[derive(Debug, Clone, Copy, PartialEq, Eq, Structural)]
pub enum ArrowStyle {
    /// An arrowhead that looks like an arrow.
    Arrow,
    /// A circle shaped arrowhead.
    Circle,
    /// A cross shaped arrowhead.
    Cross,
}

/// Information associated with a connection between two nodes (an edge).
///
/// The grammar has no labels on connectors, so a connector carries none.
#[derive(Debug, Clone, Copy, PartialEq, Eq, Structural)]
pub struct Connector {
    /// The style of the line.
    pub line_style: LineStyle,
    /// The head at the "from" end, if any.
    pub arrow_start: Option<ArrowStyle>,
    /// The head at the "to" end, if any.
    pub arrow_end: Option<ArrowStyle>,
    /// The rank of the connection: a hint to a layout engine about which connections should be
    /// longer.
    pub rank: u16,
}

/// A node of the flowchart.
#[derive(Debug, Clone)]
pub struct Node {
    /// The node's identifier, unique within its flowchart.
    pub id: String,
    /// The node's label. If it is empty the identifier is shown instead (see
    /// [`Node::label_or_id`]).
    pub label: String,
    /// The shape that should be used for the node.
    pub style: NodeStyle,
}

/// A node as text: identifier, label and shape.
pub struct NodeView {
    pub id: Seq<char>,
    pub label: Seq<char>,
    pub style: NodeStyle,
}

impl View for Node {
    type V = NodeView;

    open spec fn view(&self) -> NodeView {
        NodeView { id: self.id@, label: self.label@, style: self.style }
    }
}

impl Node {
    /// Whether the node is just an identifier, without a label.
    pub fn is_id(&self) -> (r: bool)
        ensures
            r == (self.label@.len() == 0),
    {
        self.label.as_str().is_empty()
    }

    /// The label for the node, falling back to the identifier if there is no label.
    pub fn label_or_id(&self) -> (r: &str)
        ensures
            r@ == (if self.label@.len() == 0 {
                self.id@
            } else {
                self.label@
            }),
    {
        if self.label.as_str().is_empty() {
            self.id.as_str()
        } else {
            self.label.as_str()
        }
    }
}

/// What went wrong while parsing a flowchart.
#[derive(Debug, Clone, Copy, PartialEq, Eq)]
pub enum ParseErrorKind {
    /// Expected a particular text at the failure point.
    ExpectedLiteral(&'static str),
    /// Expected a direction (`TB`, `TD`, `BT`, `RL` or `LR`).
    ExpectedDirection,
    /// Expected a node identifier.
    ExpectedIdent,
    /// Expected a connector between nodes.
    ExpectedConnector,
    /// A quoted node label has no closing quote.
    UnclosedQuote,
    /// A node's shape was opened and never closed.
    UnclosedNode,
    /// A node's shape is closed by a delimiter that does not match how it was opened.
    UnmatchedShape,
    /// A connector mixes `-` and `=` in its line.
    MixedLineStyle,
    /// A connector's rank does not fit in a `u16`.
    RankOverflow,
    /// A node identifier was given a label and shape after it was already declared.
    DuplicateNode,
    /// Two connectors join the same ordered pair of nodes.
    DuplicateEdge,
}

/// A failed flowchart parse: what went wrong, and where.
#[derive(Debug, Clone, Copy, PartialEq, Eq)]
pub struct ParseError {
    /// (1-indexed) line number of the error.
    pub line: u32,
    /// (1-indexed) column of the error, counted in bytes.
    pub col: usize,
    /// (0-indexed) byte offset of the error in the input.
    pub offset: usize,
    /// What went wrong.
    pub kind: ParseErrorKind,
}

/// A failure of the grammar: its kind and the character position it is reported at.
pub type Failure = (ParseErrorKind, int);

impl ParseError {
    /// This error reports `kind` at character position `p` of `s`.
    pub open spec fn reports(&self, s: Seq<char>, kind: ParseErrorKind, p: int) -> bool {
        &&& self.kind == kind
        &&& self.line == line_at(s, p)
        &&& self.col == col_at(s, p)
        &&& self.offset == offset_at(s, p)
    }

    pub(crate) fn at(s: &Vec<char>, p: usize, kind: ParseErrorKind) -> (e: ParseError)
        requires
            p <= s@.len() <= crate::MAX_INPUT_CHARS,
        ensures
            e.reports(s@, kind, p as int),
    {
        let (line, col, offset) = locate(s, p);
        ParseError { line, col, offset, kind }
    }
}

/// A flowchart: a direction, a table of nodes and the connectors between them.
#[derive(Debug)]
pub struct Flowchart {
    /// The direction this flowchart should be rendered in.
    pub direction: Direction,
    /// The nodes, in the order they were first mentioned.
    pub nodes: Vec<Node>,
    /// The connectors, keyed by the indices in `nodes` of the nodes they join.
    pub graph: EdgeGraph,
}

/// The content of a flowchart.
pub struct FlowView {
    pub direction: Direction,
    pub nodes: Seq<NodeView>,
    pub edges: Map<(usize, usize), Connector>,
}

impl View for Flowchart {
    type V = FlowView;

    open spec fn view(&self) -> FlowView {
        FlowView {
            direction: self.direction,
            nodes: self.nodes@.map_values(|n: Node| n@),
            edges: edge_map(self.graph),
        }
    }
}

/// The first index at or after `i` of a node with identifier `id`, or -1 if there is none.
pub open spec fn index_from(nodes: Seq<NodeView>, id: Seq<char>, i: int) -> int
    decreases nodes.len() - i,
{
    if i < 0 || i >= nodes.len() {
        -1
    } else if nodes[i].id == id {
        i
    } else {
        index_from(nodes, id, i + 1)
    }
}

proof fn lemma_index_from_range(nodes: Seq<NodeView>, id: Seq<char>, i: int)
    requires
        0 <= i,
    ensures
        index_from(nodes, id, i) == -1 || (i <= index_from(nodes, id, i) < nodes.len()
            && nodes[index_from(nodes, id, i)].id == id),
    decreases nodes.len() - i,
{
    if i < nodes.len() && nodes[i].id != id {
        lemma_index_from_range(nodes, id, i + 1);
    }
}

/// The index of the node with identifier `id`, or -1 if there is none.
pub open spec fn index_of(nodes: Seq<NodeView>, id: Seq<char>) -> int {
    index_from(nodes, id, 0)
}

/// The flowchart `m` after `n`, mentioned at position `pos`, is registered. A mention without a
/// label adds the node if its identifier is new and is otherwise a no-op; a mention with a
/// label adds the node, and fails if its identifier is already known.
pub open spec fn register(m: FlowView, n: NodeView, pos: int) -> Result<FlowView, Failure> {
    if index_of(m.nodes, n.id) >= 0 {
        if n.label.len() == 0 {
            Ok(m)
        } else {
            Err((ParseErrorKind::DuplicateNode, pos))
        }
    } else {
        Ok(FlowView { nodes: m.nodes.push(n), ..m })
    }
}

/// A mention that gives a label to an identifier already in the chart is rejected, whatever
/// the label and shape, and the error stands where the mention does.
pub proof fn lemma_redeclared_node_rejected(m: FlowView, n: NodeView, pos: int)
    requires
        index_of(m.nodes, n.id) >= 0,
        n.label.len() > 0,
    ensures
        register(m, n, pos) == Err::<FlowView, Failure>((ParseErrorKind::DuplicateNode, pos)),
{
}

/// A mention without a label leaves a chart that already has its identifier unchanged.
pub proof fn lemma_bare_mention_kept(m: FlowView, n: NodeView, pos: int)
    requires
        index_of(m.nodes, n.id) >= 0,
        n.label.len() == 0,
    ensures
        register(m, n, pos) == Ok::<FlowView, Failure>(m),
{
}

/// A node mention: the node and the position where it stands.
pub type Mention = (NodeView, int);

/// The flowchart `m` after each of `ns` from index `i` on is registered, in order.
pub open spec fn register_from(m: FlowView, ns: Seq<Mention>, i: int) -> Result<FlowView, Failure>
    decreases ns.len() - i,
{
    if i < 0 || i >= ns.len() {
        Ok(m)
    } else {
        match register(m, ns[i].0, ns[i].1) {
            Err(f) => Err(f),
            Ok(m1) => register_from(m1, ns, i + 1),
        }
    }
}

/// The flowchart `m` with a connector `c` added from node `a` to node `b`; it fails if those
/// two are already joined in that direction. `pos` is where the connector stands.
pub open spec fn connect(m: FlowView, a: Seq<char>, b: Seq<char>, c: Connector, pos: int) -> Result<
    FlowView,
    Failure,
> {
    let ka = index_of(m.nodes, a);
    let kb = index_of(m.nodes, b);
    if ka < 0 || kb < 0 {
        Ok(m)
    } else if m.edges.contains_key((ka as usize, kb as usize)) {
        Err((ParseErrorKind::DuplicateEdge, pos))
    } else {
        Ok(FlowView { edges: m.edges.insert((ka as usize, kb as usize), c), ..m })
    }
}

/// The flowchart `m` with `c` added from `a` to each of `right` from index `j` on, in order.
pub open spec fn connect_row(
    m: FlowView,
    a: Seq<char>,
    right: Seq<Mention>,
    c: Connector,
    pos: int,
    j: int,
) -> Result<FlowView, Failure>
    decreases right.len() - j,
{
    if j < 0 || j >= right.len() {
        Ok(m)
    } else {
        match connect(m, a, right[j].0.id, c, pos) {
            Err(f) => Err(f),
            Ok(m1) => connect_row(m1, a, right, c, pos, j + 1),
        }
    }
}

/// The flowchart `m` with `c` added from each of `left` from index `i` on to each of `right`:
/// the pairs in order of `left`, then of `right`.
pub open spec fn connect_all(
    m: FlowView,
    left: Seq<Mention>,
    right: Seq<Mention>,
    c: Connector,
    pos: int,
    i: int,
) -> Result<FlowView, Failure>
    decreases left.len() - i,
{
    if i < 0 || i >= left.len() {
        Ok(m)
    } else {
        match connect_row(m, left[i].0.id, right, c, pos, 0) {
            Err(f) => Err(f),
            Ok(m1) => connect_all(m1, left, right, c, pos, i + 1),
        }
    }
}

/// A failure of `register_from` is reported where one of the mentions stands.
pub proof fn lemma_register_failure_bound(m: FlowView, ns: Seq<Mention>, i: int, bound: int)
    requires
        forall|k: int| 0 <= k < ns.len() ==> #[trigger] ns[k].1 <= bound,
    ensures
        register_from(m, ns, i) is Err ==> register_from(m, ns, i)->Err_0.1 <= bound,
    decreases ns.len() - i,
{
    if 0 <= i < ns.len() {
        if let Ok(m1) = register(m, ns[i].0, ns[i].1) {
            lemma_register_failure_bound(m1, ns, i + 1, bound);
        }
    }
}

/// A failure of `connect_all` is reported where the connector stands.
pub proof fn lemma_connect_failure_pos(
    m: FlowView,
    left: Seq<Mention>,
    right: Seq<Mention>,
    c: Connector,
    pos: int,
    i: int,
)
    ensures
        connect_all(m, left, right, c, pos, i) is Err ==> connect_all(m, left, right, c, pos, i)->Err_0.1
            == pos,
    decreases left.len() - i,
{
    if 0 <= i < left.len() {
        lemma_connect_row_failure_pos(m, left[i].0.id, right, c, pos, 0);
        if let Ok(m1) = connect_row(m, left[i].0.id, right, c, pos, 0) {
            lemma_connect_failure_pos(m1, left, right, c, pos, i + 1);
        }
    }
}

proof fn lemma_connect_row_failure_pos(
    m: FlowView,
    a: Seq<char>,
    right: Seq<Mention>,
    c: Connector,
    pos: int,
    j: int,
)
    ensures
        connect_row(m, a, right, c, pos, j) is Err ==> connect_row(m, a, right, c, pos, j)->Err_0.1
            == pos,
    decreases right.len() - j,
{
    if 0 <= j < right.len() {
        if let Ok(m1) = connect(m, a, right[j].0.id, c, pos) {
            lemma_connect_row_failure_pos(m1, a, right, c, pos, j + 1);
        }
    }
}

/// The view of a list of node mentions.
pub open spec fn mentions_view(v: Seq<(Node, usize)>) -> Seq<Mention> {
    v.map_values(|x: (Node, usize)| (x.0@, x.1 as int))
}

impl Flowchart {
    pub(crate) fn new(direction: Direction) -> (f: Flowchart)
        ensures
            f@ == (FlowView {
                direction,
                nodes: Seq::empty(),
                edges: Map::empty(),
            }),
    {
        let f = Flowchart { direction, nodes: Vec::new(), graph: new_graph() };
        assert(f@.nodes =~= Seq::empty());
        f
    }

    /// The index of the node with identifier `id`, if there is one.
    pub fn find(&self, id: &str) -> (r: Option<usize>)
        ensures
            match r {
                Some(i) => i as int == index_of(self@.nodes, id@),
                None => index_of(self@.nodes, id@) < 0,
            },
            index_of(self@.nodes, id@) < self@.nodes.len(),
    {
        let key = id.to_owned();
        self.find_id(&key)
    }

    fn find_id(&self, id: &String) -> (r: Option<usize>)
        ensures
            match r {
                Some(i) => i as int == index_of(self@.nodes, id@),
                None => index_of(self@.nodes, id@) < 0,
            },
            index_of(self@.nodes, id@) < self@.nodes.len(),
    {
        let ghost nodes = self@.nodes;
        proof {
            lemma_index_from_range(nodes, id@, 0);
        }
        let mut i: usize = 0;
        while i < self.nodes.len()
            invariant
                i <= self.nodes@.len() == nodes.len(),
                nodes == self@.nodes,
                index_from(nodes, id@, i as int) == index_from(nodes, id@, 0),
            decreases self.nodes@.len() - i,
        {
            if self.nodes[i].id == *id {
                return Some(i);
            }
            i = i + 1;
        }
        None
    }

    /// Registers node `n`, mentioned at position `pos` (see `register`).
    pub(crate) fn add_node(&mut self, n: &Node, pos: usize) -> (r: Result<(), (ParseErrorKind, usize)>)
        ensures
            match register(old(self)@, n@, pos as int) {
                Ok(m) => r is Ok && final(self)@ == m,
                Err(f) => r is Err && r->Err_0.0 == f.0 && r->Err_0.1 == f.1,
            },
    {
        match self.find_id(&n.id) {
            Some(_) => {
                if n.is_id() {
                    Ok(())
                } else {
                    Err((ParseErrorKind::DuplicateNode, pos))
                }
            },
            None => {
                let ghost before = self@;
                self.nodes.push(n.clone_node());
                assert(self@.nodes =~= before.nodes.push(n@));
                Ok(())
            },
        }
    }

    /// Adds connector `c` from the node with identifier `a` to the one with identifier `b`
    /// (see `connect`).
    pub(crate) fn add_edge(&mut self, a: &String, b: &String, c: Connector, pos: usize) -> (r: Result<
        (),
        (ParseErrorKind, usize),
    >)
        ensures
            match connect(old(self)@, a@, b@, c, pos as int) {
                Ok(m) => r is Ok && final(self)@ == m,
                Err(f) => r is Err && r->Err_0.0 == f.0 && r->Err_0.1 == f.1,
            },
    {
        let ka = self.find_id(a);
        let kb = self.find_id(b);
        match (ka, kb) {
            (Some(ka), Some(kb)) => {
                match add_edge(&mut self.graph, ka, kb, c) {
                    Some(_) => Err((ParseErrorKind::DuplicateEdge, pos)),
                    None => Ok(()),
                }
            },
            _ => Ok(()),
        }
    }

    /// Registers each of `ns`, in order (see `register_from`).
    pub(crate) fn add_nodes(&mut self, ns: &Vec<(Node, usize)>) -> (r: Result<(), (ParseErrorKind, usize)>)
        ensures
            match register_from(old(self)@, mentions_view(ns@), 0) {
                Ok(m) => r is Ok && final(self)@ == m,
                Err(f) => r is Err && r->Err_0.0 == f.0 && r->Err_0.1 == f.1,
            },
    {
        let ghost mv = mentions_view(ns@);
        let ghost m0 = self@;
        let mut i: usize = 0;
        while i < ns.len()
            invariant
                i <= ns@.len(),
                mv == mentions_view(ns@),
                m0 == old(self)@,
                register_from(self@, mv, i as int) == register_from(m0, mv, 0),
            decreases ns@.len() - i,
        {
            assert(mv[i as int] == (ns@[i as int].0@, ns@[i as int].1 as int));
            assert(mv.len() == ns@.len());
            let ghost before = self@;
            match self.add_node(&ns[i].0, ns[i].1) {
                Err(f) => {
                    assert(register_from(before, mv, i as int) == register(
                        before,
                        mv[i as int].0,
                        mv[i as int].1,
                    ));
                    return Err(f);
                },
                Ok(()) => {},
            }
            i = i + 1;
        }
        Ok(())
    }

    /// Adds `c` from each of `left` to each of `right` (see `connect_all`).
    pub(crate) fn add_edges(
        &mut self,
        left: &Vec<(Node, usize)>,
        right: &Vec<(Node, usize)>,
        c: Connector,
        pos: usize,
    ) -> (r: Result<(), (ParseErrorKind, usize)>)
        ensures
            match connect_all(old(self)@, mentions_view(left@), mentions_view(right@), c, pos as int, 0) {
                Ok(m) => r is Ok && final(self)@ == m,
                Err(f) => r is Err && r->Err_0.0 == f.0 && r->Err_0.1 == f.1,
            },
    {
        let ghost lv = mentions_view(left@);
        let ghost rv = mentions_view(right@);
        let ghost m0 = self@;
        let mut i: usize = 0;
        while i < left.len()
            invariant
                i <= left@.len(),
                lv == mentions_view(left@),
                rv == mentions_view(right@),
                m0 == old(self)@,
                connect_all(self@, lv, rv, c, pos as int, i as int) == connect_all(m0, lv, rv, c, pos as int, 0),
            decreases left@.len() - i,
        {
            let ghost mi = self@;
            assert(rv.len() == right@.len() && lv.len() == left@.len());
            let ghost a = lv[i as int].0.id;
            assert(a == left@[i as int].0.id@);
            let mut j: usize = 0;
            while j < right.len()
                invariant
                    i < left@.len(),
                    j <= right@.len(),
                    lv == mentions_view(left@),
                    rv == mentions_view(right@),
                    a == left@[i as int].0.id@,
                    m0 == old(self)@,
                    connect_all(mi, lv, rv, c, pos as int, i as int) == connect_all(m0, lv, rv, c, pos as int, 0),
                    connect_row(self@, a, rv, c, pos as int, j as int) == connect_row(mi, a, rv, c, pos as int, 0),
                decreases right@.len() - j,
            {
                assert(rv[j as int].0.id == right@[j as int].0.id@);
                assert(rv.len() == right@.len() && lv.len() == left@.len());
                match self.add_edge(&left[i].0.id, &right[j].0.id, c, pos) {
                    Err(f) => return Err(f),
                    Ok(()) => {},
                }
                j = j + 1;
            }
            i = i + 1;
        }
        Ok(())
    }

    /// The connector from the node with identifier `from` to the one with identifier `to`, if
    /// there is one.
    pub fn edge(&self, from: &str, to: &str) -> (r: Option<Connector>)
        ensures
            r == (if index_of(self@.nodes, from@) >= 0 && index_of(self@.nodes, to@) >= 0
                && self@.edges.contains_key(
                (index_of(self@.nodes, from@) as usize, index_of(self@.nodes, to@) as usize),
            ) {
                Some(
                    self@.edges[(
                        index_of(self@.nodes, from@) as usize,
                        index_of(self@.nodes, to@) as usize,
                    )],
                )
            } else {
                None
            }),
    {
        match (self.find(from), self.find(to)) {
            (Some(a), Some(b)) => edge_weight(&self.graph, a, b),
            _ => None,
        }
    }

    /// The node with identifier `id`, if there is one.
    pub fn node(&self, id: &str) -> (r: Option<&Node>)
        ensures
            match r {
                Some(n) => index_of(self@.nodes, id@) >= 0 && *n == self.nodes@[index_of(
                    self@.nodes,
                    id@,
                )],
                None => index_of(self@.nodes, id@) < 0,
            },
    {
        match self.find(id) {
            Some(i) => {
                Some(&self.nodes[i])
            },
            None => None,
        }
    }

    /// Every connector, once, as `(from, to, connector)` with the indices in `nodes` of the
    /// nodes it joins, in no particular order.
    pub fn edges(&self) -> (v: Vec<(usize, usize, Connector)>)
        ensures
            forall|i: int|
                0 <= i < v@.len() ==> #[trigger] self@.edges.contains_key((v@[i].0, v@[i].1))
                    && self@.edges[(v@[i].0, v@[i].1)] == v@[i].2,
            forall|i: int, j: int|
                0 <= i < j < v@.len() ==> (#[trigger] v@[i].0, v@[i].1) != (#[trigger] v@[j].0,
                    v@[j].1),
            forall|k: (usize, usize)|
                #[trigger] self@.edges.contains_key(k) ==> exists|i: int|
                    0 <= i < v@.len() && v@[i].0 == k.0 && v@[i].1 == k.1,
    {
        let v = all_edges(&self.graph);
        proof {
            assert forall|i: int| 0 <= i < v@.len() implies #[trigger] self@.edges.contains_key(
                (v@[i].0, v@[i].1),
            ) && self@.edges[(v@[i].0, v@[i].1)] == v@[i].2 by {
                assert(edge_map(self.graph).contains_key((v@[i].0, v@[i].1)));
            }
            assert forall|k: (usize, usize)| #[trigger] self@.edges.contains_key(k) implies exists|
                i: int,
            | 0 <= i < v@.len() && v@[i].0 == k.0 && v@[i].1 == k.1 by {
                assert(edge_map(self.graph).contains_key(k));
            }
        }
        v
    }
}

impl Node {
    pub(crate) fn clone_node(&self) -> (r: Node)
        ensures
            r@ == self@,
    {
        Node { id: self.id.clone(), label: self.label.clone(), style: self.style }
    }
}

} // verus!
