use vstd::prelude::*;

verus! {

/// A syntax tree node as plain values.
pub struct NodeView {
    pub label: Seq<char>,
    pub children: Seq<NodeView>,
    pub line: Option<usize>,
    pub column: Option<usize>,
}

/// A leaf with a label and no position.
pub open spec fn leaf(label: Seq<char>) -> NodeView {
    NodeView { label, children: Seq::empty(), line: None, column: None }
}

/// A leaf with a label and a position.
pub open spec fn leaf_at(label: Seq<char>, line: int, column: int) -> NodeView {
    NodeView {
        label,
        children: Seq::empty(),
        line: Some(line as usize),
        column: Some(column as usize),
    }
}

/// `node` with `child` appended to its children.
pub open spec fn with_child(node: NodeView, child: NodeView) -> NodeView {
    NodeView { children: node.children.push(child), ..node }
}

/// `node` placed at the given position.
pub open spec fn placed(node: NodeView, line: int, column: int) -> NodeView {
    NodeView { line: Some(line as usize), column: Some(column as usize), ..node }
}

/// `node` with the given optional position.
pub open spec fn placed_opt(node: NodeView, line: Option<usize>, column: Option<usize>) -> NodeView {
    NodeView { line, column, ..node }
}

pub struct AstNode {
    pub label: String,
    pub children: Vec<AstNode>,
    pub line: Option<usize>,
    pub column: Option<usize>,
}

/// The views of a sequence of nodes.
pub open spec fn nodes_view(s: Seq<AstNode>) -> Seq<NodeView>
    decreases s,
{
    if s.len() == 0 {
        Seq::empty()
    } else {
        nodes_view(s.drop_last()).push(s.last().node_view())
    }
}

impl AstNode {
    pub open spec fn node_view(&self) -> NodeView
        decreases self,
    {
        NodeView {
            label: self.label@,
            children: nodes_view(self.children@),
            line: self.line,
            column: self.column,
        }
    }

    /// A node with the given label, no children and no position.
    pub fn new(label: &str) -> (n: AstNode)
        ensures
            n.node_view() == leaf(label@),
    {
        let n = AstNode { label: label.to_owned(), children: Vec::new(), line: None, column: None };
        assert(n.node_view().children =~= Seq::<NodeView>::empty());
        n
    }

    pub fn with_pos(self, line: usize, column: usize) -> (n: AstNode)
        ensures
            n.node_view() == placed(self.node_view(), line as int, column as int),
    {
        let mut node = self;
        node.line = Some(line);
        node.column = Some(column);
        node
    }

    pub fn with_opt_pos(self, line: Option<usize>, column: Option<usize>) -> (n: AstNode)
        ensures
            n.node_view() == placed_opt(self.node_view(), line, column),
    {
        let mut node = self;
        node.line = line;
        node.column = column;
        node
    }

    pub fn add_child(&mut self, child: AstNode)
        ensures
            final(self).node_view() == with_child(old(self).node_view(), child.node_view()),
    {
        self.children.push(child);
        assert(self.children@.drop_last() =~= old(self).children@);
        assert(self.node_view().children =~= old(self).node_view().children.push(
            child.node_view(),
        ));
    }
}

impl Default for AstNode {
    fn default() -> (n: AstNode)
        ensures
            n.node_view() == leaf(Seq::empty()),
    {
        let n = AstNode::new("");
        proof {
            reveal_strlit("");
            assert(""@ =~= Seq::<char>::empty());
        }
        n
    }
}

} // verus!
