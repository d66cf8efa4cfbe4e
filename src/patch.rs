use vstd::prelude::*;
use crate::node_table::{NodeTable, position_of, lemma_position_of};

verus! {

/// What the graph asks of a node to wire it: a snapshot of itself, and named
/// inputs that hold nodes of their own.
///
/// The spec functions describe a node as a value. Their defaults fit a node
/// without inputs, such as an oscillator: its snapshot equals it, and wiring
/// leaves it as it is. A node with inputs describes its own.
pub trait PatchNode: Sized {
    /// The copy of this node that wiring embeds.
    open spec fn snapshot(&self) -> Self {
        *self
    }

    /// This node with `node` attached under the input `name`.
    open spec fn wired(&self, name: Seq<char>, node: Self) -> Self {
        *self
    }

    /// This node with the input `name` detached.
    open spec fn unwired(&self, name: Seq<char>) -> Self {
        *self
    }

    fn duplicate(&self) -> (r: Self)
        ensures
            r == self.snapshot(),
    ;

    fn connect_input(&mut self, name: &str, node: Self)
        ensures
            *final(self) == old(self).wired(name@, node),
    ;

    fn clear_input(&mut self, name: &str)
        ensures
            *final(self) == old(self).unwired(name@),
    ;
}

/// Named nodes and the node whose samples the graph renders.
///
/// Wiring copies: `connect` embeds a snapshot of the source node in the
/// destination, and `set_output` renders a snapshot of the named node, so the
/// graph can never hold a cycle.
pub struct Patch<N> {
    nodes: NodeTable<N>,
    output: N,
}

impl<N: PatchNode> Patch<N> {
    pub closed spec fn table(&self) -> NodeTable<N> {
        self.nodes
    }

    pub closed spec fn output_node(&self) -> N {
        self.output
    }

    pub open spec fn wf(&self) -> bool {
        self.table().wf()
    }

    /// An empty graph rendering `output`.
    pub fn new(output: N) -> (r: Self)
        ensures
            r.wf(),
            r.output_node() == output,
            forall|name: Seq<char>| #[trigger] r.table().lookup(name) is None,
    {
        Patch { nodes: NodeTable::new(), output }
    }

    /// Puts `node` under `name`, replacing a node of that name.
    pub fn add_node(&mut self, name: &str, node: N)
        requires
            old(self).wf(),
        ensures
            final(self).wf(),
            final(self).output_node() == old(self).output_node(),
            final(self).table().lookup(name@) == Some(node),
            forall|other: Seq<char>|
                other != name@ ==> #[trigger] final(self).table().lookup(other) == old(
                    self,
                ).table().lookup(other),
    {
        self.nodes.insert(name, node);
    }

    /// Embeds a snapshot of the node `from` in the node `to`, under the input
    /// `input_name`. Where either node is missing nothing changes and the
    /// result is `false`.
    pub fn connect(&mut self, from: &str, to: &str, input_name: &str) -> (r: bool)
        requires
            old(self).wf(),
        ensures
            final(self).wf(),
            final(self).output_node() == old(self).output_node(),
            final(self).table().names() == old(self).table().names(),
            r == (old(self).table().lookup(from@) is Some && old(self).table().lookup(to@) is Some),
            !r ==> final(self).table() == old(self).table(),
            r ==> final(self).table().lookup(to@) == Some(
                old(self).table().lookup(to@).unwrap().wired(
                    input_name@,
                    old(self).table().lookup(from@).unwrap().snapshot(),
                ),
            ),
            forall|other: Seq<char>|
                other != to@ ==> #[trigger] final(self).table().lookup(other) == old(
                    self,
                ).table().lookup(other),
    {
        let source = match self.nodes.find(from) {
            Some(i) => i,
            None => {
                return false;
            },
        };
        let target = match self.nodes.find(to) {
            Some(j) => j,
            None => {
                return false;
            },
        };
        let snapshot = self.nodes.node(source).duplicate();
        self.rewire(target, to, input_name, Some(snapshot));
        true
    }

    /// Detaches the input `from` of the node `to`. Where `to` is missing
    /// nothing changes.
    pub fn disconnect(&mut self, from: &str, to: &str)
        requires
            old(self).wf(),
        ensures
            final(self).wf(),
            final(self).output_node() == old(self).output_node(),
            final(self).table().names() == old(self).table().names(),
            old(self).table().lookup(to@) is None ==> final(self).table() == old(self).table(),
            old(self).table().lookup(to@) is Some ==> final(self).table().lookup(to@) == Some(
                old(self).table().lookup(to@).unwrap().unwired(from@),
            ),
            forall|other: Seq<char>|
                other != to@ ==> #[trigger] final(self).table().lookup(other) == old(
                    self,
                ).table().lookup(other),
    {
        if let Some(j) = self.nodes.find(to) {
            self.rewire(j, to, from, None);
        }
    }

    /// Attaches `node` to, or with `None` detaches, the input `input_name` of
    /// the node at position `j`, which is named `to`.
    fn rewire(&mut self, j: usize, to: &str, input_name: &str, node: Option<N>)
        requires
            old(self).wf(),
            j == position_of(old(self).table().names(), to@),
            j < old(self).table().names().len(),
        ensures
            final(self).wf(),
            final(self).output_node() == old(self).output_node(),
            final(self).table().names() == old(self).table().names(),
            final(self).table().lookup(to@) == Some(
                match node {
                    Some(n) => old(self).table().nodes()[j as int].wired(input_name@, n),
                    None => old(self).table().nodes()[j as int].unwired(input_name@),
                },
            ),
            forall|other: Seq<char>|
                other != to@ ==> #[trigger] final(self).table().lookup(other) == old(
                    self,
                ).table().lookup(other),
    {
        let ghost names = self.nodes.names();
        let ghost nodes = self.nodes.nodes();
        proof {
            lemma_position_of(names, to@);
        }
        let target = self.nodes.node_mut(j);
        match node {
            Some(n) => target.connect_input(input_name, n),
            None => target.clear_input(input_name),
        }
        assert forall|other: Seq<char>| other != to@ implies #[trigger] self.nodes.lookup(other)
            == old(self).nodes.lookup(other) by {
            lemma_position_of(names, other);
        }
    }

    /// Renders a snapshot of the node `name` from now on. Where it is missing
    /// nothing changes and the result is `false`.
    pub fn set_output(&mut self, name: &str) -> (r: bool)
        requires
            old(self).wf(),
        ensures
            final(self).wf(),
            final(self).table() == old(self).table(),
            r == old(self).table().lookup(name@) is Some,
            !r ==> final(self).output_node() == old(self).output_node(),
            r ==> final(self).output_node() == old(self).table().lookup(name@).unwrap().snapshot(),
    {
        match self.nodes.find(name) {
            Some(i) => {
                self.output = self.nodes.node(i).duplicate();
                true
            },
            None => false,
        }
    }

    /// The node the graph renders.
    pub fn output(&self) -> (r: &N)
        ensures
            *r == self.output_node(),
    {
        &self.output
    }

    /// The node the graph renders, to run it.
    pub fn output_mut(&mut self) -> (r: &mut N)
        ensures
            *r == old(self).output_node(),
            final(self).table() == old(self).table(),
            final(self).output_node() == *final(r),
    {
        &mut self.output
    }

    /// Where the node `name` stands.
    pub fn find(&self, name: &str) -> (r: Option<usize>)
        requires
            self.wf(),
        ensures
            r is None <==> self.table().lookup(name@) is None,
            r matches Some(i) ==> i < self.table().nodes().len() && self.table().lookup(name@)
                == Some(self.table().nodes()[i as int]),
    {
        self.nodes.find(name)
    }

    /// The node at position `i`, to change in place.
    pub fn node_mut(&mut self, i: usize) -> (r: &mut N)
        requires
            i < old(self).table().nodes().len(),
        ensures
            *r == old(self).table().nodes()[i as int],
            final(self).table().names() == old(self).table().names(),
            final(self).table().nodes() == old(self).table().nodes().update(i as int, *final(r)),
            final(self).output_node() == old(self).output_node(),
    {
        self.nodes.node_mut(i)
    }
}

} // verus!
