use vstd::prelude::*;

verus! {

/// Nodes kept under distinct names, in the order their names were first
/// added.
#[derive(Clone)]
pub struct NodeTable<N> {
    entries: Vec<(String, N)>,
}

/// Position of `name` in `names`, or -1 when it is not there.
pub open spec fn position_of(names: Seq<Seq<char>>, name: Seq<char>) -> int
    decreases names.len(),
{
    if names.len() == 0 {
        -1
    } else if names.last() == name {
        names.len() - 1
    } else {
        position_of(names.drop_last(), name)
    }
}

pub open spec fn distinct(names: Seq<Seq<char>>) -> bool {
    forall|i: int, j: int| 0 <= i < j < names.len() ==> names[i] != names[j]
}

/// `position_of` finds the one place that holds `name`.
pub proof fn lemma_position_of(names: Seq<Seq<char>>, name: Seq<char>)
    ensures
        -1 <= position_of(names, name) < names.len(),
        position_of(names, name) >= 0 ==> names[position_of(names, name)] == name,
        position_of(names, name) < 0 ==> forall|i: int| 0 <= i < names.len() ==> names[i] != name,
        distinct(names) ==> forall|i: int|
            0 <= i < names.len() && names[i] == name ==> i == position_of(names, name),
    decreases names.len(),
{
    if names.len() > 0 {
        lemma_position_of(names.drop_last(), name);
        assert(forall|i: int| 0 <= i < names.len() - 1 ==> names.drop_last()[i] == names[i]);
        if distinct(names) {
            assert(distinct(names.drop_last()));
        }
    }
}

impl<N> NodeTable<N> {
    pub closed spec fn names(&self) -> Seq<Seq<char>> {
        self.entries@.map_values(|e: (String, N)| e.0@)
    }

    pub closed spec fn nodes(&self) -> Seq<N> {
        self.entries@.map_values(|e: (String, N)| e.1)
    }

    /// No two entries share a name, and every name has its node.
    pub open spec fn wf(&self) -> bool {
        &&& distinct(self.names())
        &&& self.names().len() == self.nodes().len()
    }

    /// The node under `name`, where there is one.
    pub open spec fn lookup(&self, name: Seq<char>) -> Option<N> {
        let i = position_of(self.names(), name);
        if i < 0 {
            None
        } else {
            Some(self.nodes()[i])
        }
    }

    pub fn new() -> (r: Self)
        ensures
            r.wf(),
            r.names().len() == 0,
            forall|name: Seq<char>| #[trigger] r.lookup(name) is None,
    {
        let r = NodeTable { entries: Vec::new() };
        assert(r.names() =~= Seq::<Seq<char>>::empty());
        r
    }

    pub fn len(&self) -> (r: usize)
        ensures
            r == self.names().len(),
    {
        self.entries.len()
    }

    /// Where `name` stands in the table.
    pub fn find(&self, name: &str) -> (r: Option<usize>)
        requires
            self.wf(),
        ensures
            r is None <==> position_of(self.names(), name@) < 0,
            r matches Some(i) ==> i == position_of(self.names(), name@) && i < self.names().len(),
    {
        let key = name.to_owned();
        let mut i: usize = self.entries.len();
        proof {
            lemma_position_of(self.names(), name@);
        }
        while i > 0
            invariant
                i <= self.entries@.len(),
                key@ == name@,
                self.wf(),
                forall|j: int| i <= j < self.entries@.len() ==> #[trigger] self.names()[j] != name@,
                -1 <= position_of(self.names(), name@) < self.names().len(),
                position_of(self.names(), name@) >= 0 ==> self.names()[position_of(self.names(), name@)] == name@,
                position_of(self.names(), name@) < 0 ==> forall|j: int| 0 <= j < self.names().len() ==> self.names()[j] != name@,
                forall|j: int| 0 <= j < self.names().len() && self.names()[j] == name@ ==> j == position_of(self.names(), name@),
            decreases i,
        {
            i -= 1;
            assert(self.names()[i as int] == self.entries@[i as int].0@);
            if self.entries[i].0 == key {
                return Some(i);
            }
        }
        None
    }

    /// The node at position `i`.
    pub fn node(&self, i: usize) -> (r: &N)
        requires
            i < self.nodes().len(),
        ensures
            *r == self.nodes()[i as int],
    {
        &self.entries[i].1
    }

    /// The node at position `i`, to change in place.
    pub fn node_mut(&mut self, i: usize) -> (r: &mut N)
        requires
            i < old(self).nodes().len(),
        ensures
            *r == old(self).nodes()[i as int],
            final(self).names() == old(self).names(),
            final(self).nodes() == old(self).nodes().update(i as int, *final(r)),
    {
        &mut self.entries[i].1
    }

    /// Puts `node` under `name`: it replaces the node already there, or is
    /// added after the others.
    pub fn insert(&mut self, name: &str, node: N)
        requires
            old(self).wf(),
        ensures
            final(self).wf(),
            final(self).lookup(name@) == Some(node),
            forall|other: Seq<char>| other != name@ ==> #[trigger] final(self).lookup(other) == old(self).lookup(other),
    {
        let ghost old_names = self.names();
        let ghost old_nodes = self.nodes();
        proof {
            lemma_position_of(old_names, name@);
        }
        match self.find(name) {
            Some(i) => {
                self.entries[i].1 = node;
                assert(self.names() =~= old_names);
                assert(self.nodes() =~= old_nodes.update(i as int, node));
                assert forall|other: Seq<char>| other != name@ implies #[trigger] self.lookup(other) == old(self).lookup(other) by {
                    lemma_position_of(old_names, other);
                }
            },
            None => {
                self.entries.push((name.to_owned(), node));
                assert(self.names() =~= old_names.push(name@));
                assert(self.nodes() =~= old_nodes.push(node));
                assert(self.names().drop_last() =~= old_names);
                assert forall|other: Seq<char>| other != name@ implies #[trigger] self.lookup(other) == old(self).lookup(other) by {
                    lemma_position_of(old_names, other);
                }
            },
        }
    }

    /// Takes the node under `name` out of the table, where there is one.
    pub fn remove(&mut self, name: &str) -> (r: Option<N>)
        requires
            old(self).wf(),
        ensures
            final(self).wf(),
            r == old(self).lookup(name@),
            final(self).lookup(name@) is None,
            forall|other: Seq<char>| other != name@ ==> #[trigger] final(self).lookup(other) == old(self).lookup(other),
    {
        let ghost old_names = self.names();
        let ghost old_nodes = self.nodes();
        proof {
            lemma_position_of(old_names, name@);
        }
        match self.find(name) {
            None => None,
            Some(i) => {
                let entry = self.entries.remove(i);
                assert(self.names() =~= old_names.remove(i as int));
                assert(self.nodes() =~= old_nodes.remove(i as int));
                proof {
                    lemma_position_of(self.names(), name@);
                }
                assert forall|other: Seq<char>| other != name@ implies #[trigger] self.lookup(other) == old(self).lookup(other) by {
                    lemma_position_of(old_names, other);
                    lemma_position_of(self.names(), other);
                    let p = position_of(old_names, other);
                    if p >= 0 {
                        let q = if p < i { p } else { p - 1 };
                        assert(self.names()[q] == other);
                    }
                    let q = position_of(self.names(), other);
                    if q >= 0 {
                        let p = if q < i { q } else { q + 1 };
                        assert(old_names[p] == other);
                    }
                }
                Some(entry.1)
            },
        }
    }
}

} // verus!
