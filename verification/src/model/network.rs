//! The directed connectivity graph: an append-only list of edges, and, per
//! cell, the ordered list of its outgoing and incoming edges.

use vstd::prelude::*;

verus! {

/// One directed edge of the graph; it carries the index of the synapse that
/// sits on the connection.
#[derive(Copy, Clone, PartialEq, Eq, Structural, Debug)]
pub struct Connection {
    pub pre_cell_index: usize,
    pub post_cell_index: usize,
    pub synapse_index: usize,
}

/// The connections of `conns` whose pre-synaptic cell is `i`, in insertion
/// order.
pub open spec fn with_pre(conns: Seq<Connection>, i: int) -> Seq<Connection>
    decreases conns.len(),
{
    if conns.len() == 0 {
        Seq::empty()
    } else {
        let rest = with_pre(conns.drop_last(), i);
        if conns.last().pre_cell_index == i {
            rest.push(conns.last())
        } else {
            rest
        }
    }
}

/// The connections of `conns` whose post-synaptic cell is `i`, in insertion
/// order.
pub open spec fn with_post(conns: Seq<Connection>, i: int) -> Seq<Connection>
    decreases conns.len(),
{
    if conns.len() == 0 {
        Seq::empty()
    } else {
        let rest = with_post(conns.drop_last(), i);
        if conns.last().post_cell_index == i {
            rest.push(conns.last())
        } else {
            rest
        }
    }
}

/// How often synapse index `k` occurs among `conns`.
pub open spec fn count_synapse(conns: Seq<Connection>, k: int) -> int
    decreases conns.len(),
{
    if conns.len() == 0 {
        0
    } else {
        count_synapse(conns.drop_last(), k) + if conns.last().synapse_index == k {
            1int
        } else {
            0int
        }
    }
}

/// Appending an edge extends exactly the per-cell list of its pre cell.
pub proof fn lemma_with_pre_push(conns: Seq<Connection>, c: Connection, i: int)
    ensures
        with_pre(conns.push(c), i) == if c.pre_cell_index == i {
            with_pre(conns, i).push(c)
        } else {
            with_pre(conns, i)
        },
{
    assert(conns.push(c).drop_last() =~= conns);
}

/// Appending an edge extends exactly the per-cell list of its post cell.
pub proof fn lemma_with_post_push(conns: Seq<Connection>, c: Connection, i: int)
    ensures
        with_post(conns.push(c), i) == if c.post_cell_index == i {
            with_post(conns, i).push(c)
        } else {
            with_post(conns, i)
        },
{
    assert(conns.push(c).drop_last() =~= conns);
}

/// Counting commutes with appending one edge.
pub proof fn lemma_count_push(conns: Seq<Connection>, c: Connection, k: int)
    ensures
        count_synapse(conns.push(c), k) == count_synapse(conns, k) + if c.synapse_index == k {
            1int
        } else {
            0int
        },
{
    assert(conns.push(c).drop_last() =~= conns);
}

/// A property of every edge carries over to every edge of a per-cell list.
pub proof fn lemma_with_pre_sub(conns: Seq<Connection>, i: int, p: spec_fn(Connection) -> bool)
    requires
        forall|j: int| 0 <= j < conns.len() ==> p(#[trigger] conns[j]),
    ensures
        forall|k: int| 0 <= k < with_pre(conns, i).len() ==> p(#[trigger] with_pre(conns, i)[k]),
    decreases conns.len(),
{
    if conns.len() > 0 {
        let prefix = conns.drop_last();
        assert(forall|j: int| 0 <= j < prefix.len() ==> #[trigger] prefix[j] == conns[j]);
        lemma_with_pre_sub(prefix, i, p);
        let whole = with_pre(conns, i);
        let rest = with_pre(prefix, i);
        assert forall|k: int| 0 <= k < whole.len() implies p(whole[k]) by {
            if k < rest.len() {
                assert(whole[k] == rest[k]);
            } else {
                assert(whole[k] == conns[conns.len() - 1]);
            }
        }
    }
}

/// A property of every edge carries over to every edge of a per-cell list.
pub proof fn lemma_with_post_sub(conns: Seq<Connection>, i: int, p: spec_fn(Connection) -> bool)
    requires
        forall|j: int| 0 <= j < conns.len() ==> p(#[trigger] conns[j]),
    ensures
        forall|k: int| 0 <= k < with_post(conns, i).len() ==> p(
            #[trigger] with_post(conns, i)[k],
        ),
    decreases conns.len(),
{
    if conns.len() > 0 {
        let prefix = conns.drop_last();
        assert(forall|j: int| 0 <= j < prefix.len() ==> #[trigger] prefix[j] == conns[j]);
        lemma_with_post_sub(prefix, i, p);
        let whole = with_post(conns, i);
        let rest = with_post(prefix, i);
        assert forall|k: int| 0 <= k < whole.len() implies p(whole[k]) by {
            if k < rest.len() {
                assert(whole[k] == rest[k]);
            } else {
                assert(whole[k] == conns[conns.len() - 1]);
            }
        }
    }
}

/// A synapse index that occurs on no edge occurs in no per-cell list.
pub proof fn lemma_count_absent(conns: Seq<Connection>, i: int, k: int)
    requires
        forall|j: int| 0 <= j < conns.len() ==> (#[trigger] conns[j]).synapse_index != k,
    ensures
        count_synapse(with_pre(conns, i), k) == 0,
        count_synapse(with_post(conns, i), k) == 0,
    decreases conns.len(),
{
    if conns.len() > 0 {
        let prefix = conns.drop_last();
        let c = conns.last();
        assert(forall|j: int| 0 <= j < prefix.len() ==> #[trigger] prefix[j] == conns[j]);
        assert(c == conns[conns.len() - 1]);
        lemma_count_absent(prefix, i, k);
        lemma_count_push(with_pre(prefix, i), c, k);
        lemma_count_push(with_post(prefix, i), c, k);
    }
}

/// An edge's synapse index is counted at least once.
pub proof fn lemma_count_at_least_one(conns: Seq<Connection>, k: int)
    requires
        0 <= k < conns.len(),
    ensures
        count_synapse(conns, conns[k].synapse_index as int) >= 1,
    decreases conns.len(),
{
    let prefix = conns.drop_last();
    assert(conns.last() == conns[conns.len() - 1]);
    if k < conns.len() - 1 {
        assert(prefix[k] == conns[k]);
        lemma_count_at_least_one(prefix, k);
    }
    lemma_count_nonnegative(prefix, conns[k].synapse_index as int);
}

/// A count of occurrences is never negative.
pub proof fn lemma_count_nonnegative(conns: Seq<Connection>, m: int)
    ensures
        count_synapse(conns, m) >= 0,
    decreases conns.len(),
{
    if conns.len() > 0 {
        lemma_count_nonnegative(conns.drop_last(), m);
    }
}

/// Two distinct edges with the same synapse index are counted at least
/// twice.
pub proof fn lemma_count_two(conns: Seq<Connection>, k1: int, k2: int)
    requires
        0 <= k1 < k2 < conns.len(),
        conns[k1].synapse_index == conns[k2].synapse_index,
    ensures
        count_synapse(conns, conns[k1].synapse_index as int) >= 2,
    decreases conns.len(),
{
    let prefix = conns.drop_last();
    assert(conns.last() == conns[conns.len() - 1]);
    assert(forall|j: int| 0 <= j < prefix.len() ==> #[trigger] prefix[j] == conns[j]);
    if k2 == conns.len() - 1 {
        lemma_count_at_least_one(prefix, k1);
    } else {
        lemma_count_two(prefix, k1, k2);
    }
}

/// Every edge of an incoming per-cell list points at that cell.
pub proof fn lemma_with_post_members(conns: Seq<Connection>, i: int)
    ensures
        forall|k: int|
            0 <= k < with_post(conns, i).len() ==> (#[trigger] with_post(
                conns,
                i,
            )[k]).post_cell_index == i,
    decreases conns.len(),
{
    if conns.len() > 0 {
        lemma_with_post_members(conns.drop_last(), i);
        let whole = with_post(conns, i);
        let rest = with_post(conns.drop_last(), i);
        assert forall|k: int| 0 <= k < whole.len() implies whole[k].post_cell_index == i by {
            if k < rest.len() {
                assert(whole[k] == rest[k]);
            }
        }
    }
}

/// Where every edge carries its own position as synapse index, the edges of
/// an incoming per-cell list carry pairwise distinct synapse indexes.
pub proof fn lemma_with_post_distinct(conns: Seq<Connection>, i: int)
    requires
        forall|j: int| 0 <= j < conns.len() ==> (#[trigger] conns[j]).synapse_index == j,
    ensures
        forall|k1: int, k2: int|
            0 <= k1 < k2 < with_post(conns, i).len() ==> (#[trigger] with_post(
                conns,
                i,
            )[k1]).synapse_index != (#[trigger] with_post(conns, i)[k2]).synapse_index,
{
    let w = with_post(conns, i);
    lemma_with_post_sub(
        conns,
        i,
        |c: Connection| c.synapse_index < conns.len() && conns[c.synapse_index as int] == c,
    );
    lemma_with_post_members(conns, i);
    assert forall|k1: int, k2: int|
        0 <= k1 < k2 < w.len() implies (#[trigger] w[k1]).synapse_index
        != (#[trigger] w[k2]).synapse_index by {
        if w[k1].synapse_index == w[k2].synapse_index {
            let m = w[k1].synapse_index as int;
            lemma_count_two(w, k1, k2);
            lemma_count_unique(conns, m);
            assert(conns[m].post_cell_index == i);
            assert(count_synapse(with_post(conns, i), m) == 1);
        }
    }
}

/// Where every edge carries its own position as synapse index, the edge at
/// position `j` occurs exactly once in the per-cell list of its pre cell and
/// exactly once in the per-cell list of its post cell.
pub proof fn lemma_count_unique(conns: Seq<Connection>, j: int)
    requires
        forall|j2: int| 0 <= j2 < conns.len() ==> (#[trigger] conns[j2]).synapse_index == j2,
        0 <= j < conns.len(),
    ensures
        count_synapse(with_pre(conns, conns[j].pre_cell_index as int), j) == 1,
        count_synapse(with_post(conns, conns[j].post_cell_index as int), j) == 1,
    decreases conns.len(),
{
    let prefix = conns.drop_last();
    let c = conns.last();
    let pre = conns[j].pre_cell_index as int;
    let post = conns[j].post_cell_index as int;
    assert(forall|j2: int| 0 <= j2 < prefix.len() ==> #[trigger] prefix[j2] == conns[j2]);
    assert(c == conns[conns.len() - 1]);
    lemma_count_push(with_pre(prefix, pre), c, j);
    lemma_count_push(with_post(prefix, post), c, j);
    if j == conns.len() - 1 {
        lemma_count_absent(prefix, pre, j);
        lemma_count_absent(prefix, post, j);
    } else {
        lemma_count_unique(prefix, j);
    }
}

/// The connectivity graph. Its three lists grow in lockstep: every edge in
/// `connections` is recorded once in the outgoing list of its pre cell and
/// once in the incoming list of its post cell, and nowhere else.
pub struct Network {
    pub connections: Vec<Connection>,
    pub outgoing_connections_by_index: Vec<Vec<Connection>>,
    pub incoming_connections_by_index: Vec<Vec<Connection>>,
}

impl Network {
    /// Number of cells the graph was sized for.
    pub open spec fn size(self) -> int {
        self.outgoing_connections_by_index@.len() as int
    }

    /// The graph's structural invariant: per-cell lists are exactly the
    /// matching slices of the edge list, and every recorded edge is in
    /// bounds.
    pub open spec fn wf(self) -> bool {
        &&& self.incoming_connections_by_index@.len() == self.size()
        &&& forall|i: int|
            0 <= i < self.size() ==> (#[trigger] self.outgoing_connections_by_index@[i])@
                == with_pre(self.connections@, i)
        &&& forall|i: int|
            0 <= i < self.size() ==> (#[trigger] self.incoming_connections_by_index@[i])@
                == with_post(self.connections@, i)
        &&& forall|j: int|
            0 <= j < self.connections@.len() ==> (#[trigger] self.connections@[j]).pre_cell_index
                < self.size() && self.connections@[j].post_cell_index < self.size()
    }

    /// A graph for `size` cells with no edges.
    pub fn new(size: usize) -> (network: Self)
        ensures
            network.wf(),
            network.size() == size,
            network.connections@.len() == 0,
    {
        let mut network = Self {
            connections: Vec::new(),
            outgoing_connections_by_index: Vec::with_capacity(size),
            incoming_connections_by_index: Vec::with_capacity(size),
        };
        for _i in 0..size
            invariant
                network.connections@.len() == 0,
                network.outgoing_connections_by_index@.len() == _i,
                network.incoming_connections_by_index@.len() == _i,
                forall|i2: int|
                    0 <= i2 < _i ==> (#[trigger] network.outgoing_connections_by_index@[i2])@
                        =~= Seq::<Connection>::empty(),
                forall|i2: int|
                    0 <= i2 < _i ==> (#[trigger] network.incoming_connections_by_index@[i2])@
                        =~= Seq::<Connection>::empty(),
        {
            network.outgoing_connections_by_index.push(Vec::new());
            network.incoming_connections_by_index.push(Vec::new());
        }
        network
    }

    /// Appends one directed edge: it is recorded in the edge list, in the
    /// outgoing list of `pre_cell_index` and in the incoming list of
    /// `post_cell_index`.
    pub fn connect(&mut self, pre_cell_index: usize, post_cell_index: usize, synapse_index: usize)
        requires
            old(self).wf(),
            pre_cell_index < old(self).size(),
            post_cell_index < old(self).size(),
        ensures
            final(self).wf(),
            final(self).size() == old(self).size(),
            final(self).connections@ == old(self).connections@.push(
                (Connection { pre_cell_index, post_cell_index, synapse_index }),
            ),
    {
        let connection = Connection { pre_cell_index, post_cell_index, synapse_index };
        self.connections.push(connection);
        self.outgoing_connections_by_index[pre_cell_index].push(connection);
        self.incoming_connections_by_index[post_cell_index].push(connection);
        proof {
            let conns0 = old(self).connections@;
            assert forall|i: int| 0 <= i < self.size() implies (
            #[trigger] self.outgoing_connections_by_index@[i])@ == with_pre(
                self.connections@,
                i,
            ) by {
                lemma_with_pre_push(conns0, connection, i);
            }
            assert forall|i: int| 0 <= i < self.size() implies (
            #[trigger] self.incoming_connections_by_index@[i])@ == with_post(
                self.connections@,
                i,
            ) by {
                lemma_with_post_push(conns0, connection, i);
            }
        }
    }

    /// The ordered list of edges leaving `cell_index`.
    pub fn outgoing_connections(&self, cell_index: usize) -> (connections: &Vec<Connection>)
        requires
            self.wf(),
            cell_index < self.size(),
        ensures
            connections@ == with_pre(self.connections@, cell_index as int),
    {
        &self.outgoing_connections_by_index[cell_index]
    }

    /// The ordered list of edges entering `cell_index`.
    pub fn incoming_connections(&self, cell_index: usize) -> (connections: &Vec<Connection>)
        requires
            self.wf(),
            cell_index < self.size(),
        ensures
            connections@ == with_post(self.connections@, cell_index as int),
    {
        &self.incoming_connections_by_index[cell_index]
    }
}

} // verus!
