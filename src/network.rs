use vstd::prelude::*;

use crate::factory::{
    oriented_pair, pipe_live, port_live, refers, Factory, FlowDirection, Link, Pipe, PipeNetwork,
};
use crate::resources::ResourceType;

verus! {

/// Where the `to` chain leads from `l` after `n` steps, each step taken from a live pipe.
pub open spec fn follow(pipes: Seq<Option<Pipe>>, l: Link, n: nat) -> Option<Link>
    decreases n,
{
    if n == 0 {
        Some(l)
    } else {
        match follow(pipes, l, (n - 1) as nat) {
            Some(Link::Pipe(j)) => if pipe_live(pipes, j as int) {
                pipes[j as int]->0.to
            } else {
                None
            },
            _ => None,
        }
    }
}

/// Number of unvisited entries.
pub open spec fn count_unvisited(s: Seq<bool>) -> nat
    decreases s.len(),
{
    if s.len() == 0 {
        0
    } else {
        count_unvisited(s.drop_last()) + if s.last() {
            0nat
        } else {
            1nat
        }
    }
}

proof fn lemma_visit(s: Seq<bool>, j: int)
    requires
        0 <= j < s.len(),
        !s[j],
    ensures
        count_unvisited(s.update(j, true)) + 1 == count_unvisited(s),
    decreases s.len(),
{
    if j == s.len() - 1 {
        assert(s.update(j, true).drop_last() =~= s.drop_last());
    } else {
        assert(s.update(j, true).drop_last() =~= s.drop_last().update(j, true));
        lemma_visit(s.drop_last(), j);
    }
}

/// With nothing visited, every entry counts.
proof fn lemma_all_unvisited(s: Seq<bool>)
    requires
        forall|i: int| 0 <= i < s.len() ==> !s[i],
    ensures
        count_unvisited(s) == s.len(),
    decreases s.len(),
{
    if s.len() > 0 {
        lemma_all_unvisited(s.drop_last());
    }
}

/// Clears the marks that a walk left on the pipes of `chain`, which are exactly the
/// marked entries; the work is one step per link of the chain.
fn clear_marks(visited: &mut Vec<bool>, chain: &Vec<Link>)
    requires
        forall|x: int|
            0 <= x < old(visited)@.len() ==> (#[trigger] old(visited)@[x] ==> chain@.contains(
                Link::Pipe(x as usize),
            )),
    ensures
        final(visited)@.len() == old(visited)@.len(),
        forall|x: int| 0 <= x < final(visited)@.len() ==> !#[trigger] final(visited)@[x],
{
    let n = visited.len();
    let mut i: usize = 0;
    while i < chain.len()
        invariant
            i <= chain@.len(),
            visited@.len() == old(visited)@.len(),
            n == visited@.len(),
            forall|x: int|
                0 <= x < visited@.len() ==> (#[trigger] visited@[x] ==> exists|w: int|
                    i <= w < chain@.len() && chain@[w] == Link::Pipe(x as usize)),
        decreases chain@.len() - i,
    {
        let ghost before = visited@;
        if let Link::Pipe(j) = chain[i] {
            if j < visited.len() {
                visited.set(j, false);
            }
        }
        proof {
            assert forall|x: int|
                0 <= x < visited@.len() implies (#[trigger] visited@[x] ==> exists|w: int|
                    i + 1 <= w < chain@.len() && chain@[w] == Link::Pipe(x as usize)) by {
                if visited@[x] {
                    assert(before[x]);
                    let w = choose|w: int| i <= w < chain@.len() && chain@[w] == Link::Pipe(x as usize);
                    if w == i {
                        assert(chain@[i as int] == Link::Pipe(x as usize));
                        assert(false);
                    }
                }
            }
        }
        i = i + 1;
    }
}

/// `members` and `sink` are the trace of the chain that starts at `first`: the pipes
/// met along `to` from `first`, each once, up to the first step that leaves the live
/// pipes (a live port there is the sink) or comes back to a pipe already met (no sink).
pub open spec fn chain_traced(
    pipes: Seq<Option<Pipe>>,
    ports_live: spec_fn(usize) -> bool,
    first: Link,
    chain: Seq<Link>,
    sink: Option<usize>,
) -> bool {
    let n = chain.len();
    &&& forall|i: int|
        0 <= i < n ==> (#[trigger] chain[i] matches Link::Pipe(j) && pipe_live(pipes, j as int))
            && Some(chain[i]) == follow(pipes, first, i as nat)
    &&& forall|i: int, j: int| 0 <= i < j < n ==> chain[i] != chain[j]
    &&& match follow(pipes, first, n) {
        Some(Link::Pipe(j)) => if pipe_live(pipes, j as int) {
            chain.contains(Link::Pipe(j)) && sink is None
        } else {
            sink is None
        },
        Some(Link::Port(q)) => sink == if ports_live(q) {
            Some(q)
        } else {
            None
        },
        None => sink is None,
    }
}

/// Going back along `from`: two outlet ports whose pipe chains reach the same live pipe
/// are the same port, since every pipe has one `from` slot.
proof fn lemma_same_origin(f: &Factory, p1: usize, k1: usize, i1: nat, p2: usize, k2: usize, i2: nat)
    requires
        f.wf(),
        port_live(f.ports@, p1 as int),
        f.ports@[p1 as int]->0.flow == FlowDirection::Outlet,
        f.ports@[p1 as int]->0.connected == Some(Link::Pipe(k1)),
        port_live(f.ports@, p2 as int),
        f.ports@[p2 as int]->0.flow == FlowDirection::Outlet,
        f.ports@[p2 as int]->0.connected == Some(Link::Pipe(k2)),
        follow(f.pipes@, Link::Pipe(k1), i1) == follow(f.pipes@, Link::Pipe(k2), i2),
        follow(f.pipes@, Link::Pipe(k1), i1) matches Some(Link::Pipe(j)) && pipe_live(f.pipes@, j as int),
    ensures
        p1 == p2,
    decreases i1 + i2,
{
    let j = follow(f.pipes@, Link::Pipe(k1), i1)->0->Pipe_0;
    assert(refers(f.pipes@, f.ports@, Link::Port(p1), Link::Pipe(k1)));
    assert(oriented_pair(f.pipes@, f.ports@, Link::Port(p1), Link::Pipe(k1)));
    assert(refers(f.pipes@, f.ports@, Link::Port(p2), Link::Pipe(k2)));
    assert(oriented_pair(f.pipes@, f.ports@, Link::Port(p2), Link::Pipe(k2)));
    if i1 > 0 {
        let a = follow(f.pipes@, Link::Pipe(k1), (i1 - 1) as nat)->0->Pipe_0;
        assert(f.pipes@[a as int]->0.to == Some(Link::Pipe(j)));
        assert(refers(f.pipes@, f.ports@, Link::Pipe(a), Link::Pipe(j)));
        assert(oriented_pair(f.pipes@, f.ports@, Link::Pipe(a), Link::Pipe(j)));
    }
    if i2 > 0 {
        let b = follow(f.pipes@, Link::Pipe(k2), (i2 - 1) as nat)->0->Pipe_0;
        assert(f.pipes@[b as int]->0.to == Some(Link::Pipe(j)));
        assert(refers(f.pipes@, f.ports@, Link::Pipe(b), Link::Pipe(j)));
        assert(oriented_pair(f.pipes@, f.ports@, Link::Pipe(b), Link::Pipe(j)));
    }
    if i1 > 0 && i2 > 0 {
        lemma_same_origin(f, p1, k1, (i1 - 1) as nat, p2, k2, (i2 - 1) as nat);
    }
}

/// Where a traced sink `q` was reached through a chain of pipes: the last pipe of the
/// chain is the one `q` is connected to.
proof fn lemma_sink_link(f: &Factory, p: usize, members: Seq<Link>, q: usize)
    requires
        f.wf(),
        f.port_traced(p, members, Some(q)),
        port_live(f.ports@, p as int),
    ensures
        port_live(f.ports@, q as int),
        f.ports@[p as int]->0.connected matches Some(Link::Pipe(k)) ==> {
            let n = members.len() - 2;
            &&& n >= 1
            &&& members[n] == Link::Pipe(f.ports@[q as int]->0.connected->0->Pipe_0)
            &&& f.ports@[q as int]->0.connected matches Some(Link::Pipe(_))
            &&& follow(f.pipes@, Link::Pipe(k), (n - 1) as nat) == Some(members[n])
        },
        f.ports@[p as int]->0.connected matches Some(Link::Port(_)) ==> f.ports@[q as int]->0.connected
            == Some(Link::Port(p)),
{
    match f.ports@[p as int]->0.connected {
        Some(Link::Pipe(k)) => {
            let chain = members.subrange(1, members.len() - 1);
            let n = chain.len();
            assert(f.port_is_live()(q) == port_live(f.ports@, q as int));
            assert(follow(f.pipes@, Link::Pipe(k), n as nat) == Some(Link::Port(q)));
            assert(n >= 1);
            let j = follow(f.pipes@, Link::Pipe(k), (n - 1) as nat)->0->Pipe_0;
            assert(chain[n - 1] == Link::Pipe(j));
            assert(members[n as int] == chain[n - 1]);
            assert(f.pipes@[j as int]->0.to == Some(Link::Port(q)));
            assert(refers(f.pipes@, f.ports@, Link::Pipe(j), Link::Port(q)));
            assert(refers(f.pipes@, f.ports@, Link::Port(q), Link::Pipe(j)));
        },
        Some(Link::Port(r)) => {
            assert(refers(f.pipes@, f.ports@, Link::Port(p), Link::Port(r)));
            assert(refers(f.pipes@, f.ports@, Link::Port(r), Link::Port(p)));
        },
        None => {},
    }
}

/// Traces from two different sources share no member.
proof fn lemma_traces_disjoint(
    f: &Factory,
    s1: usize,
    m1: Seq<Link>,
    t1: Option<usize>,
    s2: usize,
    m2: Seq<Link>,
    t2: Option<usize>,
    w1: int,
    w2: int,
)
    requires
        f.wf(),
        s1 != s2,
        f.is_source(s1),
        f.is_source(s2),
        f.port_traced(s1, m1, t1),
        f.port_traced(s2, m2, t2),
        t1 matches Some(q) ==> f.ports@[q as int]->0.flow == FlowDirection::Inlet,
        t2 matches Some(q) ==> f.ports@[q as int]->0.flow == FlowDirection::Inlet,
        0 <= w1 < m1.len(),
        0 <= w2 < m2.len(),
    ensures
        m1[w1] != m2[w2],
{
    if m1[w1] == m2[w2] {
        let e1: int = if t1 is Some { 1 } else { 0 };
        let e2: int = if t2 is Some { 1 } else { 0 };
        let mid1 = 1 <= w1 < m1.len() - e1;
        let mid2 = 1 <= w2 < m2.len() - e2;
        if mid1 {
            let k1 = f.ports@[s1 as int]->0.connected->0->Pipe_0;
            assert(f.ports@[s1 as int]->0.connected == Some(Link::Pipe(k1)));
            let c1 = m1.subrange(1, m1.len() - e1);
            assert(m1[w1] == c1[w1 - 1]);
            assert(c1[w1 - 1] matches Link::Pipe(j) && pipe_live(f.pipes@, j as int));
            if mid2 {
                let k2 = f.ports@[s2 as int]->0.connected->0->Pipe_0;
                assert(f.ports@[s2 as int]->0.connected == Some(Link::Pipe(k2)));
                let c2 = m2.subrange(1, m2.len() - e2);
                assert(m2[w2] == c2[w2 - 1]);
                lemma_same_origin(f, s1, k1, (w1 - 1) as nat, s2, k2, (w2 - 1) as nat);
            } else {
                if w2 == 0 {
                    assert(m2[w2] == Link::Port(s2));
                } else {
                    assert(m2[w2] == Link::Port(t2->0));
                }
            }
        } else if mid2 {
            let k2 = f.ports@[s2 as int]->0.connected->0->Pipe_0;
            let c2 = m2.subrange(1, m2.len() - e2);
            assert(m2[w2] == c2[w2 - 1]);
            assert(c2[w2 - 1] matches Link::Pipe(j) && pipe_live(f.pipes@, j as int));
            if w1 == 0 {
                assert(m1[w1] == Link::Port(s1));
            } else {
                assert(m1[w1] == Link::Port(t1->0));
            }
        } else {
            // both are end ports: a source or a sink
            if w1 == 0 && w2 == 0 {
            } else if w1 == 0 {
                assert(m2[w2] == Link::Port(t2->0));
            } else if w2 == 0 {
                assert(m1[w1] == Link::Port(t1->0));
            } else {
                let q = t1->0;
                assert(m1[w1] == Link::Port(q));
                assert(m2[w2] == Link::Port(t2->0));
                assert(t2 == Some(q));
                lemma_sink_link(f, s1, m1, q);
                lemma_sink_link(f, s2, m2, q);
                match (f.ports@[s1 as int]->0.connected, f.ports@[s2 as int]->0.connected) {
                    (Some(Link::Pipe(k1)), Some(Link::Pipe(k2))) => {
                        let n1 = m1.len() - 2;
                        let n2 = m2.len() - 2;
                        lemma_same_origin(f, s1, k1, (n1 - 1) as nat, s2, k2, (n2 - 1) as nat);
                    },
                    _ => {},
                }
            }
        }
    }
}

impl Factory {
    /// Liveness of ports, as a function.
    pub open spec fn port_is_live(&self) -> spec_fn(usize) -> bool {
        |q: usize| port_live(self.ports@, q as int)
    }

    /// Walks the `to` chain from pipe `k`; see `chain_traced`. Ends after at most one
    /// step per pipe of the arena.
    pub fn walk_chain(&self, k: usize, visited: &mut Vec<bool>) -> (r: (Vec<Link>, Option<usize>))
        requires
            self.wf(),
            old(visited)@.len() == self.pipes@.len(),
            forall|j: int| 0 <= j < old(visited)@.len() ==> !#[trigger] old(visited)@[j],
        ensures
            final(visited)@ == old(visited)@,
            r.1 matches Some(q) ==> self.ports@[q as int]->0.flow == FlowDirection::Inlet,
            chain_traced(self.pipes@, self.port_is_live(), Link::Pipe(k), r.0@, r.1),
            r.0@.len() <= self.pipes@.len(),
    {
        proof {
            lemma_all_unvisited(visited@);
        }
        let ghost start = visited@;
        let mut chain: Vec<Link> = Vec::new();
        let mut current: Option<Link> = Some(Link::Pipe(k));
        assert forall|j: int| 0 <= j < visited@.len() implies (#[trigger] visited@[j] <==> chain@.contains(
            Link::Pipe(j as usize),
        )) by {
            assert(!visited@[j]);
            assert(!chain@.contains(Link::Pipe(j as usize)));
        }
        loop
            invariant
                visited@.len() == self.pipes@.len(),
                start == old(visited)@,
                start.len() == self.pipes@.len(),
                forall|j: int| 0 <= j < start.len() ==> !#[trigger] start[j],
                self.wf(),
                chain@.len() + count_unvisited(visited@) == self.pipes@.len(),
                current == follow(self.pipes@, Link::Pipe(k), chain@.len() as nat),
                forall|i: int|
                    0 <= i < chain@.len() ==> (#[trigger] chain@[i] matches Link::Pipe(j)
                        && pipe_live(self.pipes@, j as int)) && Some(chain@[i]) == follow(
                        self.pipes@,
                        Link::Pipe(k),
                        i as nat,
                    ),
                forall|i: int, j: int| 0 <= i < j < chain@.len() ==> chain@[i] != chain@[j],
                forall|j: int|
                    0 <= j < visited@.len() ==> (#[trigger] visited@[j] <==> chain@.contains(
                        Link::Pipe(j as usize),
                    )),
            decreases count_unvisited(visited@),
        {
            match current {
                Some(Link::Pipe(j)) => {
                    if j >= self.pipes.len() || self.pipes[j].is_none() {
                        clear_marks(visited, &chain);
                        assert(visited@ =~= start);
                        return (chain, None);
                    }
                    if visited[j] {
                        assert(visited@[j as int]);
                        clear_marks(visited, &chain);
                        assert(visited@ =~= start);
                        return (chain, None);
                    }
                    proof {
                        lemma_visit(visited@, j as int);
                        assert forall|i: int| 0 <= i < chain@.len() implies chain@[i] != Link::Pipe(j) by {
                            if chain@[i] == Link::Pipe(j) {
                                assert(chain@.contains(Link::Pipe(j)));
                            }
                        }
                    }
                    let ghost old_chain = chain@;
                    visited.set(j, true);
                    chain.push(Link::Pipe(j));
                    proof {
                        assert forall|x: int| 0 <= x < visited@.len() implies (#[trigger] visited@[x] <==> chain@.contains(
                            Link::Pipe(x as usize),
                        )) by {
                            if x == j {
                                assert(chain@[old_chain.len() as int] == Link::Pipe(j));
                            } else {
                                if old_chain.contains(Link::Pipe(x as usize)) {
                                    let w = choose|w: int| 0 <= w < old_chain.len() && #[trigger] old_chain[w] == Link::Pipe(x as usize);
                                    assert(chain@[w] == Link::Pipe(x as usize));
                                }
                                if chain@.contains(Link::Pipe(x as usize)) {
                                    let w = choose|w: int| 0 <= w < chain@.len() && #[trigger] chain@[w] == Link::Pipe(x as usize);
                                    assert(old_chain[w] == Link::Pipe(x as usize));
                                }
                            }
                        }
                    }
                    current = self.pipes[j].unwrap().to;
                },
                Some(Link::Port(q)) => {
                    assert(self.port_is_live()(q) == port_live(self.ports@, q as int));
                    if q < self.ports.len() && self.ports[q].is_some() {
                        proof {
                            let n = chain@.len();
                            assert(n > 0);
                            let j = chain@[n - 1]->Pipe_0;
                            assert(follow(self.pipes@, Link::Pipe(k), (n - 1) as nat) == Some(Link::Pipe(j)));
                            assert(self.pipes@[j as int]->0.to == Some(Link::Port(q)));
                            assert(refers(self.pipes@, self.ports@, Link::Pipe(j), Link::Port(q)));
                            assert(oriented_pair(self.pipes@, self.ports@, Link::Pipe(j), Link::Port(q)));
                        }
                        clear_marks(visited, &chain);
                        assert(visited@ =~= start);
                        return (chain, Some(q));
                    } else {
                        clear_marks(visited, &chain);
                        assert(visited@ =~= start);
                        return (chain, None);
                    }
                },
                None => {
                    clear_marks(visited, &chain);
                    assert(visited@ =~= start);
                    return (chain, None);
                },
            }
        }
    }

    /// The trace of outlet port `p`: `members` starts with `p`; where `p` is connected to
    /// a pipe, the chain from it follows (see `chain_traced`) and then the sink, if any;
    /// where `p` is connected to a live port, that port is the sink and ends `members`.
    pub open spec fn port_traced(&self, p: usize, members: Seq<Link>, sink: Option<usize>) -> bool {
        let tail: int = if sink is Some {
            1
        } else {
            0
        };
        &&& members.len() >= 1 + tail
        &&& members[0] == Link::Port(p)
        &&& sink matches Some(q) ==> members.last() == Link::Port(q)
        &&& match self.ports@[p as int]->0.connected {
            Some(Link::Pipe(k)) => chain_traced(
                self.pipes@,
                self.port_is_live(),
                Link::Pipe(k),
                members.subrange(1, members.len() - tail),
                sink,
            ),
            Some(Link::Port(q)) => sink == if port_live(self.ports@, q as int) {
                Some(q)
            } else {
                None
            } && members.len() == 1 + tail,
            None => sink is None && members.len() == 1,
        }
    }

    /// Traces live port `p`; see `port_traced`. Every member is live.
    pub fn trace_port(&self, p: usize, visited: &mut Vec<bool>) -> (r: (Vec<Link>, Option<usize>))
        requires
            self.wf(),
            old(visited)@.len() == self.pipes@.len(),
            forall|j: int| 0 <= j < old(visited)@.len() ==> !#[trigger] old(visited)@[j],
            port_live(self.ports@, p as int),
            self.ports@[p as int]->0.flow == FlowDirection::Outlet,
        ensures
            final(visited)@ == old(visited)@,
            r.1 matches Some(q) ==> self.ports@[q as int]->0.flow == FlowDirection::Inlet,
            self.port_traced(p, r.0@, r.1),
            forall|i: int| 0 <= i < r.0@.len() ==> self.live(#[trigger] r.0@[i]),
    {
        let mut members: Vec<Link> = vec![Link::Port(p)];
        let connected = self.ports[p].unwrap().connected;
        match connected {
            Some(Link::Pipe(k)) => {
                let (chain, sink) = self.walk_chain(k, visited);
                let mut i: usize = 0;
                while i < chain.len()
                    invariant
                        i <= chain@.len(),
                        members@ == seq![Link::Port(p)] + chain@.subrange(0, i as int),
                    decreases chain@.len() - i,
                {
                    members.push(chain[i]);
                    assert(members@ =~= seq![Link::Port(p)] + chain@.subrange(0, i + 1));
                    i = i + 1;
                }
                if let Some(q) = sink {
                    members.push(Link::Port(q));
                }
                proof {
                    let tail: int = if sink is Some { 1 } else { 0 };
                    assert(chain@.subrange(0, chain@.len() as int) =~= chain@);
                    assert(members@.subrange(1, members@.len() - tail) =~= chain@);
                    assert forall|i: int| 0 <= i < members@.len() implies self.live(#[trigger] members@[i]) by {
                        if 1 <= i < members@.len() - tail {
                            assert(members@[i] == chain@[i - 1]);
                        }
                    }
                }
                (members, sink)
            },
            Some(Link::Port(q)) => {
                if q < self.ports.len() && self.ports[q].is_some() {
                    members.push(Link::Port(q));
                    proof {
                        assert(refers(self.pipes@, self.ports@, Link::Port(p), Link::Port(q)));
                        assert(oriented_pair(self.pipes@, self.ports@, Link::Port(p), Link::Port(q)));
                    }
                    (members, Some(q))
                } else {
                    (members, None)
                }
            },
            None => (members, None),
        }
    }

    /// Port `p` starts a network: a live outlet port of a live machine that is placed.
    pub open spec fn is_source(&self, p: usize) -> bool {
        let port = self.ports@[p as int]->0;
        &&& port_live(self.ports@, p as int)
        &&& port.flow == FlowDirection::Outlet
        &&& 0 <= port.machine < self.machines@.len()
        &&& self.machines@[port.machine as int] is Some
        &&& self.machines@[port.machine as int]->0.pos is Some
    }

    /// What a network from source `p` carries: the kind of its machine's buffer.
    pub open spec fn source_resource(&self, p: usize) -> ResourceType {
        self.machines@[self.ports@[p as int]->0.machine as int]->0.buffer.0
    }

    /// `x` has its reverse association recorded in `port_net` / `pipe_net`.
    pub open spec fn marked(port_net: Seq<Option<usize>>, pipe_net: Seq<Option<usize>>, x: Link) -> bool {
        match x {
            Link::Port(q) => q < port_net.len() && port_net[q as int] is Some,
            Link::Pipe(k) => k < pipe_net.len() && pipe_net[k as int] is Some,
        }
    }

    /// The networks in `nets` are traced from sources below `upto`, one for each such
    /// source, in the order of their source ports.
    pub open spec fn nets_ok(&self, nets: Seq<PipeNetwork>, upto: int) -> bool {
        &&& forall|i: int|
            0 <= i < nets.len() ==> {
                let nw = #[trigger] nets[i];
                &&& self.is_source(nw.source)
                &&& nw.source < upto
                &&& nw.resource == self.source_resource(nw.source)
                &&& self.port_traced(nw.source, nw.members@, nw.sink)
                &&& nw.sink matches Some(q) ==> self.ports@[q as int]->0.flow == FlowDirection::Inlet
                &&& forall|w: int| 0 <= w < nw.members@.len() ==> self.live(#[trigger] nw.members@[w])
            }
        &&& forall|i: int, j: int|
            0 <= i < j < nets.len() ==> #[trigger] nets[i].source < #[trigger] nets[j].source
        &&& forall|s: usize|
            s < upto && #[trigger] self.is_source(s) ==> exists|i: int|
                0 <= i < nets.len() && #[trigger] nets[i].source == s
    }

    /// The reverse associations point each recorded member at a network that holds it.
    pub open spec fn maps_ok(
        &self,
        nets: Seq<PipeNetwork>,
        port_net: Seq<Option<usize>>,
        pipe_net: Seq<Option<usize>>,
    ) -> bool {
        &&& port_net.len() == self.ports@.len()
        &&& pipe_net.len() == self.pipes@.len()
        &&& forall|q: int|
            0 <= q < port_net.len() ==> (#[trigger] port_net[q] matches Some(i) ==> 0 <= i
                < nets.len() && nets[i as int].members@.contains(Link::Port(q as usize)))
        &&& forall|k: int|
            0 <= k < pipe_net.len() ==> (#[trigger] pipe_net[k] matches Some(i) ==> 0 <= i
                < nets.len() && nets[i as int].members@.contains(Link::Pipe(k as usize)))
    }

    /// `x` is recorded in `port_net` / `pipe_net` as a member of network `i`.
    pub open spec fn marked_as(
        port_net: Seq<Option<usize>>,
        pipe_net: Seq<Option<usize>>,
        x: Link,
        i: int,
    ) -> bool {
        match x {
            Link::Port(q) => q < port_net.len() && port_net[q as int] == Some(i as usize),
            Link::Pipe(k) => k < pipe_net.len() && pipe_net[k as int] == Some(i as usize),
        }
    }

    /// Every member of the first `n` networks is recorded as a member of its own network.
    pub open spec fn all_marked(
        nets: Seq<PipeNetwork>,
        port_net: Seq<Option<usize>>,
        pipe_net: Seq<Option<usize>>,
        n: int,
    ) -> bool {
        forall|i: int, w: int|
            0 <= i < n && 0 <= w < nets[i].members@.len() ==> Self::marked_as(
                port_net,
                pipe_net,
                #[trigger] nets[i].members@[w],
                i,
            )
    }

    /// The networks are those traced from every source, one each, in the order of their
    /// source ports, and the reverse associations point each member at its network.
    pub open spec fn networks_built(&self) -> bool {
        &&& self.nets_ok(self.networks@, self.ports@.len() as int)
        &&& self.maps_ok(self.networks@, self.port_network@, self.pipe_network@)
        &&& Self::all_marked(
            self.networks@,
            self.port_network@,
            self.pipe_network@,
            self.networks@.len() as int,
        )
    }

    /// Appends the network of source `nw.source` and records its members.
    fn record_network(
        &self,
        nets: &mut Vec<PipeNetwork>,
        port_net: &mut Vec<Option<usize>>,
        pipe_net: &mut Vec<Option<usize>>,
        nw: PipeNetwork,
    )
        requires
            self.wf(),
            self.nets_ok(old(nets)@, nw.source as int),
            self.maps_ok(old(nets)@, old(port_net)@, old(pipe_net)@),
            Self::all_marked(old(nets)@, old(port_net)@, old(pipe_net)@, old(nets)@.len() as int),
            self.is_source(nw.source),
            nw.resource == self.source_resource(nw.source),
            self.port_traced(nw.source, nw.members@, nw.sink),
            nw.sink matches Some(q) ==> self.ports@[q as int]->0.flow == FlowDirection::Inlet,
            forall|w: int| 0 <= w < nw.members@.len() ==> self.live(#[trigger] nw.members@[w]),
        ensures
            self.nets_ok(final(nets)@, nw.source + 1),
            self.maps_ok(final(nets)@, final(port_net)@, final(pipe_net)@),
            Self::all_marked(final(nets)@, final(port_net)@, final(pipe_net)@, final(nets)@.len() as int),
    {
        let idx = nets.len();
        let ghost ms = nw.members@;
        let ghost before = nets@;
        nets.push(nw);
        proof {
            assert(forall|i: int| 0 <= i < idx ==> nets@[i] == before[i]);
            assert forall|s: usize| s < nw.source + 1 && #[trigger] self.is_source(s) implies exists|i: int|
                0 <= i < nets@.len() && #[trigger] nets@[i].source == s by {
                if s == nw.source {
                    assert(nets@[idx as int].source == s);
                } else {
                    let i = choose|i: int| 0 <= i < before.len() && #[trigger] before[i].source == s;
                    assert(nets@[i].source == s);
                }
            }
            assert forall|q: int|
                0 <= q < port_net@.len() implies (#[trigger] port_net@[q] matches Some(i) ==> 0 <= i
                    < nets@.len() && nets@[i as int].members@.contains(Link::Port(q as usize))) by {
                if let Some(i) = port_net@[q] {
                    assert(nets@[i as int] == before[i as int]);
                }
            }
            assert forall|k: int|
                0 <= k < pipe_net@.len() implies (#[trigger] pipe_net@[k] matches Some(i) ==> 0 <= i
                    < nets@.len() && nets@[i as int].members@.contains(Link::Pipe(k as usize))) by {
                if let Some(i) = pipe_net@[k] {
                    assert(nets@[i as int] == before[i as int]);
                }
            }
        }
        let n = nets[idx].members.len();
        let mut w: usize = 0;
        while w < n
            invariant
                self.wf(),
                w <= n,
                n == ms.len(),
                idx + 1 == nets@.len(),
                nets@[idx as int].members@ == ms,
                self.nets_ok(nets@, nw.source + 1),
                self.maps_ok(nets@, port_net@, pipe_net@),
                Self::all_marked(nets@, port_net@, pipe_net@, idx as int),
                forall|v: int| 0 <= v < w ==> Self::marked_as(port_net@, pipe_net@, #[trigger] ms[v], idx as int),
                forall|v: int| 0 <= v < ms.len() ==> self.live(#[trigger] ms[v]),
            decreases n - w,
        {
            let x = nets[idx].members[w];
            assert(x == ms[w as int]);
            assert(self.live(x));
            let ghost pn = port_net@;
            let ghost kn = pipe_net@;
            match x {
                Link::Port(q) => {
                    port_net.set(q, Some(idx));
                },
                Link::Pipe(k) => {
                    pipe_net.set(k, Some(idx));
                },
            }
            proof {
                assert(nets@[idx as int].members@[w as int] == x);
                assert forall|q: int|
                    0 <= q < port_net@.len() implies (#[trigger] port_net@[q] matches Some(i) ==> 0
                        <= i < nets@.len() && nets@[i as int].members@.contains(
                        Link::Port(q as usize),
                    )) by {
                    if x != Link::Port(q as usize) {
                        assert(port_net@[q] == pn[q]);
                    }
                }
                assert forall|k: int|
                    0 <= k < pipe_net@.len() implies (#[trigger] pipe_net@[k] matches Some(i) ==> 0
                        <= i < nets@.len() && nets@[i as int].members@.contains(
                        Link::Pipe(k as usize),
                    )) by {
                    if x != Link::Pipe(k as usize) {
                        assert(pipe_net@[k] == kn[k]);
                    }
                }
                assert forall|i: int, v: int|
                    0 <= i < idx && 0 <= v < nets@[i].members@.len() implies Self::marked_as(
                    port_net@,
                    pipe_net@,
                    #[trigger] nets@[i].members@[v],
                    i,
                ) by {
                    let y = nets@[i].members@[v];
                    assert(Self::marked_as(pn, kn, y, i));
                    assert(nets@[i].source < nets@[idx as int].source);
                    lemma_traces_disjoint(
                        self,
                        nets@[idx as int].source,
                        ms,
                        nets@[idx as int].sink,
                        nets@[i].source,
                        nets@[i].members@,
                        nets@[i].sink,
                        w as int,
                        v,
                    );
                    assert(y != x);
                }
                assert forall|v: int| 0 <= v < w + 1 implies Self::marked_as(
                    port_net@,
                    pipe_net@,
                    #[trigger] ms[v],
                    idx as int,
                ) by {
                    if v < w && ms[v] != x {
                        assert(Self::marked_as(pn, kn, ms[v], idx as int));
                    }
                }
            }
            w = w + 1;
        }
        proof {
            assert forall|i: int, v: int|
                0 <= i < nets@.len() && 0 <= v < nets@[i].members@.len() implies Self::marked_as(
                port_net@,
                pipe_net@,
                #[trigger] nets@[i].members@[v],
                i,
            ) by {
                if i == idx {
                    assert(nets@[i].members@[v] == ms[v]);
                }
            }
        }
    }

    /// Rebuilds every network where an invalidation is pending (and then clears the
    /// pending count); returns whether it did. A frame with no edit costs nothing.
    pub fn network_rebuild(&mut self) -> (r: bool)
        requires
            old(self).wf(),
        ensures
            final(self).wf(),
            r == (old(self).invalidations > 0),
            !r ==> *final(self) == *old(self),
            r ==> final(self).invalidations == 0,
            r ==> final(self).networks_built(),
            final(self).pipes@ == old(self).pipes@,
            final(self).ports@ == old(self).ports@,
            final(self).machines@ == old(self).machines@,
            final(self).grid == old(self).grid,
            final(self).pending@ == old(self).pending@,
    {
        if self.invalidations == 0 {
            return false;
        }
        self.invalidations = 0;
        let mut nets: Vec<PipeNetwork> = Vec::new();
        let mut port_net: Vec<Option<usize>> = Vec::new();
        let mut pipe_net: Vec<Option<usize>> = Vec::new();
        let mut z: usize = 0;
        while z < self.ports.len()
            invariant
                z <= self.ports@.len(),
                port_net@.len() == z,
                forall|q: int| 0 <= q < z ==> #[trigger] port_net@[q] is None,
            decreases self.ports@.len() - z,
        {
            port_net.push(None);
            z = z + 1;
        }
        z = 0;
        while z < self.pipes.len()
            invariant
                z <= self.pipes@.len(),
                pipe_net@.len() == z,
                forall|k: int| 0 <= k < z ==> #[trigger] pipe_net@[k] is None,
            decreases self.pipes@.len() - z,
        {
            pipe_net.push(None);
            z = z + 1;
        }
        let mut visited: Vec<bool> = Vec::new();
        z = 0;
        while z < self.pipes.len()
            invariant
                z <= self.pipes@.len(),
                visited@.len() == z,
                forall|j: int| 0 <= j < z ==> !#[trigger] visited@[j],
            decreases self.pipes@.len() - z,
        {
            visited.push(false);
            z = z + 1;
        }
        let mut p: usize = 0;
        while p < self.ports.len()
            invariant
                visited@.len() == self.pipes@.len(),
                forall|j: int| 0 <= j < visited@.len() ==> !#[trigger] visited@[j],
                self.wf(),
                p <= self.ports@.len(),
                self.nets_ok(nets@, p as int),
                self.maps_ok(nets@, port_net@, pipe_net@),
                Self::all_marked(nets@, port_net@, pipe_net@, nets@.len() as int),
            decreases self.ports@.len() - p,
        {
            let current = p;
            p = p + 1;
            let mut source = true;
            let mut resource = ResourceType::Mineral;
            match self.ports[current] {
                Some(port) => {
                    if port.flow != FlowDirection::Outlet || port.machine >= self.machines.len() {
                        source = false;
                    } else {
                        match &self.machines[port.machine] {
                            Some(mach) => {
                                if mach.pos.is_none() {
                                    source = false;
                                } else {
                                    resource = mach.buffer.0;
                                }
                            },
                            None => {
                                source = false;
                            },
                        }
                    }
                },
                None => {
                    source = false;
                },
            }
            if source {
                let (members, sink) = self.trace_port(current, &mut visited);
                self.record_network(
                    &mut nets,
                    &mut port_net,
                    &mut pipe_net,
                    PipeNetwork { source: current, resource, sink, members },
                );
            } else {
                assert forall|s: usize| s < p && #[trigger] self.is_source(s) implies exists|i: int|
                    0 <= i < nets@.len() && #[trigger] nets@[i].source == s by {
                    assert(s < current);
                }
            }
        }
        let ghost fixed = *self;
        self.networks = nets;
        self.port_network = port_net;
        self.pipe_network = pipe_net;
        proof {
            assert forall|s: usize| #[trigger] self.is_source(s) == fixed.is_source(s) by {}
            assert forall|s: usize| #[trigger] self.source_resource(s) == fixed.source_resource(s) by {}
            assert forall|s: usize, m: Seq<Link>, k: Option<usize>| #[trigger] self.port_traced(s, m, k) == fixed.port_traced(s, m, k) by {
                assert(self.port_is_live() == fixed.port_is_live());
            }
            assert forall|l: Link| #[trigger] self.live(l) == fixed.live(l) by {}
            assert forall|s: usize| #[trigger] self.is_source(s) implies s < self.ports@.len() by {}
        }
        true
    }
}

} // verus!
