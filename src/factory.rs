use vstd::prelude::*;

use crate::grid::{cell_index, in_bounds, is_interior, Building, Direction, Grid, TileCoords, GRID_SIZE};
use crate::machines::{inlet, outlet};
use crate::resources::ResourceType;

verus! {

/// A handle to something a port or a pipe can be connected to.
#[derive(Clone, Copy, Debug, PartialEq, Eq, Structural)]
pub enum Link {
    Pipe(usize),
    Port(usize),
}

/// Whether a port takes resources in or hands them out.
#[derive(Clone, Copy, Debug, PartialEq, Eq, Structural)]
pub enum FlowDirection {
    Inlet,
    Outlet,
}

/// A socket on one side of a machine.
#[derive(Clone, Copy, Debug, PartialEq, Eq, Structural)]
pub struct MachinePort {
    pub side: Direction,
    pub flow: FlowDirection,
    pub connected: Option<Link>,
    /// Handle of the machine the port belongs to.
    pub machine: usize,
}

impl MachinePort {
    /// An unconnected port; its owner is set when the machine is added to a factory.
    pub fn new(side: Direction, flow: FlowDirection) -> (r: MachinePort)
        ensures
            r.side == side,
            r.flow == flow,
            r.connected is None,
            r.machine == 0,
    {
        MachinePort { side, flow, connected: None, machine: 0 }
    }
}

/// A pipe segment: what it feeds into (`to`) and what feeds it (`from`).
#[derive(Clone, Copy, Debug, PartialEq, Eq, Structural)]
pub struct Pipe {
    pub pos: TileCoords,
    pub to: Option<Link>,
    pub from: Option<Link>,
}

/// A machine's local stock: a kind and an amount.
#[derive(Clone, Copy, Debug, PartialEq, Eq, Structural)]
pub struct Buffer(pub ResourceType, pub i64);

/// What a machine does on each tick.
#[derive(Clone, Copy, Debug, PartialEq, Eq, Structural)]
pub enum MachineKind {
    /// Draws its resource from the pool into its buffer.
    Inlet(ResourceType),
    /// Drains ammo or rockets from the network it is fed by into the pool.
    Outlet,
    AmmoFactory,
    RocketFactory,
    HullFixer,
    PipeSwitch,
}

/// A machine in a factory; `pos` is `None` while it is not placed on the grid.
#[derive(Debug)]
pub struct Machine {
    pub kind: MachineKind,
    pub pos: Option<TileCoords>,
    pub buffer: Buffer,
    /// Handles of its ports.
    pub ports: Vec<usize>,
}

/// What a machine is made of before it joins a factory: its kind, where it stands
/// (if placed), its buffer and its ports.
#[derive(Debug)]
pub struct MachineTemplate {
    pub kind: MachineKind,
    pub pos: Option<TileCoords>,
    pub buffer: Buffer,
    pub ports: Vec<MachinePort>,
}

/// A traced flow: the outlet port it starts at, the inlet port it ends at if any,
/// what it carries, and its members in order (source, pipes, sink).
#[derive(Debug)]
pub struct PipeNetwork {
    pub source: usize,
    pub resource: ResourceType,
    pub sink: Option<usize>,
    pub members: Vec<Link>,
}

pub open spec fn pipe_live(pipes: Seq<Option<Pipe>>, k: int) -> bool {
    0 <= k < pipes.len() && pipes[k] is Some
}

pub open spec fn port_live(ports: Seq<Option<MachinePort>>, p: int) -> bool {
    0 <= p < ports.len() && ports[p] is Some
}

pub open spec fn link_live(pipes: Seq<Option<Pipe>>, ports: Seq<Option<MachinePort>>, l: Link) -> bool {
    match l {
        Link::Pipe(k) => pipe_live(pipes, k as int),
        Link::Port(p) => port_live(ports, p as int),
    }
}

/// Whether live `a` holds a reference to `b` in one of its slots.
pub open spec fn refers(
    pipes: Seq<Option<Pipe>>,
    ports: Seq<Option<MachinePort>>,
    a: Link,
    b: Link,
) -> bool {
    link_live(pipes, ports, a) && match a {
        Link::Pipe(k) => pipes[k as int]->0.to == Some(b) || pipes[k as int]->0.from == Some(b),
        Link::Port(p) => ports[p as int]->0.connected == Some(b),
    }
}

/// Every reference is returned: if `a` refers to `b`, `b` is live and refers to `a`.
pub open spec fn symmetric(pipes: Seq<Option<Pipe>>, ports: Seq<Option<MachinePort>>) -> bool {
    forall|a: Link, b: Link| #[trigger]
        refers(pipes, ports, a, b) ==> refers(pipes, ports, b, a)
}

/// The pair `a`, `b` that refer to each other is linked in flow order: pipe `k` feeds
/// pipe `j` exactly when `k.to` holds `j` and `j.from` holds `k`; a pipe's `to` holds
/// only an inlet port and its `from` only an outlet port, and such a port sits in that
/// slot; two linked ports have opposite flows.
pub open spec fn oriented_pair(
    pipes: Seq<Option<Pipe>>,
    ports: Seq<Option<MachinePort>>,
    a: Link,
    b: Link,
) -> bool {
    match (a, b) {
        (Link::Pipe(k), Link::Pipe(j)) => (pipes[k as int]->0.to == Some(Link::Pipe(j)) <==> pipes[j as int]->0.from
            == Some(Link::Pipe(k))) && (pipes[k as int]->0.from == Some(Link::Pipe(j)) <==> pipes[j as int]->0.to
            == Some(Link::Pipe(k))),
        (Link::Pipe(k), Link::Port(p)) => (pipes[k as int]->0.to == Some(Link::Port(p)) ==> ports[p as int]->0.flow
            == FlowDirection::Inlet) && (pipes[k as int]->0.from == Some(Link::Port(p)) ==> ports[p as int]->0.flow
            == FlowDirection::Outlet),
        (Link::Port(p), Link::Pipe(k)) => (ports[p as int]->0.flow == FlowDirection::Inlet ==> pipes[k as int]->0.to
            == Some(Link::Port(p))) && (ports[p as int]->0.flow == FlowDirection::Outlet ==> pipes[k as int]->0.from
            == Some(Link::Port(p))),
        (Link::Port(p), Link::Port(q)) => ports[p as int]->0.flow != ports[q as int]->0.flow,
    }
}

/// Every reference is in flow order; see `oriented_pair`.
pub open spec fn oriented(pipes: Seq<Option<Pipe>>, ports: Seq<Option<MachinePort>>) -> bool {
    forall|a: Link, b: Link| #[trigger]
        refers(pipes, ports, a, b) ==> oriented_pair(pipes, ports, a, b)
}

/// `slot` with a reference to `x` taken out.
pub open spec fn cleared(slot: Option<Link>, x: Link) -> Option<Link> {
    if slot == Some(x) {
        None
    } else {
        slot
    }
}

/// Arena entry `e` with every reference to `x` taken out.
pub open spec fn pipe_without(e: Option<Pipe>, x: Link) -> Option<Pipe> {
    match e {
        Some(pp) => Some(Pipe { to: cleared(pp.to, x), from: cleared(pp.from, x), ..pp }),
        None => None,
    }
}

/// Arena entry `e` with its reference to `x` taken out.
pub open spec fn port_without(e: Option<MachinePort>, x: Link) -> Option<MachinePort> {
    match e {
        Some(pp) => Some(MachinePort { connected: cleared(pp.connected, x), ..pp }),
        None => None,
    }
}

/// Links to the `n` ports with handles `start`, `start + 1`, ...
pub open spec fn port_links(start: int, n: int) -> Seq<Link> {
    Seq::new(n as nat, |i: int| Link::Port((start + i) as usize))
}

/// A factory: the grid and arenas of pipes, ports and machines, addressed by handles
/// that are never reused (a removed entity leaves `None` behind).
pub struct Factory {
    pub grid: Grid,
    pub pipes: Vec<Option<Pipe>>,
    pub ports: Vec<Option<MachinePort>>,
    pub machines: Vec<Option<Machine>>,
    pub networks: Vec<PipeNetwork>,
    /// For each port, the network it belongs to.
    pub port_network: Vec<Option<usize>>,
    /// For each pipe, the network it belongs to.
    pub pipe_network: Vec<Option<usize>>,
    /// Ports and pipes waiting for the connection step, oldest first.
    pub pending: Vec<Link>,
    /// Invalidation signals raised since the last rebuild.
    pub invalidations: u64,
}

/// `same_frame` is transitive.
proof fn lemma_same_frame_trans(a: &Factory, b: &Factory, c: &Factory)
    requires
        a.same_frame(b),
        b.same_frame(c),
    ensures
        a.same_frame(c),
{
    assert forall|i: int| #[trigger] pipe_live(a.pipes@, i) implies pipe_live(c.pipes@, i)
        && a.pipes@[i]->0.pos == c.pipes@[i]->0.pos by {
        assert(pipe_live(b.pipes@, i));
    }
    assert forall|i: int| #[trigger] port_live(a.ports@, i) implies port_live(c.ports@, i)
        && a.ports@[i]->0.side == c.ports@[i]->0.side && a.ports@[i]->0.flow
        == c.ports@[i]->0.flow && a.ports@[i]->0.machine == c.ports@[i]->0.machine by {
        assert(port_live(b.ports@, i));
    }
}

/// `slots_kept` is transitive over steps that keep liveness.
proof fn lemma_slots_kept_trans(a: &Factory, b: &Factory, c: &Factory)
    requires
        a.slots_kept(b),
        b.slots_kept(c),
        a.same_frame(b),
    ensures
        a.slots_kept(c),
{
    assert forall|k: int| #[trigger] pipe_live(a.pipes@, k) && pipe_live(c.pipes@, k) implies (c.pipes@[k]->0.to is None
        || a.pipes@[k]->0.to == c.pipes@[k]->0.to) && (c.pipes@[k]->0.from is None
        || a.pipes@[k]->0.from == c.pipes@[k]->0.from) by {
        assert(pipe_live(b.pipes@, k));
    }
    assert forall|p: int| #[trigger] port_live(a.ports@, p) && port_live(c.ports@, p) implies c.ports@[p]->0.connected is None
        || a.ports@[p]->0.connected == c.ports@[p]->0.connected by {
        assert(port_live(b.ports@, p));
    }
}

/// A step that keeps the grid, the live pipes and their positions keeps every live
/// pipe on its cell.
proof fn lemma_placed_kept(a: &Factory, b: &Factory)
    requires
        a.same_frame(b),
        b.pipes_placed(),
    ensures
        a.pipes_placed(),
{
    assert forall|k: usize| #[trigger] pipe_live(a.pipes@, k as int) implies a.grid.building_spec(
        a.pipes@[k as int]->0.pos,
    ) == Some(Building::Pipe(k)) by {
        assert(pipe_live(b.pipes@, k as int));
    }
}

/// A step that keeps the frame and every filled slot, and only adds references, keeps
/// what is saturated around pipe `k`.
proof fn lemma_saturation_kept(a: &Factory, b: &Factory, k: usize, d: Direction)
    requires
        a.same_frame(b),
        a.slots_kept(b),
        forall|l: Link| #[trigger] a.live(l) == b.live(l),
        forall|x: Link, y: Link| b.refers_spec(x, y) ==> #[trigger] a.refers_spec(x, y),
        pipe_live(b.pipes@, k as int),
        b.saturated_toward(k, d),
    ensures
        a.saturated_toward(k, d),
{
    assert(a.live(Link::Pipe(k)));
    assert(pipe_live(a.pipes@, k as int));
    let n = b.pipes@[k as int]->0.pos.neighbor_spec(d);
    assert(a.pipes@[k as int]->0.pos.neighbor_spec(d) == n);
    if in_bounds(n.0, n.1) {
        match b.grid.buildings@[cell_index(n.0, n.1)] {
            Some(Building::Pipe(j)) => {
                assert(a.live(Link::Pipe(j)) == b.live(Link::Pipe(j)));
                if j != k && pipe_live(b.pipes@, j as int) && !b.refers_spec(Link::Pipe(k), Link::Pipe(j)) {
                    assert(pipe_live(a.pipes@, j as int));
                }
            },
            Some(Building::Machine(m2)) => {
                if 0 <= m2 < b.machines@.len() && b.machines@[m2 as int] is Some {
                    if exists|q: usize| #[trigger] b.facing_port(m2, d, q) && b.refers_spec(Link::Pipe(k), Link::Port(q)) {
                        let q = choose|q: usize| #[trigger] b.facing_port(m2, d, q) && b.refers_spec(Link::Pipe(k), Link::Port(q));
                        assert(a.live(Link::Port(q)));
                        assert(a.facing_port(m2, d, q));
                    } else {
                        assert forall|q: usize| #[trigger] a.facing_port(m2, d, q) implies !a.pipe_port_fit(k, q) by {
                            assert(a.live(Link::Port(q)) == b.live(Link::Port(q)));
                            assert(b.facing_port(m2, d, q));
                        }
                    }
                }
            },
            None => {},
        }
    }
}

impl Factory {
    pub open spec fn wf(&self) -> bool {
        &&& self.grid.wf()
        &&& symmetric(self.pipes@, self.ports@)
        &&& oriented(self.pipes@, self.ports@)
        &&& self.port_network@.len() == self.ports@.len()
        &&& self.pipe_network@.len() == self.pipes@.len()
        &&& self.pipes_placed()
    }

    /// Every live pipe stands on its own cell of the grid.
    pub open spec fn pipes_placed(&self) -> bool {
        forall|k: usize| #[trigger]
            pipe_live(self.pipes@, k as int) ==> self.grid.building_spec(self.pipes@[k as int]->0.pos)
                == Some(Building::Pipe(k))
    }

    /// No live pipe claims the cell at `pos`.
    pub open spec fn no_live_pipe_at(&self, pos: TileCoords) -> bool {
        !(self.grid.building_spec(pos) matches Some(Building::Pipe(j)) && self.live(Link::Pipe(j)))
    }

    pub open spec fn refers_spec(&self, a: Link, b: Link) -> bool {
        refers(self.pipes@, self.ports@, a, b)
    }

    pub open spec fn live(&self, l: Link) -> bool {
        link_live(self.pipes@, self.ports@, l)
    }

    /// The fields other than the pipe and port arenas are those of `other`, and the
    /// arenas keep their lengths.
    pub open spec fn same_frame(&self, other: &Factory) -> bool {
        &&& self.grid == other.grid
        &&& self.machines@ == other.machines@
        &&& self.networks@ == other.networks@
        &&& self.port_network@ == other.port_network@
        &&& self.pipe_network@ == other.pipe_network@
        &&& self.pending@ == other.pending@
        &&& self.invalidations == other.invalidations
        &&& self.pipes@.len() == other.pipes@.len()
        &&& self.ports@.len() == other.ports@.len()
        &&& forall|i: int| #[trigger]
            pipe_live(self.pipes@, i) ==> pipe_live(other.pipes@, i) && self.pipes@[i]->0.pos
                == other.pipes@[i]->0.pos
        &&& forall|i: int| #[trigger]
            port_live(self.ports@, i) ==> port_live(other.ports@, i) && self.ports@[i]->0.side
                == other.ports@[i]->0.side && self.ports@[i]->0.flow == other.ports@[i]->0.flow
                && self.ports@[i]->0.machine == other.ports@[i]->0.machine
    }

    /// Every slot that was filled in `before` holds the same reference here.
    pub open spec fn slots_kept(&self, before: &Factory) -> bool {
        &&& forall|k: int| #[trigger]
            pipe_live(self.pipes@, k) && pipe_live(before.pipes@, k) ==> (before.pipes@[k]->0.to is Some
                ==> self.pipes@[k]->0.to == before.pipes@[k]->0.to) && (before.pipes@[k]->0.from is Some
                ==> self.pipes@[k]->0.from == before.pipes@[k]->0.from)
        &&& forall|p: int| #[trigger]
            port_live(self.ports@, p) && port_live(before.ports@, p) ==> (before.ports@[p]->0.connected is Some
                ==> self.ports@[p]->0.connected == before.ports@[p]->0.connected)
    }

    /// Whether `l` names a live pipe or port.
    pub fn is_live(&self, l: Link) -> (r: bool)
        ensures
            r == self.live(l),
    {
        match l {
            Link::Pipe(k) => k < self.pipes.len() && self.pipes[k].is_some(),
            Link::Port(p) => p < self.ports.len() && self.ports[p].is_some(),
        }
    }

    /// Clears every slot of live `y` that holds `x`.
    fn clear_refs(&mut self, y: Link, x: Link)
        requires
            old(self).live(y),
        ensures
            final(self).same_frame(old(self)),
            forall|l: Link| #[trigger] final(self).live(l) == old(self).live(l),
            forall|a: Link, b: Link| #[trigger]
                final(self).refers_spec(a, b) == (old(self).refers_spec(a, b) && !(a == y && b
                    == x)),
            final(self).pipes@ == match y {
                Link::Pipe(k) => old(self).pipes@.update(k as int, pipe_without(old(self).pipes@[k as int], x)),
                Link::Port(_) => old(self).pipes@,
            },
            final(self).ports@ == match y {
                Link::Port(p) => old(self).ports@.update(p as int, port_without(old(self).ports@[p as int], x)),
                Link::Pipe(_) => old(self).ports@,
            },
    {
        match y {
            Link::Pipe(k) => {
                let mut pipe = self.pipes[k].unwrap();
                if pipe.to == Some(x) {
                    pipe.to = None;
                }
                if pipe.from == Some(x) {
                    pipe.from = None;
                }
                self.pipes.set(k, Some(pipe));
            },
            Link::Port(p) => {
                let mut port = self.ports[p].unwrap();
                if port.connected == Some(x) {
                    port.connected = None;
                }
                self.ports.set(p, Some(port));
            },
        }
        proof {
            assert forall|l: Link| #[trigger] self.live(l) == old(self).live(l) by {}
            assert forall|a: Link, b: Link| #[trigger]
                self.refers_spec(a, b) == (old(self).refers_spec(a, b) && !(a == y && b == x)) by {}
        }
    }

    /// Connects two free ports to each other.
    fn link_ports(&mut self, p: usize, q: usize)
        requires
            old(self).wf(),
            p != q,
            port_live(old(self).ports@, p as int),
            port_live(old(self).ports@, q as int),
            old(self).ports@[p as int]->0.connected is None,
            old(self).ports@[q as int]->0.connected is None,
            old(self).ports@[p as int]->0.flow != old(self).ports@[q as int]->0.flow,
        ensures
            final(self).pipes@ == old(self).pipes@,
            final(self).ports@ == old(self).ports@.update(
                p as int,
                Some(MachinePort { connected: Some(Link::Port(q)), ..old(self).ports@[p as int]->0 }),
            ).update(
                q as int,
                Some(MachinePort { connected: Some(Link::Port(p)), ..old(self).ports@[q as int]->0 }),
            ),
            final(self).wf(),
            final(self).same_frame(old(self)),
            forall|l: Link| #[trigger] final(self).live(l) == old(self).live(l),
            forall|a: Link, b: Link| #[trigger]
                final(self).refers_spec(a, b) == (old(self).refers_spec(a, b) || (a == Link::Port(
                    p,
                ) && b == Link::Port(q)) || (a == Link::Port(q) && b == Link::Port(p))),
    {
        let mut port = self.ports[p].unwrap();
        port.connected = Some(Link::Port(q));
        self.ports.set(p, Some(port));
        let mut other = self.ports[q].unwrap();
        other.connected = Some(Link::Port(p));
        self.ports.set(q, Some(other));
        proof {
            lemma_placed_kept(self, old(self));
            assert forall|l: Link| #[trigger] self.live(l) == old(self).live(l) by {}
            assert forall|a: Link, b: Link| #[trigger]
                self.refers_spec(a, b) == (old(self).refers_spec(a, b) || (a == Link::Port(p) && b
                    == Link::Port(q)) || (a == Link::Port(q) && b == Link::Port(p))) by {}
            assert forall|a: Link, b: Link| #[trigger]
                refers(self.pipes@, self.ports@, a, b) implies refers(
                self.pipes@,
                self.ports@,
                b,
                a,
            ) by {
                if old(self).refers_spec(a, b) {
                    assert(refers(old(self).pipes@, old(self).ports@, a, b));
                    assert(old(self).refers_spec(b, a));
                }
            }
            assert forall|a: Link, b: Link| #[trigger]
                refers(self.pipes@, self.ports@, a, b) implies oriented_pair(
                self.pipes@,
                self.ports@,
                a,
                b,
            ) by {
                if refers(old(self).pipes@, old(self).ports@, a, b) || refers(
                    old(self).pipes@,
                    old(self).ports@,
                    b,
                    a,
                ) {
                    assert(refers(old(self).pipes@, old(self).ports@, a, b));
                    assert(refers(old(self).pipes@, old(self).ports@, b, a));
                    assert(oriented_pair(old(self).pipes@, old(self).ports@, a, b));
                    assert(oriented_pair(old(self).pipes@, old(self).ports@, b, a));
                }
            }
        }
    }

    /// Connects a free slot of pipe `k` (its `to` slot if `to`, else its `from` slot)
    /// with the free port `p`.
    fn link_pipe_port(&mut self, k: usize, p: usize, to: bool)
        requires
            old(self).wf(),
            pipe_live(old(self).pipes@, k as int),
            port_live(old(self).ports@, p as int),
            to ==> old(self).pipes@[k as int]->0.to is None,
            !to ==> old(self).pipes@[k as int]->0.from is None,
            old(self).ports@[p as int]->0.connected is None,
            to <==> old(self).ports@[p as int]->0.flow == FlowDirection::Inlet,
        ensures
            final(self).pipes@ == old(self).pipes@.update(
                k as int,
                Some(
                    if to {
                        Pipe { to: Some(Link::Port(p)), ..old(self).pipes@[k as int]->0 }
                    } else {
                        Pipe { from: Some(Link::Port(p)), ..old(self).pipes@[k as int]->0 }
                    },
                ),
            ),
            final(self).ports@ == old(self).ports@.update(
                p as int,
                Some(MachinePort { connected: Some(Link::Pipe(k)), ..old(self).ports@[p as int]->0 }),
            ),
            final(self).slots_kept(old(self)),
            final(self).wf(),
            final(self).same_frame(old(self)),
            forall|l: Link| #[trigger] final(self).live(l) == old(self).live(l),
            forall|a: Link, b: Link| #[trigger]
                final(self).refers_spec(a, b) == (old(self).refers_spec(a, b) || (a == Link::Pipe(
                    k,
                ) && b == Link::Port(p)) || (a == Link::Port(p) && b == Link::Pipe(k))),
            to ==> final(self).pipes@[k as int]->0.to == Some(Link::Port(p)),
            !to ==> final(self).pipes@[k as int]->0.from == Some(Link::Port(p)),
    {
        let mut pipe = self.pipes[k].unwrap();
        if to {
            pipe.to = Some(Link::Port(p));
        } else {
            pipe.from = Some(Link::Port(p));
        }
        self.pipes.set(k, Some(pipe));
        let mut port = self.ports[p].unwrap();
        port.connected = Some(Link::Pipe(k));
        self.ports.set(p, Some(port));
        proof {
            lemma_placed_kept(self, old(self));
            assert forall|l: Link| #[trigger] self.live(l) == old(self).live(l) by {}
            assert forall|a: Link, b: Link| #[trigger]
                self.refers_spec(a, b) == (old(self).refers_spec(a, b) || (a == Link::Pipe(k) && b
                    == Link::Port(p)) || (a == Link::Port(p) && b == Link::Pipe(k))) by {}
            assert forall|a: Link, b: Link| #[trigger]
                refers(self.pipes@, self.ports@, a, b) implies refers(
                self.pipes@,
                self.ports@,
                b,
                a,
            ) by {
                if old(self).refers_spec(a, b) {
                    assert(refers(old(self).pipes@, old(self).ports@, a, b));
                    assert(old(self).refers_spec(b, a));
                }
            }
            assert forall|a: Link, b: Link| #[trigger]
                refers(self.pipes@, self.ports@, a, b) implies oriented_pair(
                self.pipes@,
                self.ports@,
                a,
                b,
            ) by {
                if refers(old(self).pipes@, old(self).ports@, a, b) || refers(
                    old(self).pipes@,
                    old(self).ports@,
                    b,
                    a,
                ) {
                    assert(refers(old(self).pipes@, old(self).ports@, a, b));
                    assert(refers(old(self).pipes@, old(self).ports@, b, a));
                    assert(oriented_pair(old(self).pipes@, old(self).ports@, a, b));
                    assert(oriented_pair(old(self).pipes@, old(self).ports@, b, a));
                }
            }
        }
    }

    /// Makes pipe `k` feed into pipe `j`: `k.to = j` and `j.from = k`.
    fn link_pipes(&mut self, k: usize, j: usize)
        requires
            old(self).wf(),
            k != j,
            pipe_live(old(self).pipes@, k as int),
            pipe_live(old(self).pipes@, j as int),
            old(self).pipes@[k as int]->0.to is None,
            old(self).pipes@[j as int]->0.from is None,
        ensures
            final(self).ports@ == old(self).ports@,
            final(self).pipes@ == old(self).pipes@.update(
                k as int,
                Some(Pipe { to: Some(Link::Pipe(j)), ..old(self).pipes@[k as int]->0 }),
            ).update(
                j as int,
                Some(Pipe { from: Some(Link::Pipe(k)), ..old(self).pipes@[j as int]->0 }),
            ),
            final(self).slots_kept(old(self)),
            final(self).wf(),
            final(self).same_frame(old(self)),
            forall|l: Link| #[trigger] final(self).live(l) == old(self).live(l),
            forall|a: Link, b: Link| #[trigger]
                final(self).refers_spec(a, b) == (old(self).refers_spec(a, b) || (a == Link::Pipe(
                    k,
                ) && b == Link::Pipe(j)) || (a == Link::Pipe(j) && b == Link::Pipe(k))),
            final(self).pipes@[k as int]->0.to == Some(Link::Pipe(j)),
            final(self).pipes@[j as int]->0.from == Some(Link::Pipe(k)),
    {
        let mut pipe = self.pipes[k].unwrap();
        pipe.to = Some(Link::Pipe(j));
        self.pipes.set(k, Some(pipe));
        let mut next = self.pipes[j].unwrap();
        next.from = Some(Link::Pipe(k));
        self.pipes.set(j, Some(next));
        proof {
            lemma_placed_kept(self, old(self));
            assert forall|l: Link| #[trigger] self.live(l) == old(self).live(l) by {}
            assert forall|a: Link, b: Link| #[trigger]
                self.refers_spec(a, b) == (old(self).refers_spec(a, b) || (a == Link::Pipe(k) && b
                    == Link::Pipe(j)) || (a == Link::Pipe(j) && b == Link::Pipe(k))) by {}
            assert forall|a: Link, b: Link| #[trigger]
                refers(self.pipes@, self.ports@, a, b) implies refers(
                self.pipes@,
                self.ports@,
                b,
                a,
            ) by {
                if old(self).refers_spec(a, b) {
                    assert(refers(old(self).pipes@, old(self).ports@, a, b));
                    assert(old(self).refers_spec(b, a));
                }
            }
            assert forall|a: Link, b: Link| #[trigger]
                refers(self.pipes@, self.ports@, a, b) implies oriented_pair(
                self.pipes@,
                self.ports@,
                a,
                b,
            ) by {
                if refers(old(self).pipes@, old(self).ports@, a, b) || refers(
                    old(self).pipes@,
                    old(self).ports@,
                    b,
                    a,
                ) {
                    assert(refers(old(self).pipes@, old(self).ports@, a, b));
                    assert(refers(old(self).pipes@, old(self).ports@, b, a));
                    assert(oriented_pair(old(self).pipes@, old(self).ports@, a, b));
                    assert(oriented_pair(old(self).pipes@, old(self).ports@, b, a));
                }
            }
        }
    }

    /// Removes a live pipe or port from its arena, first clearing the slot of each
    /// partner that refers back to it; nothing happens if `x` is not live.
    pub fn despawn_link(&mut self, x: Link)
        requires
            old(self).wf(),
        ensures
            final(self).wf(),
            final(self).same_frame(old(self)),
            forall|l: Link| #[trigger] final(self).live(l) == (old(self).live(l) && l != x),
            forall|a: Link, b: Link| #[trigger]
                final(self).refers_spec(a, b) == (old(self).refers_spec(a, b) && a != x && b != x),
            forall|i: int|
                0 <= i < final(self).pipes@.len() ==> #[trigger] final(self).pipes@[i] == if x
                    == Link::Pipe(i as usize) {
                    None
                } else {
                    pipe_without(old(self).pipes@[i], x)
                },
            forall|i: int|
                0 <= i < final(self).ports@.len() ==> #[trigger] final(self).ports@[i] == if x
                    == Link::Port(i as usize) {
                    None
                } else {
                    port_without(old(self).ports@[i], x)
                },
    {
        let np = self.pipes.len();
        let nq = self.ports.len();
        proof {
            assert forall|i: int| 0 <= i < self.pipes@.len() && !(refers(self.pipes@, self.ports@, x, Link::Pipe(i as usize))) implies #[trigger]
                pipe_without(self.pipes@[i], x) == self.pipes@[i] by {
                if self.pipes@[i] is Some {
                    if self.pipes@[i]->0.to == Some(x) || self.pipes@[i]->0.from == Some(x) {
                        assert(refers(self.pipes@, self.ports@, Link::Pipe(i as usize), x));
                        assert(refers(self.pipes@, self.ports@, x, Link::Pipe(i as usize)));
                    }
                }
            }
            assert forall|i: int| 0 <= i < self.ports@.len() && !(refers(self.pipes@, self.ports@, x, Link::Port(i as usize))) implies #[trigger]
                port_without(self.ports@[i], x) == self.ports@[i] by {
                if self.ports@[i] is Some {
                    if self.ports@[i]->0.connected == Some(x) {
                        assert(refers(self.pipes@, self.ports@, Link::Port(i as usize), x));
                        assert(refers(self.pipes@, self.ports@, x, Link::Port(i as usize)));
                    }
                }
            }
        }
        if !self.is_live(x) {
            return ;
        }
        let (first, second) = match x {
            Link::Pipe(k) => {
                let pipe = self.pipes[k].unwrap();
                (pipe.to, pipe.from)
            },
            Link::Port(p) => (self.ports[p].unwrap().connected, None),
        };
        let ghost g0 = *self;
        if let Some(y) = first {
            assert(refers(g0.pipes@, g0.ports@, x, y));
            self.clear_refs(y, x);
        }
        if let Some(y) = second {
            assert(refers(g0.pipes@, g0.ports@, x, y));
            assert(g0.refers_spec(y, x));
            self.clear_refs(y, x);
        }
        let ghost g1 = *self;
        match x {
            Link::Pipe(k) => self.pipes.set(k, None),
            Link::Port(p) => self.ports.set(p, None),
        }
        proof {
            assert forall|i: int| #[trigger] pipe_live(self.pipes@, i) implies pipe_live(
                g1.pipes@,
                i,
            ) && self.pipes@[i] == g1.pipes@[i] by {}
            assert forall|i: int| #[trigger] port_live(self.ports@, i) implies port_live(
                g1.ports@,
                i,
            ) && self.ports@[i] == g1.ports@[i] by {}
            assert forall|l: Link| #[trigger] self.live(l) == (old(self).live(l) && l != x) by {
                assert(g1.live(l) == g0.live(l));
            }
            assert forall|a: Link, b: Link| #[trigger]
                self.refers_spec(a, b) == (old(self).refers_spec(a, b) && a != x && b != x) by {
                assert(g1.refers_spec(a, b) == (g0.refers_spec(a, b) && !(first == Some(a) && b
                    == x) && !(second == Some(a) && b == x)));
                if b == x && a != x && g0.refers_spec(a, b) {
                    assert(refers(g0.pipes@, g0.ports@, a, b));
                    assert(g0.refers_spec(b, a));
                }
            }
            assert forall|a: Link, b: Link| #[trigger]
                refers(self.pipes@, self.ports@, a, b) implies refers(
                self.pipes@,
                self.ports@,
                b,
                a,
            ) by {
                assert(self.refers_spec(a, b));
                assert(refers(g0.pipes@, g0.ports@, a, b));
                assert(g0.refers_spec(b, a));
                assert(self.refers_spec(b, a));
            }
        }
        proof {
            assert forall|i: int| 0 <= i < self.pipes@.len() implies #[trigger] self.pipes@[i] == if x
                == Link::Pipe(i as usize) {
                None
            } else {
                pipe_without(old(self).pipes@[i], x)
            } by {
                if x != Link::Pipe(i as usize) {
                    if !refers(old(self).pipes@, old(self).ports@, x, Link::Pipe(i as usize)) {
                        assert(first != Some(Link::Pipe(i as usize)));
                        assert(second != Some(Link::Pipe(i as usize)));
                    }
                }
            }
            assert forall|i: int| 0 <= i < self.ports@.len() implies #[trigger] self.ports@[i] == if x
                == Link::Port(i as usize) {
                None
            } else {
                port_without(old(self).ports@[i], x)
            } by {
                if x != Link::Port(i as usize) {
                    if !refers(old(self).pipes@, old(self).ports@, x, Link::Port(i as usize)) {
                        assert(first != Some(Link::Port(i as usize)));
                        assert(second != Some(Link::Port(i as usize)));
                    }
                }
            }
            assert forall|a: Link, b: Link| #[trigger]
                refers(self.pipes@, self.ports@, a, b) implies oriented_pair(
                self.pipes@,
                self.ports@,
                a,
                b,
            ) by {
                assert(self.refers_spec(a, b));
                assert(refers(old(self).pipes@, old(self).ports@, a, b));
                assert(oriented_pair(old(self).pipes@, old(self).ports@, a, b));
                match a {
                    Link::Pipe(k) => assert(self.pipes@[k as int] == pipe_without(old(self).pipes@[k as int], x)),
                    Link::Port(p) => assert(self.ports@[p as int] == port_without(old(self).ports@[p as int], x)),
                }
                match b {
                    Link::Pipe(k) => assert(self.pipes@[k as int] == pipe_without(old(self).pipes@[k as int], x)),
                    Link::Port(p) => assert(self.ports@[p as int] == port_without(old(self).ports@[p as int], x)),
                }
            }
            lemma_placed_kept(self, old(self));
        }
    }

    /// Adds an unconnected pipe on the cell at `pos`, which no live pipe claims, and
    /// queues it for the connection step.
    pub(crate) fn spawn_pipe(&mut self, pos: TileCoords) -> (r: usize)
        requires
            old(self).wf(),
            in_bounds(pos.x as int, pos.y as int),
            old(self).no_live_pipe_at(pos),
        ensures
            final(self).wf(),
            r == old(self).pipes@.len(),
            final(self).pipes@ == old(self).pipes@.push(Some(Pipe { pos, to: None, from: None })),
            final(self).ports@ == old(self).ports@,
            final(self).pending@ == old(self).pending@.push(Link::Pipe(r)),
            final(self).grid.tiles@ == old(self).grid.tiles@,
            final(self).grid.building_spec(pos) == Some(Building::Pipe(r)),
            forall|q: TileCoords|
                q != pos ==> #[trigger] final(self).grid.building_spec(q) == old(
                    self,
                ).grid.building_spec(q),
            final(self).machines@ == old(self).machines@,
            final(self).networks@ == old(self).networks@,
            final(self).invalidations == old(self).invalidations,
            final(self).port_network@ == old(self).port_network@,
            forall|a: Link, b: Link| #[trigger]
                final(self).refers_spec(a, b) == old(self).refers_spec(a, b),
    {
        let r = self.pipes.len();
        self.pipes.push(Some(Pipe { pos, to: None, from: None }));
        self.pipe_network.push(None);
        self.pending.push(Link::Pipe(r));
        let _ = self.grid.insert_building(pos, Building::Pipe(r));
        proof {
            assert forall|a: Link, b: Link| #[trigger]
                refers(self.pipes@, self.ports@, a, b) implies oriented_pair(
                self.pipes@,
                self.ports@,
                a,
                b,
            ) by {
                assert(self.refers_spec(a, b));
                assert(refers(old(self).pipes@, old(self).ports@, a, b));
                assert(refers(old(self).pipes@, old(self).ports@, b, a));
                assert(oriented_pair(old(self).pipes@, old(self).ports@, a, b));
            }
            assert forall|a: Link, b: Link| #[trigger]
                self.refers_spec(a, b) == old(self).refers_spec(a, b) by {
                if old(self).refers_spec(a, b) {
                    assert(refers(old(self).pipes@, old(self).ports@, a, b));
                    assert(old(self).refers_spec(b, a));
                }
            }
            assert forall|a: Link, b: Link| #[trigger]
                refers(self.pipes@, self.ports@, a, b) implies refers(
                self.pipes@,
                self.ports@,
                b,
                a,
            ) by {
                assert(self.refers_spec(a, b));
                assert(refers(old(self).pipes@, old(self).ports@, a, b));
            }
            assert forall|k: usize| #[trigger] pipe_live(self.pipes@, k as int) implies self.grid.building_spec(
                self.pipes@[k as int]->0.pos,
            ) == Some(Building::Pipe(k)) by {
                if k < r {
                    assert(pipe_live(old(self).pipes@, k as int));
                    assert(old(self).live(Link::Pipe(k)));
                }
            }
        }
        r
    }

    /// Adds an unconnected port owned by machine `m` and queues it for the connection step.
    pub(crate) fn spawn_port(&mut self, port: MachinePort, m: usize) -> (r: usize)
        requires
            old(self).wf(),
        ensures
            final(self).wf(),
            r == old(self).ports@.len(),
            final(self).ports@ == old(self).ports@.push(
                Some(MachinePort { connected: None, machine: m, ..port }),
            ),
            final(self).pipes@ == old(self).pipes@,
            final(self).pending@ == old(self).pending@.push(Link::Port(r)),
            final(self).grid == old(self).grid,
            final(self).machines@ == old(self).machines@,
            final(self).networks@ == old(self).networks@,
            final(self).invalidations == old(self).invalidations,
            final(self).pipe_network@ == old(self).pipe_network@,
            forall|a: Link, b: Link| #[trigger]
                final(self).refers_spec(a, b) == old(self).refers_spec(a, b),
    {
        let r = self.ports.len();
        self.ports.push(Some(MachinePort { connected: None, machine: m, ..port }));
        self.port_network.push(None);
        self.pending.push(Link::Port(r));
        proof {
            assert forall|a: Link, b: Link| #[trigger]
                refers(self.pipes@, self.ports@, a, b) implies oriented_pair(
                self.pipes@,
                self.ports@,
                a,
                b,
            ) by {
                assert(self.refers_spec(a, b));
                assert(refers(old(self).pipes@, old(self).ports@, a, b));
                assert(refers(old(self).pipes@, old(self).ports@, b, a));
                assert(oriented_pair(old(self).pipes@, old(self).ports@, a, b));
            }
            assert forall|a: Link, b: Link| #[trigger]
                self.refers_spec(a, b) == old(self).refers_spec(a, b) by {
                if old(self).refers_spec(a, b) {
                    assert(refers(old(self).pipes@, old(self).ports@, a, b));
                    assert(old(self).refers_spec(b, a));
                }
            }
            assert forall|a: Link, b: Link| #[trigger]
                refers(self.pipes@, self.ports@, a, b) implies refers(
                self.pipes@,
                self.ports@,
                b,
                a,
            ) by {
                assert(self.refers_spec(a, b));
                assert(refers(old(self).pipes@, old(self).ports@, a, b));
            }
        }
        r
    }

    /// Adds a machine built from `t` to the arena, with fresh unconnected ports that it
    /// owns, each queued for the connection step. The grid is left to the caller.
    pub fn spawn_machine(&mut self, t: MachineTemplate) -> (r: usize)
        requires
            old(self).wf(),
        ensures
            final(self).pending@ == old(self).pending@ + port_links(old(self).ports@.len() as int, t.ports@.len() as int),
            final(self).wf(),
            r == old(self).machines@.len(),
            final(self).machines@.len() == r + 1,
            final(self).machines@.subrange(0, r as int) == old(self).machines@,
            final(self).machines@[r as int] is Some,
            final(self).machines@[r as int]->0.kind == t.kind,
            final(self).machines@[r as int]->0.pos == t.pos,
            final(self).machines@[r as int]->0.buffer == t.buffer,
            final(self).machines@[r as int]->0.ports@.len() == t.ports@.len(),
            forall|i: int|
                0 <= i < t.ports@.len() ==> {
                    let q = #[trigger] final(self).machines@[r as int]->0.ports@[i];
                    &&& q == old(self).ports@.len() + i
                    &&& final(self).ports@[q as int] == Some(
                        MachinePort { connected: None, machine: r, ..t.ports@[i] },
                    )
                },
            final(self).ports@.len() == old(self).ports@.len() + t.ports@.len(),
            final(self).ports@.subrange(0, old(self).ports@.len() as int) == old(self).ports@,
            final(self).pipes@ == old(self).pipes@,
            final(self).grid == old(self).grid,
            final(self).networks@ == old(self).networks@,
            final(self).invalidations == old(self).invalidations,
            forall|a: Link, b: Link| #[trigger]
                final(self).refers_spec(a, b) == old(self).refers_spec(a, b),
    {
        let m = self.machines.len();
        let mut handles: Vec<usize> = Vec::new();
        let mut i: usize = 0;
        assert(self.pending@ =~= old(self).pending@ + port_links(old(self).ports@.len() as int, 0));
        while i < t.ports.len()
            invariant
                self.wf(),
                m == self.machines@.len(),
                self.machines@ == old(self).machines@,
                i <= t.ports@.len(),
                handles@.len() == i,
                self.ports@.len() == old(self).ports@.len() + i,
                self.ports@.subrange(0, old(self).ports@.len() as int) == old(self).ports@,
                forall|j: int|
                    0 <= j < i ==> {
                        let q = #[trigger] handles@[j];
                        &&& q == old(self).ports@.len() + j
                        &&& self.ports@[q as int] == Some(
                            MachinePort { connected: None, machine: m, ..t.ports@[j] },
                        )
                    },
                self.pipes@ == old(self).pipes@,
                self.grid == old(self).grid,
                self.networks@ == old(self).networks@,
                self.invalidations == old(self).invalidations,
                forall|a: Link, b: Link| #[trigger]
                    self.refers_spec(a, b) == old(self).refers_spec(a, b),
                self.pending@ == old(self).pending@ + port_links(old(self).ports@.len() as int, i as int),
            decreases t.ports@.len() - i,
        {
            let ghost before_pending = self.pending@;
            let q = self.spawn_port(t.ports[i], m);
            assert(self.pending@ =~= old(self).pending@ + port_links(old(self).ports@.len() as int, i + 1));
            handles.push(q);
            i = i + 1;
        }
        let ghost before = *self;
        self.machines.push(Some(Machine { kind: t.kind, pos: t.pos, buffer: t.buffer, ports: handles }));
        assert forall|a: Link, b: Link| #[trigger]
            self.refers_spec(a, b) == old(self).refers_spec(a, b) by {
            assert(self.refers_spec(a, b) == before.refers_spec(a, b));
        }
        m
    }

    /// What stands on the cell that port `p` faces, when `p` is live and free and its
    /// machine is live and placed.
    pub open spec fn port_target(&self, p: usize) -> Option<Building> {
        let port = self.ports@[p as int]->0;
        let m = port.machine as int;
        if port_live(self.ports@, p as int) && port.connected is None && 0 <= m
            < self.machines@.len() && self.machines@[m] is Some && self.machines@[m]->0.pos is Some {
            let n = self.machines@[m]->0.pos->0.neighbor_spec(port.side);
            if in_bounds(n.0, n.1) {
                self.grid.buildings@[cell_index(n.0, n.1)]
            } else {
                None
            }
        } else {
            None
        }
    }

    /// Port `q` can pair with port `p`: another free live port on the facing side,
    /// with the other flow.
    pub open spec fn ports_pair(&self, p: usize, q: usize) -> bool {
        &&& q != p
        &&& port_live(self.ports@, q as int)
        &&& self.ports@[q as int]->0.side == self.ports@[p as int]->0.side.flip_spec()
        &&& self.ports@[q as int]->0.flow != self.ports@[p as int]->0.flow
        &&& self.ports@[q as int]->0.connected is None
    }

    /// Pipe `k` has the free slot that port `p` needs: `to` for an inlet, `from` for an outlet.
    pub open spec fn pipe_slot_free(&self, k: usize, p: usize) -> bool {
        &&& pipe_live(self.pipes@, k as int)
        &&& match self.ports@[p as int]->0.flow {
            FlowDirection::Inlet => self.pipes@[k as int]->0.to is None,
            FlowDirection::Outlet => self.pipes@[k as int]->0.from is None,
        }
    }

    /// `l` is a partner that the connection step may link with port `p`.
    pub open spec fn port_fits(&self, p: usize, l: Link) -> bool {
        match self.port_target(p) {
            Some(Building::Machine(m2)) => match l {
                Link::Port(q) => 0 <= m2 < self.machines@.len() && self.machines@[m2 as int] is Some
                    && self.machines@[m2 as int]->0.ports@.contains(q) && self.ports_pair(p, q),
                Link::Pipe(_) => false,
            },
            Some(Building::Pipe(k)) => l == Link::Pipe(k) && self.pipe_slot_free(k, p),
            None => false,
        }
    }

    /// The first port of machine `m2` that can pair with port `p`.
    fn find_pair(&self, m2: usize, p: usize) -> (r: Option<usize>)
        requires
            port_live(self.ports@, p as int),
            m2 < self.machines@.len(),
            self.machines@[m2 as int] is Some,
        ensures
            r matches Some(q) ==> self.machines@[m2 as int]->0.ports@.contains(q)
                && self.ports_pair(p, q),
            r is None ==> forall|q: usize|
                self.machines@[m2 as int]->0.ports@.contains(q) ==> !self.ports_pair(p, q),
    {
        let port = self.ports[p].unwrap();
        match &self.machines[m2] {
            Some(mach) => {
                let mut i: usize = 0;
                while i < mach.ports.len()
                    invariant
                        i <= mach.ports@.len(),
                        self.machines@[m2 as int] == Some(*mach),
                        port == self.ports@[p as int]->0,
                        forall|j: int| 0 <= j < i ==> !self.ports_pair(p, #[trigger] mach.ports@[j]),
                    decreases mach.ports@.len() - i,
                {
                    let q = mach.ports[i];
                    if q != p && q < self.ports.len() {
                        if let Some(other) = self.ports[q] {
                            if other.side == port.side.flip() && other.flow != port.flow
                                && other.connected.is_none() {
                                return Some(q);
                            }
                        }
                    }
                    i = i + 1;
                }
                None
            },
            None => None,
        }
    }

    /// The connection step for a port: links live, free port `p` with the partner on the
    /// cell it faces (a port of the machine there, or the pipe there) and returns that
    /// partner; returns `None`, changing nothing, where there is none.
    pub fn connect_port(&mut self, p: usize) -> (r: Option<Link>)
        requires
            old(self).wf(),
        ensures
            final(self).wf(),
            final(self).same_frame(old(self)),
            forall|l: Link| #[trigger] final(self).live(l) == old(self).live(l),
            r matches Some(l) ==> old(self).port_fits(p, l),
            r matches Some(l) ==> forall|a: Link, b: Link| #[trigger]
                final(self).refers_spec(a, b) == (old(self).refers_spec(a, b) || (a == Link::Port(
                    p,
                ) && b == l) || (a == l && b == Link::Port(p))),
            r is None ==> forall|l: Link| !old(self).port_fits(p, l),
            r is None ==> final(self).pipes@ == old(self).pipes@ && final(self).ports@ == old(self).ports@,
            r matches Some(Link::Pipe(k)) ==> {
                &&& final(self).pipes@ == old(self).pipes@.update(
                    k as int,
                    Some(
                        if old(self).ports@[p as int]->0.flow == FlowDirection::Inlet {
                            Pipe { to: Some(Link::Port(p)), ..old(self).pipes@[k as int]->0 }
                        } else {
                            Pipe { from: Some(Link::Port(p)), ..old(self).pipes@[k as int]->0 }
                        },
                    ),
                )
                &&& final(self).ports@ == old(self).ports@.update(
                    p as int,
                    Some(MachinePort { connected: Some(Link::Pipe(k)), ..old(self).ports@[p as int]->0 }),
                )
            },
            r matches Some(Link::Port(q)) ==> {
                &&& final(self).pipes@ == old(self).pipes@
                &&& final(self).ports@ == old(self).ports@.update(
                    p as int,
                    Some(MachinePort { connected: Some(Link::Port(q)), ..old(self).ports@[p as int]->0 }),
                ).update(
                    q as int,
                    Some(MachinePort { connected: Some(Link::Port(p)), ..old(self).ports@[q as int]->0 }),
                )
            },
            r is None ==> forall|a: Link, b: Link| #[trigger]
                final(self).refers_spec(a, b) == old(self).refers_spec(a, b),
    {
        if p >= self.ports.len() || self.ports[p].is_none() {
            return None;
        }
        let port = self.ports[p].unwrap();
        if port.connected.is_some() {
            return None;
        }
        let m = port.machine;
        if m >= self.machines.len() {
            return None;
        }
        let pos = match &self.machines[m] {
            Some(mach) => match mach.pos {
                Some(c) => c,
                None => {
                    return None;
                },
            },
            None => {
                return None;
            },
        };
        let n = match pos.neighbor(port.side) {
            Some(n) => n,
            None => {
                return None;
            },
        };
        assert(self.port_target(p) == self.grid.building_spec(n));
        match self.grid.get_building(n) {
            Some(Building::Machine(m2)) => {
                if m2 >= self.machines.len() || self.machines[m2].is_none() {
                    return None;
                }
                match self.find_pair(m2, p) {
                    Some(q) => {
                        self.link_ports(p, q);
                        Some(Link::Port(q))
                    },
                    None => None,
                }
            },
            Some(Building::Pipe(k)) => {
                if k >= self.pipes.len() || self.pipes[k].is_none() {
                    return None;
                }
                let pipe = self.pipes[k].unwrap();
                match port.flow {
                    FlowDirection::Inlet => {
                        if pipe.to.is_none() {
                            self.link_pipe_port(k, p, true);
                            Some(Link::Pipe(k))
                        } else {
                            None
                        }
                    },
                    FlowDirection::Outlet => {
                        if pipe.from.is_none() {
                            self.link_pipe_port(k, p, false);
                            Some(Link::Pipe(k))
                        } else {
                            None
                        }
                    },
                }
            },
            None => None,
        }
    }

    /// `l` stands next to pipe `k`: the pipe on a neighbouring cell, or a port on
    /// the side of a neighbouring machine that faces `k`.
    pub open spec fn adjacent_to_pipe(&self, k: usize, l: Link) -> bool {
        exists|d: Direction|
            {
                let n = #[trigger] self.pipes@[k as int]->0.pos.neighbor_spec(d);
                &&& in_bounds(n.0, n.1)
                &&& match self.grid.buildings@[cell_index(n.0, n.1)] {
                    Some(Building::Pipe(j)) => l == Link::Pipe(j),
                    Some(Building::Machine(m2)) => match l {
                        Link::Port(q) => 0 <= m2 < self.machines@.len() && self.machines@[m2 as int] is Some
                            && self.machines@[m2 as int]->0.ports@.contains(q) && port_live(
                            self.ports@,
                            q as int,
                        ) && self.ports@[q as int]->0.side == d.flip_spec(),
                        Link::Pipe(_) => false,
                    },
                    None => false,
                }
            }
    }

    /// `a` and `b` hold the same references.
    pub open spec fn same_links(a: &Factory, b: &Factory) -> bool {
        forall|x: Link, y: Link| #[trigger] a.refers_spec(x, y) == b.refers_spec(x, y)
    }

    /// Compared with `before`, exactly one reciprocal pair has been linked: `x` with `l`.
    pub open spec fn one_new_link(&self, before: &Factory, x: Link, l: Link) -> bool {
        &&& !before.refers_spec(x, l)
        &&& forall|a: Link, b: Link| #[trigger]
            self.refers_spec(a, b) == (before.refers_spec(a, b) || (a == x && b == l) || (a == l
                && b == x))
    }

    /// The link between pipe `k` and `l` uses the slots that the connection rule names:
    /// with a pipe `j`, `k.to` and `j.from` where both were free in `before`, else
    /// `k.from` and `j.to`; with a port, `k.to` for an inlet and `k.from` for an outlet.
    pub open spec fn link_oriented(&self, before: &Factory, k: usize, l: Link) -> bool {
        match l {
            Link::Pipe(j) => if before.pipes@[k as int]->0.to is None && before.pipes@[j as int]->0.from
                is None {
                self.pipes@[k as int]->0.to == Some(Link::Pipe(j)) && self.pipes@[j as int]->0.from
                    == Some(Link::Pipe(k))
            } else {
                self.pipes@[k as int]->0.from == Some(Link::Pipe(j)) && self.pipes@[j as int]->0.to
                    == Some(Link::Pipe(k))
            },
            Link::Port(q) => self.ports@[q as int]->0.connected == Some(Link::Pipe(k)) && if self.ports@[
                q as int]->0.flow == FlowDirection::Inlet {
                self.pipes@[k as int]->0.to == Some(Link::Port(q))
            } else {
                self.pipes@[k as int]->0.from == Some(Link::Port(q))
            },
        }
    }

    /// Pipe `k` and pipe `j` could still be linked: `k.to` and `j.from` are free, or
    /// `k.from` and `j.to` are.
    pub open spec fn pipes_fit(&self, k: usize, j: usize) -> bool {
        (self.pipes@[k as int]->0.to is None && self.pipes@[j as int]->0.from is None) || (
        self.pipes@[k as int]->0.from is None && self.pipes@[j as int]->0.to is None)
    }

    /// Pipe `k` and port `q` could still be linked: `q` is free, and `k` has the free
    /// slot its flow needs (`to` for an inlet, `from` for an outlet).
    pub open spec fn pipe_port_fit(&self, k: usize, q: usize) -> bool {
        let port = self.ports@[q as int]->0;
        &&& port.connected is None
        &&& ((self.pipes@[k as int]->0.to is None && port.flow == FlowDirection::Inlet) || (
        self.pipes@[k as int]->0.from is None && port.flow == FlowDirection::Outlet))
    }

    /// Port `q` is a live port of machine `m2` on the side that faces direction `d`.
    pub open spec fn facing_port(&self, m2: usize, d: Direction, q: usize) -> bool {
        &&& self.machines@[m2 as int]->0.ports@.contains(q)
        &&& port_live(self.ports@, q as int)
        &&& self.ports@[q as int]->0.side == d.flip_spec()
    }

    /// Nothing in direction `d` of pipe `k` is left that could be linked with it: the
    /// pipe there is linked with `k` or has no fitting slot, and the machine there has a
    /// facing port linked with `k` or none that fits.
    pub open spec fn saturated_toward(&self, k: usize, d: Direction) -> bool {
        let n = self.pipes@[k as int]->0.pos.neighbor_spec(d);
        in_bounds(n.0, n.1) ==> match self.grid.buildings@[cell_index(n.0, n.1)] {
            Some(Building::Pipe(j)) => j == k || !pipe_live(self.pipes@, j as int)
                || self.refers_spec(Link::Pipe(k), Link::Pipe(j)) || !self.pipes_fit(k, j),
            Some(Building::Machine(m2)) => !(0 <= m2 < self.machines@.len()
                && self.machines@[m2 as int] is Some) || (exists|q: usize| #[trigger]
                self.facing_port(m2, d, q) && self.refers_spec(Link::Pipe(k), Link::Port(q))) || (
            forall|q: usize| #[trigger] self.facing_port(m2, d, q) ==> !self.pipe_port_fit(k, q)),
            None => true,
        }
    }

    /// The first port of machine `m2` facing direction `d` that can be linked with pipe `k`.
    fn find_fitting_port(&self, m2: usize, d: Direction, k: usize) -> (r: Option<usize>)
        requires
            m2 < self.machines@.len(),
            self.machines@[m2 as int] is Some,
            pipe_live(self.pipes@, k as int),
        ensures
            r matches Some(q) ==> self.facing_port(m2, d, q) && self.pipe_port_fit(k, q),
            r is None ==> forall|q: usize| #[trigger]
                self.facing_port(m2, d, q) ==> !self.pipe_port_fit(k, q),
    {
        let pipe = self.pipes[k].unwrap();
        let side = d.flip();
        match &self.machines[m2] {
            Some(mach) => {
                let mut i: usize = 0;
                while i < mach.ports.len()
                    invariant
                        i <= mach.ports@.len(),
                        m2 < self.machines@.len(),
                        self.machines@[m2 as int] == Some(*mach),
                        pipe == self.pipes@[k as int]->0,
                        side == d.flip_spec(),
                        forall|j: int|
                            0 <= j < i ==> !(self.facing_port(m2, d, #[trigger] mach.ports@[j])
                                && self.pipe_port_fit(k, mach.ports@[j])),
                    decreases mach.ports@.len() - i,
                {
                    let q = mach.ports[i];
                    proof {
                        assert(mach.ports@.contains(q)) by {
                            assert(mach.ports@[i as int] == q);
                        }
                    }
                    if q < self.ports.len() {
                        if let Some(port) = self.ports[q] {
                            if port.side == side && port.connected.is_none() && ((pipe.to.is_none()
                                && port.flow == FlowDirection::Inlet) || (pipe.from.is_none()
                                && port.flow == FlowDirection::Outlet)) {
                                return Some(q);
                            }
                        }
                    }
                    i = i + 1;
                }
                proof {
                    assert forall|q: usize| #[trigger]
                        self.facing_port(m2, d, q) implies !self.pipe_port_fit(k, q) by {
                        let j = choose|j: int| 0 <= j < mach.ports@.len() && mach.ports@[j] == q;
                        assert(mach.ports@[j] == q);
                    }
                }
                None
            },
            None => None,
        }
    }

    /// The connection step of pipe `k` toward direction `d`; see `pipe_connect`.
    fn connect_toward(&mut self, k: usize, dir: Direction) -> (linked: bool)
        requires
            old(self).wf(),
            pipe_live(old(self).pipes@, k as int),
        ensures
            linked <==> exists|a: Link, b: Link| #[trigger] final(self).refers_spec(a, b) && !old(self).refers_spec(a, b),
            final(self).wf(),
            final(self).same_frame(old(self)),
            final(self).slots_kept(old(self)),
            pipe_live(final(self).pipes@, k as int),
            forall|l: Link| #[trigger] final(self).live(l) == old(self).live(l),
            forall|a: Link, b: Link|
                old(self).refers_spec(a, b) ==> #[trigger] final(self).refers_spec(a, b),
            forall|a: Link, b: Link| #[trigger]
                final(self).refers_spec(a, b) && !old(self).refers_spec(a, b) ==> (a == Link::Pipe(
                    k,
                ) && final(self).adjacent_to_pipe(k, b)) || (b == Link::Pipe(k)
                    && final(self).adjacent_to_pipe(k, a)),
            final(self).saturated_toward(k, dir),
            !linked ==> *final(self) == *old(self),
            linked ==> exists|l: Link| #[trigger]
                final(self).one_new_link(old(self), Link::Pipe(k), l) && final(self).adjacent_to_pipe(
                    k,
                    l,
                ) && final(self).link_oriented(old(self), k, l),
    {
        let pipe = self.pipes[k].unwrap();
        assert(self.live(Link::Pipe(k)));
        let n = match pipe.pos.neighbor(dir) {
            Some(n) => n,
            None => {
                return false;
            },
        };
        let ghost prev = *self;
        let ghost n2 = pipe.pos.neighbor_spec(dir);
        assert(n2.0 == n.x && n2.1 == n.y);
        match self.grid.get_building(n) {
            Some(Building::Machine(m2)) => {
                if m2 >= self.machines.len() || self.machines[m2].is_none() {
                    return false;
                }
                match self.find_fitting_port(m2, dir, k) {
                    Some(q) => {
                        let to = self.ports[q].unwrap().flow == FlowDirection::Inlet;
                        proof {
                            assert(!prev.refers_spec(Link::Pipe(k), Link::Port(q))) by {
                                if prev.refers_spec(Link::Pipe(k), Link::Port(q)) {
                                    assert(refers(prev.pipes@, prev.ports@, Link::Pipe(k), Link::Port(q)));
                                }
                            }
                        }
                        self.link_pipe_port(k, q, to);
                        proof {
                            assert(self.live(Link::Pipe(k)) && self.live(Link::Port(q)));
                            assert(self.refers_spec(Link::Pipe(k), Link::Port(q)));
                            assert(self.adjacent_to_pipe(k, Link::Port(q))) by {
                                assert(self.pipes@[k as int]->0.pos.neighbor_spec(dir) == n2);
                                assert(self.grid.buildings@[cell_index(n2.0, n2.1)] == Some(
                                    Building::Machine(m2),
                                ));
                            }
                            assert(self.facing_port(m2, dir, q));
                            assert(self.one_new_link(old(self), Link::Pipe(k), Link::Port(q)));
                            assert(self.link_oriented(old(self), k, Link::Port(q)));
                            assert forall|a: Link, b: Link| #[trigger]
                                self.refers_spec(a, b) && !old(self).refers_spec(a, b) implies (a
                                == Link::Pipe(k) && self.adjacent_to_pipe(k, b)) || (b == Link::Pipe(
                                k,
                            ) && self.adjacent_to_pipe(k, a)) by {}
                        }
                        true
                    },
                    None => false,
                }
            },
            Some(Building::Pipe(j)) => {
                if j == k || j >= self.pipes.len() || self.pipes[j].is_none() {
                    return false;
                }
                let other = self.pipes[j].unwrap();
                if pipe.to == Some(Link::Pipe(j)) || pipe.from == Some(Link::Pipe(j)) {
                    return false;
                }
                let forward = pipe.to.is_none() && other.from.is_none();
                let backward = pipe.from.is_none() && other.to.is_none();
                if !forward && !backward {
                    return false;
                }
                if forward {
                    self.link_pipes(k, j);
                } else {
                    self.link_pipes(j, k);
                }
                proof {
                    assert(self.live(Link::Pipe(k)));
                    assert(self.refers_spec(Link::Pipe(k), Link::Pipe(j)));
                    assert(!prev.refers_spec(Link::Pipe(k), Link::Pipe(j)));
                    assert(self.one_new_link(old(self), Link::Pipe(k), Link::Pipe(j)));
                    assert(self.link_oriented(old(self), k, Link::Pipe(j)));
                    assert(self.adjacent_to_pipe(k, Link::Pipe(j))) by {
                        assert(self.pipes@[k as int]->0.pos.neighbor_spec(dir) == n2);
                        assert(self.grid.buildings@[cell_index(n2.0, n2.1)] == Some(
                            Building::Pipe(j),
                        ));
                    }
                    assert forall|a: Link, b: Link| #[trigger]
                        self.refers_spec(a, b) && !old(self).refers_spec(a, b) implies (a
                        == Link::Pipe(k) && self.adjacent_to_pipe(k, b)) || (b == Link::Pipe(k)
                        && self.adjacent_to_pipe(k, a)) by {}
                }
                true
            },
            None => false,
        }
    }

    /// The connection step for a pipe, one link at a time: in the directions right, up,
    /// left, down, links pipe `k` with the first thing on a neighbouring cell that fits a
    /// free slot (the first port of a machine there that faces `k`: an inlet takes `to`,
    /// an outlet `from`; or a pipe not yet linked with `k`: `k.to` with its `from`, else
    /// `k.from` with its `to`) and returns `true`. Returns `false`, changing nothing,
    /// where nothing around `k` is left that could be linked.
    pub fn pipe_connect(&mut self, k: usize) -> (linked: bool)
        requires
            old(self).wf(),
        ensures
            final(self).wf(),
            final(self).same_frame(old(self)),
            final(self).slots_kept(old(self)),
            forall|l: Link| #[trigger] final(self).live(l) == old(self).live(l),
            linked ==> exists|l: Link| #[trigger]
                final(self).one_new_link(old(self), Link::Pipe(k), l) && final(self).adjacent_to_pipe(
                    k,
                    l,
                ) && final(self).link_oriented(old(self), k, l),
            !linked ==> *final(self) == *old(self),
            !linked && pipe_live(old(self).pipes@, k as int) ==> forall|d: Direction|
                #[trigger] final(self).saturated_toward(k, d),
    {
        if k >= self.pipes.len() || self.pipes[k].is_none() {
            return false;
        }
        let dirs = Direction::iter();
        let mut i: usize = 0;
        while i < 4
            invariant
                0 <= i <= 4,
                dirs@ == Direction::all_spec(),
                *self == *old(self),
                self.wf(),
                pipe_live(self.pipes@, k as int),
                forall|j: int| 0 <= j < i ==> self.saturated_toward(k, #[trigger] dirs@[j]),
            decreases 4 - i,
        {
            if self.connect_toward(k, dirs[i]) {
                return true;
            }
            i = i + 1;
        }
        proof {
            assert forall|d: Direction| #[trigger] self.saturated_toward(k, d) by {
                match d {
                    Direction::Right => assert(dirs@[0] == d),
                    Direction::Up => assert(dirs@[1] == d),
                    Direction::Left => assert(dirs@[2] == d),
                    Direction::Down => assert(dirs@[3] == d),
                }
            }
        }
        false
    }

    /// The invalidation count after one more signal (it stops at `u64::MAX`).
    pub open spec fn bumped(n: u64) -> u64 {
        if n < u64::MAX {
            (n + 1) as u64
        } else {
            n
        }
    }

    /// Raises the invalidation signal: the networks must be rebuilt.
    pub fn invalidate(&mut self)
        ensures
            final(self).invalidations == Self::bumped(old(self).invalidations),
            final(self).grid == old(self).grid,
            final(self).pipes@ == old(self).pipes@,
            final(self).ports@ == old(self).ports@,
            final(self).machines@ == old(self).machines@,
            final(self).networks@ == old(self).networks@,
            final(self).port_network@ == old(self).port_network@,
            final(self).pipe_network@ == old(self).pipe_network@,
            final(self).pending@ == old(self).pending@,
    {
        self.invalidations = self.invalidations.saturating_add(1);
    }

    /// Runs the connection step for the oldest queued port or pipe and hands it back. A
    /// step makes at most one link, so that pieces placed together are linked in turn; a
    /// pipe that got a link goes back to the end of the queue, to be tried again until
    /// nothing around it is left to link. A link raises an invalidation.
    #[verifier::rlimit(50)]
    pub fn connect_step(&mut self) -> (r: Option<Link>)
        requires
            old(self).wf(),
        ensures
            final(self).wf(),
            r == if old(self).pending@.len() > 0 {
                Some(old(self).pending@[0])
            } else {
                None
            },
            old(self).pending@.len() == 0 ==> *final(self) == *old(self),
            final(self).grid == old(self).grid,
            final(self).machines@ == old(self).machines@,
            forall|l: Link| #[trigger] final(self).live(l) == old(self).live(l),
            forall|a: Link, b: Link|
                old(self).refers_spec(a, b) ==> #[trigger] final(self).refers_spec(a, b),
            final(self).invalidations == if Self::same_links(final(self), old(self)) {
                old(self).invalidations
            } else {
                Self::bumped(old(self).invalidations)
            },
            old(self).pending@.len() > 0 ==> match old(self).pending@[0] {
                Link::Port(p) => {
                    &&& final(self).pending@ == old(self).pending@.drop_first()
                    &&& if exists|l: Link| old(self).port_fits(p, l) {
                        exists|l: Link| #[trigger]
                            old(self).port_fits(p, l) && final(self).one_new_link(
                                old(self),
                                Link::Port(p),
                                l,
                            )
                    } else {
                        Self::same_links(final(self), old(self))
                    }
                },
                Link::Pipe(k) => {
                    ||| (exists|l: Link| #[trigger]
                        final(self).one_new_link(old(self), Link::Pipe(k), l)
                            && final(self).adjacent_to_pipe(k, l) && final(self).link_oriented(
                            old(self),
                            k,
                            l,
                        )) && final(self).pending@ == old(self).pending@.drop_first().push(
                        Link::Pipe(k),
                    )
                    ||| Self::same_links(final(self), old(self)) && final(self).pending@ == old(
                        self,
                    ).pending@.drop_first() && (pipe_live(old(self).pipes@, k as int) ==> forall|
                        d: Direction,
                    | #[trigger] final(self).saturated_toward(k, d))
                },
            },
    {
        if self.pending.len() == 0 {
            return None;
        }
        let x = self.pending.remove(0);
        let ghost mid = *self;
        assert forall|a: Link, b: Link| #[trigger] mid.refers_spec(a, b) == old(self).refers_spec(a, b) by {}
        assert forall|l: Link| #[trigger] mid.live(l) == old(self).live(l) by {}
        assert(forall|p: usize, l: Link| #[trigger] mid.port_fits(p, l) == old(self).port_fits(p, l));
        let ghost mut found: Option<Link> = None;
        let linked = match x {
            Link::Port(p) => {
                let r = self.connect_port(p);
                proof {
                    found = r;
                    if let Some(l) = r {
                        assert(!mid.refers_spec(Link::Port(p), l)) by {
                            if mid.refers_spec(Link::Port(p), l) {
                                assert(mid.ports@[p as int]->0.connected == Some(l));
                            }
                        }
                        assert(self.one_new_link(&mid, Link::Port(p), l));
                    }
                }
                r.is_some()
            },
            Link::Pipe(k) => self.pipe_connect(k),
        };
        let ghost after = *self;
        if linked {
            self.invalidate();
            if let Link::Pipe(k) = x {
                self.pending.push(Link::Pipe(k));
            }
        }
        proof {
            assert(forall|a: Link, b: Link| #[trigger] self.refers_spec(a, b) == after.refers_spec(a, b));
            assert(forall|l: Link| #[trigger] self.live(l) == after.live(l));
            assert(forall|k: usize, l: Link| #[trigger] self.adjacent_to_pipe(k, l) == after.adjacent_to_pipe(k, l));
            assert(forall|k: usize, l: Link| #[trigger] self.link_oriented(old(self), k, l) == after.link_oriented(&mid, k, l));
            assert(mid.pending@ =~= old(self).pending@.drop_first());
            if linked {
                let l = match x {
                    Link::Port(_) => found->0,
                    Link::Pipe(k) => choose|l: Link| #[trigger]
                        after.one_new_link(&mid, Link::Pipe(k), l) && after.adjacent_to_pipe(k, l)
                            && after.link_oriented(&mid, k, l),
                };
                assert(after.one_new_link(&mid, x, l));
                assert(self.one_new_link(old(self), x, l));
                assert(!Self::same_links(self, old(self))) by {
                    assert(self.refers_spec(x, l) && !old(self).refers_spec(x, l));
                }
                if let Link::Port(p) = x {
                    assert(old(self).port_fits(p, l));
                }
            } else {
                assert(*self == after);
                assert(Self::same_links(self, old(self)));
                if let Link::Port(p) = x {
                    assert forall|l: Link| !old(self).port_fits(p, l) by {
                        assert(!mid.port_fits(p, l));
                    }
                }
            }
        }
        Some(x)
    }

    /// Whether a building may go on `pos`: the tile is buildable and nothing stands on it.
    pub open spec fn can_build_spec(&self, pos: TileCoords) -> bool {
        self.grid.tile_spec(pos) && self.grid.building_spec(pos) is None
    }

    pub fn can_build(&self, pos: TileCoords) -> (r: bool)
        requires
            self.wf(),
        ensures
            r == self.can_build_spec(pos),
    {
        self.grid.get_tile(pos) && self.grid.get_building(pos).is_none()
    }

    /// Draws a pipe on `pos` where a building may go there; refuses (changing nothing)
    /// on any other cell, so a building is never overwritten.
    pub fn place_pipe(&mut self, pos: TileCoords) -> (r: Option<usize>)
        requires
            old(self).wf(),
        ensures
            final(self).wf(),
            r is Some <==> old(self).can_build_spec(pos),
            r is None ==> *final(self) == *old(self),
            r matches Some(k) ==> {
                &&& k == old(self).pipes@.len()
                &&& final(self).pipes@ == old(self).pipes@.push(
                    Some(Pipe { pos, to: None, from: None }),
                )
                &&& final(self).grid.building_spec(pos) == Some(Building::Pipe(k))
                &&& forall|q: TileCoords|
                    q != pos ==> #[trigger] final(self).grid.building_spec(q)
                        == old(self).grid.building_spec(q)
                &&& final(self).pending@ == old(self).pending@.push(Link::Pipe(k))
                &&& final(self).grid.tiles@ == old(self).grid.tiles@
                &&& final(self).machines@ == old(self).machines@
                &&& final(self).ports@ == old(self).ports@
                &&& final(self).networks@ == old(self).networks@
                &&& final(self).port_network@ == old(self).port_network@
                &&& final(self).invalidations == Self::bumped(old(self).invalidations)
                &&& forall|a: Link, b: Link| #[trigger]
                    final(self).refers_spec(a, b) == old(self).refers_spec(a, b)
            },
    {
        if !self.can_build(pos) {
            return None;
        }
        let k = self.spawn_pipe(pos);
        let ghost mid = *self;
        self.invalidate();
        assert(forall|a: Link, b: Link| #[trigger] self.refers_spec(a, b) == mid.refers_spec(a, b));
        Some(k)
    }

    /// Removes the pipe standing on `pos`, clearing its partners' slots; returns
    /// whether there was one. Machines are left alone.
    pub fn remove_pipe_at(&mut self, pos: TileCoords) -> (r: bool)
        requires
            old(self).wf(),
        ensures
            final(self).wf(),
            r <==> old(self).grid.building_spec(pos) matches Some(Building::Pipe(_)),
            !r ==> *final(self) == *old(self),
            r ==> {
                let k = old(self).grid.building_spec(pos)->0->Pipe_0;
                &&& final(self).grid.building_spec(pos) is None
                &&& forall|l: Link| #[trigger] final(self).live(l) == (old(self).live(l) && l != Link::Pipe(k))
                &&& forall|a: Link, b: Link| #[trigger]
                    final(self).refers_spec(a, b) == (old(self).refers_spec(a, b) && a != Link::Pipe(k) && b != Link::Pipe(k))
                &&& final(self).invalidations == Self::bumped(old(self).invalidations)
                &&& forall|q: TileCoords|
                    q != pos ==> #[trigger] final(self).grid.building_spec(q)
                        == old(self).grid.building_spec(q)
                &&& final(self).grid.tiles@ == old(self).grid.tiles@
                &&& final(self).machines@ == old(self).machines@
                &&& final(self).pipes@.len() == old(self).pipes@.len()
                &&& final(self).ports@.len() == old(self).ports@.len()
                &&& forall|i: int|
                    0 <= i < old(self).pipes@.len() ==> #[trigger] final(self).pipes@[i] == if i == k {
                        None
                    } else {
                        pipe_without(old(self).pipes@[i], Link::Pipe(k))
                    }
                &&& forall|i: int|
                    0 <= i < old(self).ports@.len() ==> #[trigger] final(self).ports@[i]
                        == port_without(old(self).ports@[i], Link::Pipe(k))
            },
    {
        match self.grid.get_building(pos) {
            Some(Building::Pipe(k)) => {
                let np = self.pipes.len();
                self.despawn_link(Link::Pipe(k));
                let ghost mid = *self;
                proof {
                    assert forall|i: int| 0 <= i < np implies #[trigger] mid.pipes@[i] == if i == k {
                        None
                    } else {
                        pipe_without(old(self).pipes@[i], Link::Pipe(k))
                    } by {
                        assert((Link::Pipe(k) == Link::Pipe(i as usize)) == (i == k));
                    }
                }
                let _ = self.grid.remove_building(pos);
                self.invalidate();
                assert(forall|a: Link, b: Link| #[trigger]
                    self.refers_spec(a, b) == mid.refers_spec(a, b));
                assert(forall|l: Link| #[trigger] self.live(l) == mid.live(l));
                assert forall|j: usize| #[trigger] pipe_live(self.pipes@, j as int) implies self.grid.building_spec(
                    self.pipes@[j as int]->0.pos,
                ) == Some(Building::Pipe(j)) by {
                    assert(mid.live(Link::Pipe(j)));
                    assert(mid.grid.building_spec(mid.pipes@[j as int]->0.pos) == Some(Building::Pipe(j)));
                }
                true
            },
            _ => false,
        }
    }

    /// Adds the machine of template `t` and puts it on the cell `t.pos`, which no live
    /// pipe claims, whatever else stood there; for laying out fixed machines, not for
    /// player placement.
    fn insert_machine(&mut self, t: MachineTemplate) -> (r: usize)
        requires
            old(self).wf(),
            t.pos is Some,
            in_bounds(t.pos->0.x as int, t.pos->0.y as int),
            old(self).no_live_pipe_at(t.pos->0),
        ensures
            final(self).pending@ == old(self).pending@ + port_links(old(self).ports@.len() as int, t.ports@.len() as int),
            final(self).grid.tiles@ == old(self).grid.tiles@,
            final(self).networks@ == old(self).networks@,
            final(self).ports@.len() == old(self).ports@.len() + t.ports@.len(),
            final(self).ports@.subrange(0, old(self).ports@.len() as int) == old(self).ports@,
            final(self).pipes@ == old(self).pipes@,
            forall|i: int|
                0 <= i < t.ports@.len() ==> {
                    let q = #[trigger] final(self).machines@[r as int]->0.ports@[i];
                    &&& q == old(self).ports@.len() + i
                    &&& final(self).ports@[q as int] == Some(
                        MachinePort { connected: None, machine: r, ..t.ports@[i] },
                    )
                },
            final(self).machines@[r as int]->0.ports@.len() == t.ports@.len(),
            final(self).wf(),
            r == old(self).machines@.len(),
            final(self).machines@.len() == r + 1,
            final(self).machines@.subrange(0, r as int) == old(self).machines@,
            final(self).machines@[r as int] is Some,
            final(self).machines@[r as int]->0.kind == t.kind,
            final(self).machines@[r as int]->0.pos == t.pos,
            final(self).machines@[r as int]->0.buffer == t.buffer,
            final(self).grid.building_spec(t.pos->0) == Some(Building::Machine(r)),
            forall|q: TileCoords|
                q != t.pos->0 ==> #[trigger] final(self).grid.building_spec(q)
                    == old(self).grid.building_spec(q),
            forall|q: TileCoords| #[trigger]
                final(self).grid.tile_spec(q) == old(self).grid.tile_spec(q),
            final(self).pipes@ == old(self).pipes@,
            final(self).invalidations == old(self).invalidations,
            forall|a: Link, b: Link| #[trigger]
                final(self).refers_spec(a, b) == old(self).refers_spec(a, b),
    {
        let pos = t.pos.unwrap();
        let m = self.spawn_machine(t);
        let ghost mid = *self;
        let _ = self.grid.insert_building(pos, Building::Machine(m));
        proof {
            assert(forall|a: Link, b: Link| #[trigger]
                self.refers_spec(a, b) == mid.refers_spec(a, b));
            assert forall|k: usize| #[trigger] pipe_live(self.pipes@, k as int) implies self.grid.building_spec(
                self.pipes@[k as int]->0.pos,
            ) == Some(Building::Pipe(k)) by {
                assert(pipe_live(mid.pipes@, k as int));
                assert(mid.live(Link::Pipe(k)));
                assert(old(self).live(Link::Pipe(k)));
            }
        }
        m
    }

    /// Drops the machine of template `t` on `pos` where a building may go there (the
    /// template's own position is replaced); refuses, changing nothing, anywhere else.
    pub fn place_machine(&mut self, t: MachineTemplate, pos: TileCoords) -> (r: Option<usize>)
        requires
            old(self).wf(),
        ensures
            final(self).wf(),
            r is Some <==> old(self).can_build_spec(pos),
            r is None ==> *final(self) == *old(self),
            r matches Some(m) ==> {
                &&& m == old(self).machines@.len()
                &&& final(self).machines@.len() == m + 1
                &&& final(self).machines@.subrange(0, m as int) == old(self).machines@
                &&& final(self).machines@[m as int] is Some
                &&& final(self).machines@[m as int]->0.kind == t.kind
                &&& final(self).machines@[m as int]->0.pos == Some(pos)
                &&& final(self).machines@[m as int]->0.buffer == t.buffer
                &&& final(self).machines@[m as int]->0.ports@.len() == t.ports@.len()
                &&& final(self).ports@.len() == old(self).ports@.len() + t.ports@.len()
                &&& forall|i: int|
                    0 <= i < t.ports@.len() ==> {
                        let q = #[trigger] final(self).machines@[m as int]->0.ports@[i];
                        &&& q == old(self).ports@.len() + i
                        &&& final(self).ports@[q as int] == Some(
                            MachinePort { connected: None, machine: m, ..t.ports@[i] },
                        )
                    }
                &&& final(self).grid.building_spec(pos) == Some(Building::Machine(m))
                &&& forall|q: TileCoords|
                    q != pos ==> #[trigger] final(self).grid.building_spec(q)
                        == old(self).grid.building_spec(q)
                &&& final(self).pipes@ == old(self).pipes@
                &&& final(self).ports@.subrange(0, old(self).ports@.len() as int) == old(self).ports@
                &&& final(self).grid.tiles@ == old(self).grid.tiles@
                &&& final(self).pending@ == old(self).pending@ + port_links(
                    old(self).ports@.len() as int,
                    t.ports@.len() as int,
                )
                &&& final(self).networks@ == old(self).networks@
                &&& final(self).invalidations == Self::bumped(old(self).invalidations)
                &&& forall|a: Link, b: Link| #[trigger]
                    final(self).refers_spec(a, b) == old(self).refers_spec(a, b)
            },
    {
        if !self.can_build(pos) {
            return None;
        }
        let mut t = t;
        t.pos = Some(pos);
        let m = self.insert_machine(t);
        let ghost mid = *self;
        self.invalidate();
        assert(forall|a: Link, b: Link| #[trigger]
            self.refers_spec(a, b) == mid.refers_spec(a, b));
        Some(m)
    }

    /// Whether `l` is a port whose handle is among the first `n` entries of `hs`.
    pub open spec fn among(hs: Seq<usize>, n: int, l: Link) -> bool {
        match l {
            Link::Port(q) => hs.subrange(0, n).contains(q),
            Link::Pipe(_) => false,
        }
    }

    /// `slot` with a reference to any of the first `n` ports of `hs` taken out.
    pub open spec fn strip_slot(slot: Option<Link>, hs: Seq<usize>, n: int) -> Option<Link> {
        match slot {
            Some(l) => if Self::among(hs, n, l) {
                None
            } else {
                slot
            },
            None => None,
        }
    }

    /// Pipe entry `e` with its references to the first `n` ports of `hs` taken out.
    pub open spec fn pipe_stripped(e: Option<Pipe>, hs: Seq<usize>, n: int) -> Option<Pipe> {
        match e {
            Some(pp) => Some(
                Pipe { to: Self::strip_slot(pp.to, hs, n), from: Self::strip_slot(pp.from, hs, n), ..pp },
            ),
            None => None,
        }
    }

    /// Port entry `e` at index `j` after the removal of the first `n` ports of `hs`: gone
    /// if it is one of them, else with its reference to them taken out.
    pub open spec fn port_stripped(e: Option<MachinePort>, j: int, hs: Seq<usize>, n: int) -> Option<
        MachinePort,
    > {
        if Self::among(hs, n, Link::Port(j as usize)) {
            None
        } else {
            match e {
                Some(pp) => Some(MachinePort { connected: Self::strip_slot(pp.connected, hs, n), ..pp }),
                None => None,
            }
        }
    }

    /// Removes machine `m` with its ports, clearing the slots of their partners, and
    /// takes it off the grid; returns whether `m` was live.
    pub fn remove_machine(&mut self, m: usize) -> (r: bool)
        requires
            old(self).wf(),
        ensures
            final(self).wf(),
            r == (m < old(self).machines@.len() && old(self).machines@[m as int] is Some),
            !r ==> *final(self) == *old(self),
            r ==> {
                let hs = old(self).machines@[m as int]->0.ports@;
                &&& final(self).machines@ == old(self).machines@.update(m as int, None)
                &&& forall|l: Link| #[trigger]
                    final(self).live(l) == (old(self).live(l) && !Self::among(hs, hs.len() as int, l))
                &&& forall|a: Link, b: Link| #[trigger]
                    final(self).refers_spec(a, b) == (old(self).refers_spec(a, b) && !Self::among(
                        hs,
                        hs.len() as int,
                        a,
                    ) && !Self::among(hs, hs.len() as int, b))
                &&& final(self).invalidations == Self::bumped(old(self).invalidations)
                &&& final(self).grid.tiles@ == old(self).grid.tiles@
                &&& forall|c: TileCoords| #[trigger]
                    final(self).grid.building_spec(c) == if old(self).machines@[m as int]->0.pos == Some(c)
                        && old(self).grid.building_spec(c) == Some(Building::Machine(m)) {
                        None
                    } else {
                        old(self).grid.building_spec(c)
                    }
                &&& final(self).pipes@.len() == old(self).pipes@.len()
                &&& forall|j: int|
                    0 <= j < old(self).pipes@.len() ==> #[trigger] final(self).pipes@[j]
                        == Self::pipe_stripped(old(self).pipes@[j], hs, hs.len() as int)
                &&& final(self).ports@.len() == old(self).ports@.len()
                &&& forall|j: int|
                    0 <= j < old(self).ports@.len() ==> #[trigger] final(self).ports@[j]
                        == Self::port_stripped(old(self).ports@[j], j, hs, hs.len() as int)
            },
    {
        if m >= self.machines.len() || self.machines[m].is_none() {
            return false;
        }
        let np = self.pipes.len();
        let nq = self.ports.len();
        let n = match &self.machines[m] {
            Some(mach) => mach.ports.len(),
            None => 0,
        };
        let ghost hs = old(self).machines@[m as int]->0.ports@;
        let mut i: usize = 0;
        while i < n
            invariant
                self.wf(),
                i <= n,
                n == hs.len(),
                m < self.machines@.len(),
                self.machines@ == old(self).machines@,
                self.machines@[m as int] is Some,
                hs == self.machines@[m as int]->0.ports@,
                self.grid == old(self).grid,
                self.invalidations == old(self).invalidations,
                forall|l: Link| #[trigger]
                    self.live(l) == (old(self).live(l) && !Self::among(hs, i as int, l)),
                forall|a: Link, b: Link| #[trigger]
                    self.refers_spec(a, b) == (old(self).refers_spec(a, b) && !Self::among(
                        hs,
                        i as int,
                        a,
                    ) && !Self::among(hs, i as int, b)),
                self.pipes@.len() == np,
                self.ports@.len() == nq,
                forall|j: int|
                    0 <= j < np ==> #[trigger] self.pipes@[j] == Self::pipe_stripped(
                        old(self).pipes@[j],
                        hs,
                        i as int,
                    ),
                forall|j: int|
                    0 <= j < nq ==> #[trigger] self.ports@[j] == Self::port_stripped(
                        old(self).ports@[j],
                        j,
                        hs,
                        i as int,
                    ),
            decreases n - i,
        {
            let ghost prev = *self;
            let q = match &self.machines[m] {
                Some(mach) => mach.ports[i],
                None => 0,
            };
            self.despawn_link(Link::Port(q));
            proof {
                assert(hs.subrange(0, i + 1) =~= hs.subrange(0, i as int).push(q));
                assert forall|l: Link| #[trigger] Self::among(hs, i + 1, l) == (Self::among(hs, i as int, l) || l == Link::Port(q)) by {
                    if let Link::Port(x) = l {
                        if x == q {
                            assert(hs.subrange(0, i + 1)[i as int] == q);
                        }
                        if hs.subrange(0, i as int).contains(x) {
                            let j = choose|j: int| 0 <= j < i && #[trigger] hs.subrange(0, i as int)[j] == x;
                            assert(hs.subrange(0, i + 1)[j] == x);
                        }
                        if hs.subrange(0, i + 1).contains(x) && x != q {
                            let j = choose|j: int| 0 <= j < i + 1 && #[trigger] hs.subrange(0, i + 1)[j] == x;
                            assert(hs.subrange(0, i as int)[j] == x);
                        }
                    }
                }
                assert forall|j: int| 0 <= j < np implies #[trigger] self.pipes@[j] == Self::pipe_stripped(
                    old(self).pipes@[j],
                    hs,
                    i + 1,
                ) by {
                    assert(self.pipes@[j] == pipe_without(prev.pipes@[j], Link::Port(q)));
                    if let Some(pp) = old(self).pipes@[j] {
                        if let Some(l) = pp.to {
                            assert(Self::among(hs, i + 1, l) == (Self::among(hs, i as int, l) || l == Link::Port(q)));
                        }
                        if let Some(l) = pp.from {
                            assert(Self::among(hs, i + 1, l) == (Self::among(hs, i as int, l) || l == Link::Port(q)));
                        }
                    }
                }
                assert forall|j: int| 0 <= j < nq implies #[trigger] self.ports@[j] == Self::port_stripped(
                    old(self).ports@[j],
                    j,
                    hs,
                    i + 1,
                ) by {
                    assert(Self::among(hs, i + 1, Link::Port(j as usize)) == (Self::among(hs, i as int, Link::Port(j as usize)) || Link::Port(j as usize) == Link::Port(q)));
                    if Link::Port(q) != Link::Port(j as usize) {
                        assert(self.ports@[j] == port_without(prev.ports@[j], Link::Port(q)));
                        if let Some(pp) = old(self).ports@[j] {
                            if let Some(l) = pp.connected {
                                assert(Self::among(hs, i + 1, l) == (Self::among(hs, i as int, l) || l == Link::Port(q)));
                            }
                        }
                    }
                }
            }
            i = i + 1;
        }
        let ghost s0 = *self;
        let pos = match &self.machines[m] {
            Some(mach) => mach.pos,
            None => None,
        };
        if let Some(c) = pos {
            if self.grid.get_building(c) == Some(Building::Machine(m)) {
                let _ = self.grid.remove_building(c);
            }
        }
        let ghost before = *self;
        self.machines.set(m, None);
        self.invalidate();
        assert(forall|a: Link, b: Link| #[trigger]
            self.refers_spec(a, b) == before.refers_spec(a, b));
        assert(forall|l: Link| #[trigger] self.live(l) == before.live(l));
        assert(hs.subrange(0, n as int) =~= hs);
        assert(forall|l: Link| #[trigger] self.live(l) == s0.live(l));
        assert(forall|a: Link, b: Link| #[trigger] self.refers_spec(a, b) == s0.refers_spec(a, b));
        proof {
            assert forall|c: TileCoords| #[trigger]
                self.grid.building_spec(c) == if old(self).machines@[m as int]->0.pos == Some(c)
                    && old(self).grid.building_spec(c) == Some(Building::Machine(m)) {
                    None
                } else {
                    old(self).grid.building_spec(c)
                } by {
                if let Some(p0) = pos {
                    if c != p0 {
                        assert(self.grid.building_spec(c) == s0.grid.building_spec(c));
                    }
                }
            }
        }
        true
    }


    /// Tears the whole factory down and lays out the starting one again.
    pub fn restart(&mut self)
        ensures
            final(self).is_starting(),
    {
        *self = grid_spawn();
    }
}

/// How the `i`-th machine of the starting factory is set up: its cell, the side and
/// flow of its one port, and the kind of its buffer.
pub open spec fn starting_setup(i: int) -> (TileCoords, Direction, FlowDirection, ResourceType) {
    if i == 0 {
        (TileCoords { x: 0, y: 3 }, Direction::Right, FlowDirection::Outlet, ResourceType::Mineral)
    } else if i == 1 {
        (TileCoords { x: 0, y: 6 }, Direction::Right, FlowDirection::Outlet, ResourceType::Mineral)
    } else if i == 2 {
        (TileCoords { x: 9, y: 3 }, Direction::Left, FlowDirection::Outlet, ResourceType::Gas)
    } else if i == 3 {
        (TileCoords { x: 9, y: 6 }, Direction::Left, FlowDirection::Outlet, ResourceType::Gas)
    } else if i == 4 {
        (TileCoords { x: 3, y: 9 }, Direction::Down, FlowDirection::Inlet, ResourceType::Ammo)
    } else {
        (TileCoords { x: 6, y: 9 }, Direction::Down, FlowDirection::Inlet, ResourceType::Ammo)
    }
}

impl Factory {
    /// The `i`-th starting machine stands where `starting_setup` says, with an empty
    /// buffer of its kind and one unconnected port, whose handle is `i`.
    pub open spec fn starting_machine_ok(&self, i: int) -> bool {
        let (pos, side, flow, kind) = starting_setup(i);
        &&& 0 <= i < self.machines@.len()
        &&& 0 <= i < self.ports@.len()
        &&& self.machines@[i] is Some
        &&& self.machines@[i]->0.pos == Some(pos)
        &&& self.machines@[i]->0.buffer == Buffer(kind, 0)
        &&& self.machines@[i]->0.ports@ == seq![i as usize]
        &&& self.ports@[i] == Some(MachinePort { side, flow, connected: None, machine: i as usize })
    }

    /// The starting factory: inner cells buildable; a mineral inlet facing right on the
    /// left border at rows 3 and 6, a gas inlet facing left on the right border at rows
    /// 3 and 6, and an outlet facing down on the top border at columns 3 and 6, each
    /// with one unconnected port and an empty buffer, the ports queued for the connection
    /// step in handle order; no pipe; one invalidation pending so that the first rebuild
    /// traces them.
    pub open spec fn is_starting(&self) -> bool {
        &&& self.wf()
        &&& self.pipes@.len() == 0
        &&& self.machines@.len() == 6
        &&& self.ports@.len() == 6
        &&& self.pending@ == port_links(0, 6)
        &&& self.invalidations == 1
        &&& forall|pos: TileCoords| #[trigger]
            self.grid.tile_spec(pos) == is_interior(pos.x as int, pos.y as int)
        &&& forall|pos: TileCoords| #[trigger]
            self.grid.building_spec(pos) == starting_building(pos)
        &&& self.machines@[0]->0.kind == MachineKind::Inlet(ResourceType::Mineral)
        &&& self.machines@[1]->0.kind == MachineKind::Inlet(ResourceType::Mineral)
        &&& self.machines@[2]->0.kind == MachineKind::Inlet(ResourceType::Gas)
        &&& self.machines@[3]->0.kind == MachineKind::Inlet(ResourceType::Gas)
        &&& self.machines@[4]->0.kind == MachineKind::Outlet
        &&& self.machines@[5]->0.kind == MachineKind::Outlet
        &&& forall|i: int| 0 <= i < 6 ==> #[trigger] self.starting_machine_ok(i)
    }
}

/// A starting machine stays as it is while machines and ports are only appended.
proof fn lemma_starting_kept(a: &Factory, b: &Factory, i: int)
    requires
        b.starting_machine_ok(i),
        a.machines@.len() >= b.machines@.len(),
        a.ports@.len() >= b.ports@.len(),
        a.machines@.subrange(0, b.machines@.len() as int) == b.machines@,
        a.ports@.subrange(0, b.ports@.len() as int) == b.ports@,
    ensures
        a.starting_machine_ok(i),
{
    assert(a.machines@[i] == a.machines@.subrange(0, b.machines@.len() as int)[i]);
    assert(a.ports@[i] == a.ports@.subrange(0, b.ports@.len() as int)[i]);
}

/// What stands on `pos` in the starting factory: the machine handles `0` to `5` in
/// the order in which `grid_spawn` lays them out, nothing elsewhere.
pub open spec fn starting_building(pos: TileCoords) -> Option<Building> {
    if pos == (TileCoords { x: 0, y: 3 }) {
        Some(Building::Machine(0))
    } else if pos == (TileCoords { x: 0, y: 6 }) {
        Some(Building::Machine(1))
    } else if pos == (TileCoords { x: 9, y: 3 }) {
        Some(Building::Machine(2))
    } else if pos == (TileCoords { x: 9, y: 6 }) {
        Some(Building::Machine(3))
    } else if pos == (TileCoords { x: 3, y: 9 }) {
        Some(Building::Machine(4))
    } else if pos == (TileCoords { x: 6, y: 9 }) {
        Some(Building::Machine(5))
    } else {
        None
    }
}

/// Lays out the starting factory; see `Factory::is_starting`.
pub fn grid_spawn() -> (r: Factory)
    ensures
        r.is_starting(),
{
    let mut f = Factory {
        grid: Grid::with_interior_tiles(),
        pipes: Vec::new(),
        ports: Vec::new(),
        machines: Vec::new(),
        networks: Vec::new(),
        port_network: Vec::new(),
        pipe_network: Vec::new(),
        pending: Vec::new(),
        invalidations: 1,
    };
    let edge = (GRID_SIZE - 1) as i32;
    let ghost f0 = f;
    let _ = f.insert_machine(inlet(ResourceType::Mineral, TileCoords::new(0, 3), Direction::Right));
    let ghost f1 = f;
    let _ = f.insert_machine(inlet(ResourceType::Mineral, TileCoords::new(0, 6), Direction::Right));
    let ghost f2 = f;
    let _ = f.insert_machine(inlet(ResourceType::Gas, TileCoords::new(edge, 3), Direction::Left));
    let ghost f3 = f;
    let _ = f.insert_machine(inlet(ResourceType::Gas, TileCoords::new(edge, 6), Direction::Left));
    let ghost f4 = f;
    let _ = f.insert_machine(outlet(TileCoords::new(3, edge), Direction::Down));
    let ghost f5 = f;
    let _ = f.insert_machine(outlet(TileCoords::new(6, edge), Direction::Down));
    proof {
        assert forall|pos: TileCoords| #[trigger] f.grid.building_spec(pos) == starting_building(pos) by {
            assert(f0.grid.building_spec(pos) is None);
            assert(f1.grid.building_spec(pos) == if pos == (TileCoords { x: 0, y: 3 }) { Some(Building::Machine(0)) } else { f0.grid.building_spec(pos) });
            assert(f2.grid.building_spec(pos) == if pos == (TileCoords { x: 0, y: 6 }) { Some(Building::Machine(1)) } else { f1.grid.building_spec(pos) });
            assert(f3.grid.building_spec(pos) == if pos == (TileCoords { x: 9, y: 3 }) { Some(Building::Machine(2)) } else { f2.grid.building_spec(pos) });
            assert(f4.grid.building_spec(pos) == if pos == (TileCoords { x: 9, y: 6 }) { Some(Building::Machine(3)) } else { f3.grid.building_spec(pos) });
            assert(f5.grid.building_spec(pos) == if pos == (TileCoords { x: 3, y: 9 }) { Some(Building::Machine(4)) } else { f4.grid.building_spec(pos) });
            assert(f.grid.building_spec(pos) == if pos == (TileCoords { x: 6, y: 9 }) { Some(Building::Machine(5)) } else { f5.grid.building_spec(pos) });
        }
        assert(f.pending@ =~= port_links(0, 6)) by {
            assert(f1.pending@ =~= port_links(0, 1));
            assert(f2.pending@ =~= port_links(0, 2));
            assert(f3.pending@ =~= port_links(0, 3));
            assert(f4.pending@ =~= port_links(0, 4));
            assert(f5.pending@ =~= port_links(0, 5));
        }
        assert(f1.ports@.len() == 1);
        assert(f1.machines@[0]->0.ports@[0] == 0usize);
        assert(f1.machines@[0]->0.ports@ =~= seq![0usize]);
        assert(f1.starting_machine_ok(0));
        lemma_starting_kept(&f2, &f1, 0);
        lemma_starting_kept(&f3, &f2, 0);
        lemma_starting_kept(&f4, &f3, 0);
        lemma_starting_kept(&f5, &f4, 0);
        lemma_starting_kept(&f, &f5, 0);
        assert(f2.ports@.len() == 2);
        assert(f2.machines@[1]->0.ports@[0] == 1usize);
        assert(f2.machines@[1]->0.ports@ =~= seq![1usize]);
        assert(f2.starting_machine_ok(1));
        lemma_starting_kept(&f3, &f2, 1);
        lemma_starting_kept(&f4, &f3, 1);
        lemma_starting_kept(&f5, &f4, 1);
        lemma_starting_kept(&f, &f5, 1);
        assert(f3.ports@.len() == 3);
        assert(f3.machines@[2]->0.ports@[0] == 2usize);
        assert(f3.machines@[2]->0.ports@ =~= seq![2usize]);
        assert(f3.starting_machine_ok(2));
        lemma_starting_kept(&f4, &f3, 2);
        lemma_starting_kept(&f5, &f4, 2);
        lemma_starting_kept(&f, &f5, 2);
        assert(f4.ports@.len() == 4);
        assert(f4.machines@[3]->0.ports@[0] == 3usize);
        assert(f4.machines@[3]->0.ports@ =~= seq![3usize]);
        assert(f4.starting_machine_ok(3));
        lemma_starting_kept(&f5, &f4, 3);
        lemma_starting_kept(&f, &f5, 3);
        assert(f5.ports@.len() == 5);
        assert(f5.machines@[4]->0.ports@[0] == 4usize);
        assert(f5.machines@[4]->0.ports@ =~= seq![4usize]);
        assert(f5.starting_machine_ok(4));
        lemma_starting_kept(&f, &f5, 4);
        assert(f.ports@.len() == 6);
        assert(f.machines@[5]->0.ports@[0] == 5usize);
        assert(f.machines@[5]->0.ports@ =~= seq![5usize]);
        assert(f.starting_machine_ok(5));
        assert forall|i: int| 0 <= i < 6 implies #[trigger] f.starting_machine_ok(i) by {}
    }
    f
}

} // verus!
