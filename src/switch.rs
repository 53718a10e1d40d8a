use vstd::prelude::*;

use crate::factory::{
    pipe_without, port_live, port_without, Factory, FlowDirection, Link, MachineKind, MachinePort,
    Pipe,
};
use crate::grid::{cell_index, in_bounds, Building, Direction, TileCoords};

verus! {

/// The side a pipe switch's outlet moves to on a click: right, down, up, and round
/// again; the left side holds the inlet and has no successor.
pub open spec fn switch_next_spec(d: Direction) -> Option<Direction> {
    match d {
        Direction::Right => Some(Direction::Down),
        Direction::Down => Some(Direction::Up),
        Direction::Up => Some(Direction::Right),
        Direction::Left => None,
    }
}

pub fn switch_next(d: Direction) -> (r: Option<Direction>)
    ensures
        r == switch_next_spec(d),
{
    match d {
        Direction::Right => Some(Direction::Down),
        Direction::Down => Some(Direction::Up),
        Direction::Up => Some(Direction::Right),
        Direction::Left => None,
    }
}

/// Pipe entry `e` at index `i` after the removal of `l`, if any: gone if it is `l`,
/// else with its references to `l` taken out.
pub open spec fn drop_pipe(e: Option<Pipe>, i: int, l: Option<Link>) -> Option<Pipe> {
    match l {
        Some(x) => if x == Link::Pipe(i as usize) {
            None
        } else {
            pipe_without(e, x)
        },
        None => e,
    }
}

/// Port entry `e` at index `i` after the removal of `l`, if any: gone if it is `l`,
/// else with its reference to `l` taken out.
pub open spec fn drop_port(e: Option<MachinePort>, i: int, l: Option<Link>) -> Option<MachinePort> {
    match l {
        Some(x) => if x == Link::Port(i as usize) {
            None
        } else {
            port_without(e, x)
        },
        None => e,
    }
}

/// The links queued by a click for the respawned pipes: the one made for the old side's
/// cell (if it held a live pipe), then the one for the new side's cell, with handles
/// counted from `base`.
pub open spec fn respawn_queue(ko: Option<Link>, kn: Option<Link>, base: int) -> Seq<Link> {
    let first = if ko is Some {
        seq![Link::Pipe(base as usize)]
    } else {
        Seq::<Link>::empty()
    };
    let next = if ko is Some {
        base + 1
    } else {
        base
    };
    first + if kn is Some {
        seq![Link::Pipe(next as usize)]
    } else {
        Seq::<Link>::empty()
    }
}

impl Factory {
    /// The live pipe standing on `n`, if any.
    fn live_pipe_at(&self, n: TileCoords) -> (r: Option<usize>)
        requires
            self.wf(),
        ensures
            r matches Some(k) ==> self.grid.building_spec(n) == Some(Building::Pipe(k)) && self.live(
                Link::Pipe(k),
            ),
            r is None ==> !(self.grid.building_spec(n) matches Some(Building::Pipe(k)) && self.live(
                Link::Pipe(k),
            )),
    {
        match self.grid.get_building(n) {
            Some(Building::Pipe(k)) => {
                if self.is_live(Link::Pipe(k)) {
                    Some(k)
                } else {
                    None
                }
            },
            _ => None,
        }
    }

    /// The building on the cell at `c`, as a pair of integers; none off the lattice.
    pub open spec fn building_at(&self, c: (int, int)) -> Option<Building> {
        if in_bounds(c.0, c.1) {
            self.grid.buildings@[cell_index(c.0, c.1)]
        } else {
            None
        }
    }

    /// Index `i` picks the first live outlet port among the ports of live machine `m`.
    pub open spec fn is_first_outlet(&self, m: usize, i: int) -> bool {
        let hs = self.machines@[m as int]->0.ports@;
        &&& 0 <= i < hs.len()
        &&& port_live(self.ports@, hs[i] as int)
        &&& self.ports@[hs[i] as int]->0.flow == FlowDirection::Outlet
        &&& forall|j: int|
            0 <= j < i ==> !(port_live(self.ports@, #[trigger] hs[j] as int)
                && self.ports@[hs[j] as int]->0.flow == FlowDirection::Outlet)
    }

    /// Where a click on machine `m` takes effect: `m` is a placed pipe switch whose first
    /// outlet port (at index `i` of its ports) is on a side that has a successor.
    pub open spec fn click_applies(&self, m: usize, i: int) -> bool {
        &&& self.machine_live(m)
        &&& self.machines@[m as int]->0.kind == MachineKind::PipeSwitch
        &&& self.machines@[m as int]->0.pos is Some
        &&& self.is_first_outlet(m, i)
        &&& switch_next_spec(self.ports@[self.machines@[m as int]->0.ports@[i] as int]->0.side) is Some
    }

    /// The live pipe standing on the cell at `c`, as a link.
    pub open spec fn live_pipe_in(&self, c: (int, int)) -> Option<Link> {
        match self.building_at(c) {
            Some(Building::Pipe(k)) => if self.live(Link::Pipe(k)) {
                Some(Link::Pipe(k))
            } else {
                None
            },
            _ => None,
        }
    }

    /// The cell `c` held a live pipe in `before` and holds another, newly made live
    /// pipe here, unconnected and on that cell; the old one is gone.
    pub open spec fn pipe_respawned(&self, before: &Factory, c: (int, int)) -> bool {
        match before.building_at(c) {
            Some(Building::Pipe(k)) => before.live(Link::Pipe(k)) ==> {
                &&& !self.live(Link::Pipe(k))
                &&& self.building_at(c) matches Some(Building::Pipe(k2))
                &&& k2 >= before.pipes@.len()
                &&& self.live(Link::Pipe(k2))
                &&& self.pipes@[k2 as int]->0.to is None
                &&& self.pipes@[k2 as int]->0.from is None
                &&& self.pipes@[k2 as int]->0.pos.x == c.0
                &&& self.pipes@[k2 as int]->0.pos.y == c.1
            },
            _ => true,
        }
    }

    /// The index of the first live outlet port of live machine `m`.
    fn find_outlet(&self, m: usize) -> (r: Option<usize>)
        requires
            self.machine_live(m),
        ensures
            r matches Some(i) ==> self.is_first_outlet(m, i as int),
            r is None ==> forall|i: int| !self.is_first_outlet(m, i),
    {
        match &self.machines[m] {
            Some(mach) => {
                let mut i: usize = 0;
                while i < mach.ports.len()
                    invariant
                        i <= mach.ports@.len(),
                        m < self.machines@.len(),
                        self.machines@[m as int] == Some(*mach),
                        forall|j: int|
                            0 <= j < i ==> !(port_live(self.ports@, #[trigger] mach.ports@[j] as int)
                                && self.ports@[mach.ports@[j] as int]->0.flow == FlowDirection::Outlet),
                    decreases mach.ports@.len() - i,
                {
                    let q = mach.ports[i];
                    if q < self.ports.len() {
                        if let Some(port) = self.ports[q] {
                            if port.flow == FlowDirection::Outlet {
                                return Some(i);
                            }
                        }
                    }
                    i = i + 1;
                }
                proof {
                    assert forall|i: int| !self.is_first_outlet(m, i) by {
                        if self.is_first_outlet(m, i) {
                            assert(port_live(self.ports@, mach.ports@[i] as int));
                        }
                    }
                }
                None
            },
            None => None,
        }
    }

    /// A click on pipe switch `m`: its outlet moves to the next side (right, down, up,
    /// round again). The old outlet port goes and a new unconnected one takes its place
    /// among the machine's ports; the pipes on the cells of the old and the new side are
    /// respawned, so that their links are worked out anew; one invalidation is raised.
    /// Returns whether the click took effect; where it does not, nothing changes.
    pub fn pipe_switch_click(&mut self, m: usize) -> (r: bool)
        requires
            old(self).wf(),
        ensures
            final(self).wf(),
            r == exists|i: int| old(self).click_applies(m, i),
            !r ==> *final(self) == *old(self),
            r ==> {
                let i = choose|i: int| old(self).click_applies(m, i);
                let hs = old(self).machines@[m as int]->0.ports@;
                let c = old(self).machines@[m as int]->0.pos->0;
                let d = old(self).ports@[hs[i] as int]->0.side;
                let nd = switch_next_spec(d)->0;
                let q2 = (final(self).ports@.len() - 1) as usize;
                let ko = old(self).live_pipe_in(c.neighbor_spec(d));
                let kn = old(self).live_pipe_in(c.neighbor_spec(nd));
                &&& !final(self).live(Link::Port(hs[i]))
                &&& final(self).ports@[q2 as int] == Some(
                    MachinePort { side: nd, flow: FlowDirection::Outlet, connected: None, machine: m },
                )
                &&& final(self).machines@[m as int] is Some
                &&& final(self).machines@[m as int]->0.ports@ == hs.update(i, q2)
                &&& final(self).machines@[m as int]->0.kind == MachineKind::PipeSwitch
                &&& final(self).machines@[m as int]->0.pos == Some(c)
                &&& final(self).machines@[m as int]->0.buffer == old(self).machines@[m as int]->0.buffer
                &&& final(self).machines@.len() == old(self).machines@.len()
                &&& forall|j: int|
                    0 <= j < old(self).machines@.len() && j != m ==> #[trigger] final(self).machines@[j]
                        == old(self).machines@[j]
                &&& forall|j: int|
                    0 <= j < old(self).pipes@.len() ==> #[trigger] final(self).pipes@[j] == drop_pipe(
                        drop_pipe(drop_pipe(old(self).pipes@[j], j, ko), j, kn),
                        j,
                        Some(Link::Port(hs[i])),
                    )
                &&& forall|j: int|
                    0 <= j < old(self).ports@.len() ==> #[trigger] final(self).ports@[j] == drop_port(
                        drop_port(drop_port(old(self).ports@[j], j, ko), j, kn),
                        j,
                        Some(Link::Port(hs[i])),
                    )
                &&& forall|pos: TileCoords|
                    !((pos.x as int, pos.y as int) == c.neighbor_spec(d) && ko is Some) && !((
                    pos.x as int, pos.y as int) == c.neighbor_spec(nd) && kn is Some)
                        ==> #[trigger] final(self).grid.building_spec(pos)
                        == old(self).grid.building_spec(pos)
                &&& final(self).pending@ == old(self).pending@ + respawn_queue(
                    ko,
                    kn,
                    old(self).pipes@.len() as int,
                ) + seq![Link::Port(q2)]
                &&& final(self).pipe_respawned(old(self), c.neighbor_spec(d))
                &&& final(self).pipe_respawned(old(self), c.neighbor_spec(nd))
                &&& final(self).invalidations == Self::bumped(old(self).invalidations)
            },
    {
        if m >= self.machines.len() {
            return false;
        }
        let c = match &self.machines[m] {
            Some(mach) => {
                if mach.kind != MachineKind::PipeSwitch {
                    return false;
                }
                match mach.pos {
                    Some(c) => c,
                    None => {
                        return false;
                    },
                }
            },
            None => {
                return false;
            },
        };
        let i = match self.find_outlet(m) {
            Some(i) => i,
            None => {
                return false;
            },
        };
        let q = match &self.machines[m] {
            Some(mach) => mach.ports[i],
            None => 0,
        };
        let d = self.ports[q].unwrap().side;
        let nd = match switch_next(d) {
            Some(nd) => nd,
            None => {
                proof {
                    assert forall|j: int| !old(self).click_applies(m, j) by {
                        if old(self).click_applies(m, j) {
                            if j < i {
                                assert(old(self).is_first_outlet(m, i as int));
                            } else if j > i {
                                assert(old(self).is_first_outlet(m, j));
                                let hs = old(self).machines@[m as int]->0.ports@;
                                assert(!(port_live(old(self).ports@, hs[i as int] as int)
                                    && old(self).ports@[hs[i as int] as int]->0.flow == FlowDirection::Outlet));
                            }
                        }
                    }
                }
                return false;
            },
        };
        proof {
            assert(old(self).click_applies(m, i as int));
            assert forall|j: int| old(self).click_applies(m, j) implies j == i by {
                let hs = old(self).machines@[m as int]->0.ports@;
                if j < i {
                    assert(!(port_live(old(self).ports@, hs[j] as int)
                        && old(self).ports@[hs[j] as int]->0.flow == FlowDirection::Outlet));
                } else if j > i {
                    assert(!(port_live(old(self).ports@, hs[i as int] as int)
                        && old(self).ports@[hs[i as int] as int]->0.flow == FlowDirection::Outlet));
                }
            }
        }
        let old_cell = c.neighbor(d);
        let new_cell = c.neighbor(nd);
        let old_pipe = match old_cell {
            Some(n) => self.live_pipe_at(n),
            None => None,
        };
        let new_pipe = match new_cell {
            Some(n) => self.live_pipe_at(n),
            None => None,
        };
        let ghost d0 = *self;
        if let Some(k) = old_pipe {
            self.despawn_link(Link::Pipe(k));
        }
        let ghost d1 = *self;
        if let Some(k) = new_pipe {
            self.despawn_link(Link::Pipe(k));
        }
        let ghost d2 = *self;
        self.despawn_link(Link::Port(q));
        let ghost s1 = *self;
        let ghost mut made_old: Option<usize> = None;
        let ghost mut made_new: Option<usize> = None;
        if let (Some(n), Some(_)) = (old_cell, old_pipe) {
            let k2 = self.spawn_pipe(n);
            proof {
                made_old = Some(k2);
            }
        }
        let ghost s2 = *self;
        proof {
            assert(d != nd);
            if let (Some(no), Some(nn)) = (old_cell, new_cell) {
                assert(no != nn);
            }
        }
        if let (Some(n), Some(kn)) = (new_cell, new_pipe) {
            proof {
                assert(!s1.live(Link::Pipe(kn)));
                assert(s2.pipes@[kn as int] == s1.pipes@[kn as int]);
                assert(s2.grid.building_spec(n) == s1.grid.building_spec(n));
            }
            let k2 = self.spawn_pipe(n);
            proof {
                made_new = Some(k2);
            }
        }
        let ghost s3 = *self;
        let q2 = self.spawn_port(MachinePort::new(nd, FlowDirection::Outlet), m);
        let ghost s4 = *self;
        match &mut self.machines[m] {
            Some(mach) => {
                if i < mach.ports.len() {
                    mach.ports.set(i, q2);
                }
            },
            None => {},
        }
        self.invalidate();
        proof {
            let hs = old(self).machines@[m as int]->0.ports@;
            assert(hs[i as int] == q);
            assert(self.live(Link::Port(q2)) ==> q2 != q);
            // the two cells differ
            let co = c.neighbor_spec(d);
            let cn = c.neighbor_spec(nd);
            assert(co != cn);
            assert forall|t: TileCoords, u: TileCoords|
                in_bounds(t.x as int, t.y as int) && in_bounds(u.x as int, u.y as int) && (t.x != u.x || t.y != u.y)
                implies #[trigger] cell_index(t.x as int, t.y as int) != #[trigger] cell_index(u.x as int, u.y as int) by {
                assert(cell_index(t.x as int, t.y as int) != cell_index(u.x as int, u.y as int)) by (nonlinear_arith)
                    requires
                        t.x != u.x || t.y != u.y,
                        in_bounds(t.x as int, t.y as int),
                        in_bounds(u.x as int, u.y as int),
                ;
            }
            assert(s1.grid == old(self).grid);
            assert(!s1.live(Link::Port(q)));
            assert(s4.ports@[q as int] == s1.ports@[q as int]);
            assert(self.ports@[q as int] == s1.ports@[q as int]);
            let ko = old(self).live_pipe_in(co);
            let kn = old(self).live_pipe_in(cn);
            if let Some(n) = old_cell {
                assert(old(self).building_at(co) == old(self).grid.building_spec(n));
            }
            if let Some(n) = new_cell {
                assert(old(self).building_at(cn) == old(self).grid.building_spec(n));
            }
            assert(ko == match old_pipe {
                Some(k) => Some(Link::Pipe(k)),
                None => None::<Link>,
            });
            assert(kn == match new_pipe {
                Some(k) => Some(Link::Pipe(k)),
                None => None::<Link>,
            });
            assert forall|j: int| 0 <= j < old(self).pipes@.len() implies #[trigger] self.pipes@[j] == drop_pipe(
                drop_pipe(drop_pipe(old(self).pipes@[j], j, ko), j, kn),
                j,
                Some(Link::Port(q)),
            ) by {
                assert(d1.pipes@[j] == drop_pipe(d0.pipes@[j], j, ko));
                assert(d2.pipes@[j] == drop_pipe(d1.pipes@[j], j, kn));
                assert(s1.pipes@[j] == drop_pipe(d2.pipes@[j], j, Some(Link::Port(q))));
                assert(self.pipes@[j] == s1.pipes@[j]);
            }
            assert forall|j: int| 0 <= j < old(self).ports@.len() implies #[trigger] self.ports@[j] == drop_port(
                drop_port(drop_port(old(self).ports@[j], j, ko), j, kn),
                j,
                Some(Link::Port(q)),
            ) by {
                assert(d1.ports@[j] == drop_port(d0.ports@[j], j, ko));
                assert(d2.ports@[j] == drop_port(d1.ports@[j], j, kn));
                assert(s1.ports@[j] == drop_port(d2.ports@[j], j, Some(Link::Port(q))));
                assert(self.ports@[j] == s4.ports@[j]);
            }
            assert forall|pos: TileCoords|
                !((pos.x as int, pos.y as int) == co && ko is Some) && !((pos.x as int, pos.y as int)
                    == cn && kn is Some) implies #[trigger] self.grid.building_spec(pos)
                == old(self).grid.building_spec(pos) by {
                if let (Some(n), Some(_)) = (old_cell, old_pipe) {
                    assert(pos != n);
                }
                if let (Some(n), Some(_)) = (new_cell, new_pipe) {
                    assert(pos != n);
                }
                assert(s2.grid.building_spec(pos) == s1.grid.building_spec(pos));
                assert(s3.grid.building_spec(pos) == s2.grid.building_spec(pos));
            }
            assert(self.pending@ =~= old(self).pending@ + respawn_queue(
                ko,
                kn,
                old(self).pipes@.len() as int,
            ) + seq![Link::Port(q2)]);
            if let Some(k) = old_pipe {
                assert(!s1.live(Link::Pipe(k)));
                assert(self.pipes@[k as int] == s1.pipes@[k as int]);
            }
            if let Some(k) = new_pipe {
                assert(!s1.live(Link::Pipe(k)));
                assert(self.pipes@[k as int] == s1.pipes@[k as int]);
            }
            if let (Some(n), Some(k)) = (old_cell, old_pipe) {
                let k2 = made_old->0;
                assert(s2.grid.building_spec(n) == Some(Building::Pipe(k2)));
                assert(s3.grid.building_spec(n) == Some(Building::Pipe(k2)));
                assert(self.grid.building_spec(n) == Some(Building::Pipe(k2)));
                assert(self.pipes@[k2 as int] == s2.pipes@[k2 as int]);
                assert(self.live(Link::Pipe(k2)));
                assert(self.building_at(co) == self.grid.building_spec(n));
                assert(old(self).building_at(co) == old(self).grid.building_spec(n));
            }
            if let (Some(n), Some(k)) = (new_cell, new_pipe) {
                let k2 = made_new->0;
                assert(self.grid.building_spec(n) == Some(Building::Pipe(k2)));
                assert(self.pipes@[k2 as int] == s3.pipes@[k2 as int]);
                assert(self.live(Link::Pipe(k2)));
                assert(self.building_at(cn) == self.grid.building_spec(n));
                assert(old(self).building_at(cn) == old(self).grid.building_spec(n));
            }
            if let Some(n) = old_cell {
                assert(old(self).building_at(co) == old(self).grid.building_spec(n));
            }
            if let Some(n) = new_cell {
                assert(old(self).building_at(cn) == old(self).grid.building_spec(n));
            }
        }
        true
    }
}

} // verus!
