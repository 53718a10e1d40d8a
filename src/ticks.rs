use vstd::prelude::*;

use crate::factory::{port_live, Buffer, Factory, FlowDirection, Link, Machine, MachineKind};
use crate::production::{
    ROCKET_GAS, ROCKET_MINERALS, SWITCH_CAPACITY,
    ammo_convert, ammo_convert_spec, hull_repair, hull_repair_spec, inlet_draw, inlet_draw_spec,
    outlet_deliver, outlet_deliver_spec, rocket_convert, rocket_convert_spec, switch_pass,
    switch_pass_spec,
};
use crate::resources::{ResourceType, Resources};
use crate::time::{consumed_spec, time_consume, FactoryTimer, TimeScale};

verus! {

/// `machines` with the buffer of machine `m` replaced by `b`.
pub open spec fn with_buffer(machines: Seq<Option<Machine>>, m: usize, b: Buffer) -> Seq<
    Option<Machine>,
> {
    machines.update(m as int, Some(Machine { buffer: b, ..machines[m as int]->0 }))
}

/// `machines` with the amount in the buffer of machine `m` replaced by `a`.
pub open spec fn with_amount(machines: Seq<Option<Machine>>, m: usize, a: i64) -> Seq<
    Option<Machine>,
> {
    with_buffer(machines, m, Buffer(machines[m as int]->0.buffer.0, a))
}

/// The amount in the buffer of machine `m` among `ms`.
pub open spec fn amount_in(ms: Seq<Option<Machine>>, m: usize) -> i64 {
    ms[m as int]->0.buffer.1
}

/// Which per-machine rule a pass over the machines applies.
#[derive(Clone, Copy, Debug, PartialEq, Eq, Structural)]
pub enum Phase {
    /// Inlets draw from the pool.
    Draw,
    /// Outlets deliver into the pool.
    Deliver,
    /// Producers take their factory tick.
    Produce,
}

impl Factory {
    pub open spec fn machine_live(&self, m: usize) -> bool {
        0 <= m < self.machines@.len() && self.machines@[m as int] is Some
    }

    /// Machine `m` is live, placed, and of kind `kind`.
    pub open spec fn placed_as(&self, m: usize, kind: MachineKind) -> bool {
        self.machine_live(m) && self.machines@[m as int]->0.pos is Some
            && self.machines@[m as int]->0.kind == kind
    }

    pub open spec fn amount(&self, m: usize) -> i64 {
        self.machines@[m as int]->0.buffer.1
    }

    /// Everything but the machine buffers and the pool is as in `other`.
    pub open spec fn same_but_buffers(&self, other: &Factory) -> bool {
        &&& self.grid == other.grid
        &&& self.pipes@ == other.pipes@
        &&& self.ports@ == other.ports@
        &&& self.networks@ == other.networks@
        &&& self.port_network@ == other.port_network@
        &&& self.pipe_network@ == other.pipe_network@
        &&& self.pending@ == other.pending@
        &&& self.invalidations == other.invalidations
        &&& self.machines@.len() == other.machines@.len()
        &&& forall|m: int|
            0 <= m < self.machines@.len() ==> (#[trigger] self.machines@[m] is Some <==> other.machines@[m] is Some)
                && (self.machines@[m] is Some ==> self.machines@[m]->0.kind == other.machines@[m]->0.kind
                && self.machines@[m]->0.pos == other.machines@[m]->0.pos
                && self.machines@[m]->0.ports@ == other.machines@[m]->0.ports@)
    }

    /// The machine whose buffer feeds port `q`: `q` is a live inlet port recorded in a
    /// network that carries `kind`, whose source port and machine are live.
    pub open spec fn feed_of(&self, q: usize, kind: ResourceType) -> Option<usize> {
        if port_live(self.ports@, q as int) && self.ports@[q as int]->0.flow == FlowDirection::Inlet
            && q < self.port_network@.len() {
            match self.port_network@[q as int] {
                Some(i) => if i < self.networks@.len() && self.networks@[i as int].resource == kind {
                    let s = self.networks@[i as int].source;
                    if port_live(self.ports@, s as int) && self.machine_live(
                        self.ports@[s as int]->0.machine,
                    ) {
                        Some(self.ports@[s as int]->0.machine)
                    } else {
                        None
                    }
                } else {
                    None
                },
                None => None,
            }
        } else {
            None
        }
    }

    /// The feeding machine of the first port in `hs` that has one for `kind`.
    pub open spec fn first_feed_in(&self, hs: Seq<usize>, kind: ResourceType) -> Option<usize>
        decreases hs.len(),
    {
        if hs.len() == 0 {
            None
        } else {
            match self.feed_of(hs[0], kind) {
                Some(sm) => Some(sm),
                None => self.first_feed_in(hs.drop_first(), kind),
            }
        }
    }

    /// The machine that feeds live machine `m` with `kind`, through the first of its
    /// ports that has one.
    pub open spec fn first_feed(&self, m: usize, kind: ResourceType) -> Option<usize> {
        self.first_feed_in(self.machines@[m as int]->0.ports@, kind)
    }

    /// The feeding machine of the first port in `hs` that has one for `kind` holding at
    /// least `min` units in the buffers `ms`.
    pub open spec fn first_feed_with(
        &self,
        hs: Seq<usize>,
        kind: ResourceType,
        min: i64,
        ms: Seq<Option<Machine>>,
    ) -> Option<usize>
        decreases hs.len(),
    {
        if hs.len() == 0 {
            None
        } else {
            match self.feed_of(hs[0], kind) {
                Some(sm) => if amount_in(ms, sm) >= min {
                    Some(sm)
                } else {
                    self.first_feed_with(hs.drop_first(), kind, min, ms)
                },
                None => self.first_feed_with(hs.drop_first(), kind, min, ms),
            }
        }
    }

    /// The machine that feeds live machine `m` with `kind` holding at least `min` units
    /// in the buffers `ms`, through the first of its ports that has one.
    pub open spec fn stocked_feed(&self, m: usize, kind: ResourceType, min: i64, ms: Seq<Option<Machine>>) -> Option<usize> {
        self.first_feed_with(self.machines@[m as int]->0.ports@, kind, min, ms)
    }

    /// See `stocked_feed`, on the buffers of `self`.
    pub fn find_stocked_feed(&self, m: usize, kind: ResourceType, min: i64) -> (r: Option<usize>)
        requires
            self.machine_live(m),
        ensures
            r == self.stocked_feed(m, kind, min, self.machines@),
            r matches Some(sm) ==> self.machine_live(sm),
    {
        match &self.machines[m] {
            Some(mach) => {
                let ghost hs = mach.ports@;
                assert(hs.subrange(0, hs.len() as int) =~= hs);
                let mut i: usize = 0;
                while i < mach.ports.len()
                    invariant
                        i <= hs.len(),
                        hs == mach.ports@,
                        m < self.machines@.len(),
                        self.machines@[m as int] == Some(*mach),
                        self.first_feed_with(hs, kind, min, self.machines@) == self.first_feed_with(
                            hs.subrange(i as int, hs.len() as int),
                            kind,
                            min,
                            self.machines@,
                        ),
                    decreases hs.len() - i,
                {
                    let q = mach.ports[i];
                    let f = self.feed_of_exec(q, kind);
                    assert(hs.subrange(i as int, hs.len() as int).drop_first() =~= hs.subrange(i + 1, hs.len() as int));
                    if let Some(sm) = f {
                        let stock = match &self.machines[sm] {
                            Some(src) => src.buffer.1,
                            None => 0,
                        };
                        if stock >= min {
                            return f;
                        }
                    }
                    i = i + 1;
                }
                assert(hs.subrange(i as int, hs.len() as int).len() == 0);
                None
            },
            None => None,
        }
    }

    fn feed_of_exec(&self, q: usize, kind: ResourceType) -> (r: Option<usize>)
        ensures
            r == self.feed_of(q, kind),
    {
        if q >= self.ports.len() || q >= self.port_network.len() {
            return None;
        }
        let port = match self.ports[q] {
            Some(port) => port,
            None => {
                return None;
            },
        };
        if port.flow != FlowDirection::Inlet {
            return None;
        }
        match self.port_network[q] {
            Some(i) => {
                if i >= self.networks.len() || self.networks[i].resource != kind {
                    return None;
                }
                let s = self.networks[i].source;
                if s >= self.ports.len() {
                    return None;
                }
                match self.ports[s] {
                    Some(sp) => {
                        if sp.machine < self.machines.len() && self.machines[sp.machine].is_some() {
                            Some(sp.machine)
                        } else {
                            None
                        }
                    },
                    None => None,
                }
            },
            None => None,
        }
    }

    /// The machine that feeds live machine `m` with `kind`; see `first_feed`.
    pub fn find_feed(&self, m: usize, kind: ResourceType) -> (r: Option<usize>)
        requires
            self.machine_live(m),
        ensures
            r == self.first_feed(m, kind),
            r matches Some(sm) ==> self.machine_live(sm),
    {
        match &self.machines[m] {
            Some(mach) => {
                let ghost hs = mach.ports@;
                assert(hs.subrange(0, hs.len() as int) =~= hs);
                let mut i: usize = 0;
                while i < mach.ports.len()
                    invariant
                        i <= hs.len(),
                        hs == mach.ports@,
                        m < self.machines@.len(),
                        self.machines@[m as int] == Some(*mach),
                        self.first_feed_in(hs, kind) == self.first_feed_in(hs.subrange(i as int, hs.len() as int), kind),
                    decreases hs.len() - i,
                {
                    let q = mach.ports[i];
                    let f = self.feed_of_exec(q, kind);
                    assert(hs.subrange(i as int, hs.len() as int).drop_first() =~= hs.subrange(i + 1, hs.len() as int));
                    if f.is_some() {
                        return f;
                    }
                    i = i + 1;
                }
                assert(hs.subrange(i as int, hs.len() as int).len() == 0);
                None
            },
            None => None,
        }
    }

    /// Replaces the buffer of live machine `m`.
    fn set_buffer(&mut self, m: usize, b: Buffer)
        requires
            old(self).machine_live(m),
        ensures
            final(self).machines@ == with_buffer(old(self).machines@, m, b),
            final(self).same_but_buffers(old(self)),
            final(self).wf() == old(self).wf(),
    {
        let ghost before = self.machines@;
        match &mut self.machines[m] {
            Some(mach) => {
                mach.buffer = b;
            },
            None => {},
        }
        assert(self.machines@ =~= with_buffer(before, m, b));
    }

    /// The effect of machine `m`'s rule for `phase` on the buffers `ms` and the pool
    /// `res`, where the grid, ports, networks and the machines' kinds, places and ports
    /// are those of `self`.
    pub open spec fn step_effect(
        &self,
        phase: Phase,
        ms: Seq<Option<Machine>>,
        res: Resources,
        m: usize,
    ) -> (Seq<Option<Machine>>, Resources) {
        if !self.machine_live(m) {
            (ms, res)
        } else {
            let kind = self.machines@[m as int]->0.kind;
            let placed = self.machines@[m as int]->0.pos is Some;
            match (phase, kind) {
                (Phase::Draw, MachineKind::Inlet(k)) => {
                    let r = inlet_draw_spec(res.get_spec(k), amount_in(ms, m));
                    (with_amount(ms, m, r.1), res.with_spec(k, r.0))
                },
                (Phase::Deliver, MachineKind::Outlet) => {
                    let fed = match self.first_feed(m, ResourceType::Ammo) {
                        Some(sm) => Some((sm, ResourceType::Ammo)),
                        None => match self.first_feed(m, ResourceType::Rockets) {
                            Some(sm) => Some((sm, ResourceType::Rockets)),
                            None => None,
                        },
                    };
                    match fed {
                        Some((sm, k)) => {
                            let r = outlet_deliver_spec(amount_in(ms, sm), res.get_spec(k));
                            (with_amount(ms, sm, r.0), res.with_spec(k, r.1))
                        },
                        None => (ms, res),
                    }
                },
                (Phase::Produce, MachineKind::AmmoFactory) => match self.first_feed(
                    m,
                    ResourceType::Mineral,
                ) {
                    Some(sm) => if placed {
                        let r = ammo_convert_spec(amount_in(ms, sm), amount_in(ms, m));
                        (with_amount(with_amount(ms, sm, r.0), m, r.1), res)
                    } else {
                        (ms, res)
                    },
                    None => (ms, res),
                },
                (Phase::Produce, MachineKind::RocketFactory) => match (
                    self.stocked_feed(m, ResourceType::Mineral, ROCKET_MINERALS, ms),
                    self.stocked_feed(m, ResourceType::Gas, ROCKET_GAS, ms),
                ) {
                    (Some(sa), Some(sg)) => if placed {
                        let r = rocket_convert_spec(
                            amount_in(ms, sa),
                            amount_in(ms, sg),
                            amount_in(ms, m),
                        );
                        (with_amount(with_amount(with_amount(ms, sa, r.0), sg, r.1), m, r.2), res)
                    } else {
                        (ms, res)
                    },
                    _ => (ms, res),
                },
                (Phase::Produce, MachineKind::HullFixer) => match self.first_feed(
                    m,
                    ResourceType::Mineral,
                ) {
                    Some(sm) => if placed {
                        let r = hull_repair_spec(amount_in(ms, sm), res.health);
                        (with_amount(ms, sm, r.0), Resources { health: r.1, ..res })
                    } else {
                        (ms, res)
                    },
                    None => (ms, res),
                },
                (Phase::Produce, MachineKind::PipeSwitch) => match self.first_feed(
                    m,
                    ResourceType::Mineral,
                ) {
                    Some(sm) => if placed && amount_in(ms, sm) >= 1 && amount_in(ms, m)
                        < SWITCH_CAPACITY {
                        let r = switch_pass_spec(amount_in(ms, sm), amount_in(ms, m));
                        (
                            with_buffer(
                                with_amount(ms, sm, r.0),
                                m,
                                Buffer(ms[sm as int]->0.buffer.0, r.1),
                            ),
                            res,
                        )
                    } else {
                        (ms, res)
                    },
                    None => (ms, res),
                },
                _ => (ms, res),
            }
        }
    }

    /// The buffers and pool after the machines `0 .. n` have applied their rule for
    /// `phase`, one after another, starting from `ms` and `res`.
    pub open spec fn pass_upto(
        &self,
        phase: Phase,
        ms: Seq<Option<Machine>>,
        res: Resources,
        n: nat,
    ) -> (Seq<Option<Machine>>, Resources)
        decreases n,
    {
        if n == 0 {
            (ms, res)
        } else {
            let p = self.pass_upto(phase, ms, res, (n - 1) as nat);
            self.step_effect(phase, p.0, p.1, (n - 1) as usize)
        }
    }

    /// An ammo factory's tick: where machine `m` is a placed ammo factory fed with
    /// minerals, converts as `ammo_convert` says between its feeding machine's buffer and
    /// its own; otherwise nothing changes.
    pub fn ammo_factory_step(&mut self, m: usize)
        requires
            old(self).wf(),
        ensures
            final(self).wf(),
            final(self).same_but_buffers(old(self)),
            final(self).machines@ == if old(self).placed_as(m, MachineKind::AmmoFactory) {
                match old(self).first_feed(m, ResourceType::Mineral) {
                    Some(sm) => {
                        let r = ammo_convert_spec(old(self).amount(sm), old(self).amount(m));
                        with_amount(with_amount(old(self).machines@, sm, r.0), m, r.1)
                    },
                    None => old(self).machines@,
                }
            } else {
                old(self).machines@
            },
    {
        if m >= self.machines.len() {
            return ;
        }
        let own = match &self.machines[m] {
            Some(mach) => {
                if mach.pos.is_none() || mach.kind != MachineKind::AmmoFactory {
                    return ;
                }
                mach.buffer
            },
            None => {
                return ;
            },
        };
        match self.find_feed(m, ResourceType::Mineral) {
            Some(sm) => {
                let src = match &self.machines[sm] {
                    Some(mach) => mach.buffer,
                    None => own,
                };
                let r = ammo_convert(src.1, own.1);
                self.set_buffer(sm, Buffer(src.0, r.0));
                self.set_buffer(m, Buffer(own.0, r.1));
            },
            None => {},
        }
    }

    /// A rocket factory's tick: where machine `m` is a placed rocket factory fed by a
    /// mineral source holding at least three units and a gas source holding at least two
    /// (the first such of its ports for each), converts as `rocket_convert` says between
    /// the two feeding buffers and its own (all or nothing); otherwise nothing changes.
    pub fn rocket_factory_step(&mut self, m: usize)
        requires
            old(self).wf(),
        ensures
            final(self).wf(),
            final(self).same_but_buffers(old(self)),
            final(self).machines@ == if old(self).placed_as(m, MachineKind::RocketFactory) {
                match (
                    old(self).stocked_feed(m, ResourceType::Mineral, ROCKET_MINERALS, old(self).machines@),
                    old(self).stocked_feed(m, ResourceType::Gas, ROCKET_GAS, old(self).machines@),
                ) {
                    (Some(sa), Some(sg)) => {
                        let r = rocket_convert_spec(
                            old(self).amount(sa),
                            old(self).amount(sg),
                            old(self).amount(m),
                        );
                        with_amount(
                            with_amount(with_amount(old(self).machines@, sa, r.0), sg, r.1),
                            m,
                            r.2,
                        )
                    },
                    _ => old(self).machines@,
                }
            } else {
                old(self).machines@
            },
    {
        if m >= self.machines.len() {
            return ;
        }
        let own = match &self.machines[m] {
            Some(mach) => {
                if mach.pos.is_none() || mach.kind != MachineKind::RocketFactory {
                    return ;
                }
                mach.buffer
            },
            None => {
                return ;
            },
        };
        let fm = self.find_stocked_feed(m, ResourceType::Mineral, ROCKET_MINERALS);
        let fg = self.find_stocked_feed(m, ResourceType::Gas, ROCKET_GAS);
        match (fm, fg) {
            (Some(sa), Some(sg)) => {
                let ba = match &self.machines[sa] {
                    Some(mach) => mach.buffer,
                    None => own,
                };
                let bg = match &self.machines[sg] {
                    Some(mach) => mach.buffer,
                    None => own,
                };
                let r = rocket_convert(ba.1, bg.1, own.1);
                self.set_buffer(sa, Buffer(ba.0, r.0));
                let ghost mid = self.machines@;
                assert(mid[sg as int]->0.buffer.0 == bg.0);
                self.set_buffer(sg, Buffer(bg.0, r.1));
                let ghost mid2 = self.machines@;
                assert(mid2[m as int]->0.buffer.0 == own.0);
                self.set_buffer(m, Buffer(own.0, r.2));
            },
            _ => {},
        }
    }

    /// A hull fixer's tick: where machine `m` is a placed hull fixer fed with minerals,
    /// repairs as `hull_repair` says between its feeding buffer and the pool's health;
    /// otherwise nothing changes.
    pub fn hull_fixer_step(&mut self, m: usize, res: &mut Resources)
        requires
            old(self).wf(),
        ensures
            final(self).wf(),
            final(self).same_but_buffers(old(self)),
            ({
                let fed = if old(self).placed_as(m, MachineKind::HullFixer) {
                    old(self).first_feed(m, ResourceType::Mineral)
                } else {
                    None
                };
                match fed {
                    Some(sm) => {
                        let r = hull_repair_spec(old(self).amount(sm), old(res).health);
                        &&& final(self).machines@ == with_amount(old(self).machines@, sm, r.0)
                        &&& *final(res) == Resources { health: r.1, ..*old(res) }
                    },
                    None => final(self).machines@ == old(self).machines@ && *final(res) == *old(res),
                }
            }),
    {
        if m >= self.machines.len() {
            return ;
        }
        match &self.machines[m] {
            Some(mach) => {
                if mach.pos.is_none() || mach.kind != MachineKind::HullFixer {
                    return ;
                }
            },
            None => {
                return ;
            },
        }
        match self.find_feed(m, ResourceType::Mineral) {
            Some(sm) => {
                let src = match &self.machines[sm] {
                    Some(mach) => mach.buffer,
                    None => Buffer(ResourceType::Mineral, 0),
                };
                let r = hull_repair(src.1, res.health);
                self.set_buffer(sm, Buffer(src.0, r.0));
                res.health = r.1;
            },
            None => {},
        }
    }

    /// A pipe switch's tick: where machine `m` is a placed pipe switch fed with minerals,
    /// passes one unit as `switch_pass` says from its feeding buffer into its own, whose
    /// kind becomes the source's; otherwise nothing changes.
    pub fn pipe_switch_step(&mut self, m: usize)
        requires
            old(self).wf(),
        ensures
            final(self).wf(),
            final(self).same_but_buffers(old(self)),
            final(self).machines@ == if old(self).placed_as(m, MachineKind::PipeSwitch) {
                match old(self).first_feed(m, ResourceType::Mineral) {
                    Some(sm) => {
                        let r = switch_pass_spec(old(self).amount(sm), old(self).amount(m));
                        if old(self).amount(sm) >= 1 && old(self).amount(m) < SWITCH_CAPACITY {
                            with_buffer(
                                with_amount(old(self).machines@, sm, r.0),
                                m,
                                Buffer(old(self).machines@[sm as int]->0.buffer.0, r.1),
                            )
                        } else {
                            old(self).machines@
                        }
                    },
                    None => old(self).machines@,
                }
            } else {
                old(self).machines@
            },
    {
        if m >= self.machines.len() {
            return ;
        }
        let own = match &self.machines[m] {
            Some(mach) => {
                if mach.pos.is_none() || mach.kind != MachineKind::PipeSwitch {
                    return ;
                }
                mach.buffer
            },
            None => {
                return ;
            },
        };
        match self.find_feed(m, ResourceType::Mineral) {
            Some(sm) => {
                let src = match &self.machines[sm] {
                    Some(mach) => mach.buffer,
                    None => own,
                };
                if src.1 >= 1 && own.1 < SWITCH_CAPACITY {
                    let r = switch_pass(src.1, own.1);
                    self.set_buffer(sm, Buffer(src.0, r.0));
                    self.set_buffer(m, Buffer(src.0, r.1));
                }
            },
            None => {},
        }
    }

    /// An inlet's frame: where machine `m` is a live inlet of kind `k`, draws as
    /// `inlet_draw` says from the pool's `k` into its buffer; otherwise nothing changes.
    pub fn inlet_step(&mut self, m: usize, res: &mut Resources)
        requires
            old(self).wf(),
        ensures
            final(self).wf(),
            final(self).same_but_buffers(old(self)),
            (if old(self).machine_live(m) {
                match old(self).machines@[m as int]->0.kind {
                    MachineKind::Inlet(k) => {
                        let r = inlet_draw_spec(old(res).get_spec(k), old(self).amount(m));
                        &&& final(self).machines@ == with_amount(old(self).machines@, m, r.1)
                        &&& *final(res) == old(res).with_spec(k, r.0)
                    },
                    _ => final(self).machines@ == old(self).machines@ && *final(res) == *old(res),
                }
            } else {
                final(self).machines@ == old(self).machines@ && *final(res) == *old(res)
            }),
    {
        if m >= self.machines.len() {
            return ;
        }
        let (k, own) = match &self.machines[m] {
            Some(mach) => match mach.kind {
                MachineKind::Inlet(k) => (k, mach.buffer),
                _ => {
                    return ;
                },
            },
            None => {
                return ;
            },
        };
        let r = inlet_draw(res.get(k), own.1);
        res.add(k, r.0 - res.get(k));
        self.set_buffer(m, Buffer(own.0, r.1));
    }

    /// An outlet's frame: where machine `m` is a live outlet fed with ammo (else with
    /// rockets), delivers as `outlet_deliver` says from its feeding buffer into the
    /// pool; otherwise nothing changes.
    pub fn outlet_step(&mut self, m: usize, res: &mut Resources)
        requires
            old(self).wf(),
        ensures
            final(self).wf(),
            final(self).same_but_buffers(old(self)),
            ({
                let fed = if old(self).machine_live(m) && old(self).machines@[m as int]->0.kind
                    == MachineKind::Outlet {
                    match old(self).first_feed(m, ResourceType::Ammo) {
                        Some(sm) => Some((sm, ResourceType::Ammo)),
                        None => match old(self).first_feed(m, ResourceType::Rockets) {
                            Some(sm) => Some((sm, ResourceType::Rockets)),
                            None => None,
                        },
                    }
                } else {
                    None
                };
                match fed {
                    Some((sm, k)) => {
                        let r = outlet_deliver_spec(old(self).amount(sm), old(res).get_spec(k));
                        &&& final(self).machines@ == with_amount(old(self).machines@, sm, r.0)
                        &&& *final(res) == old(res).with_spec(k, r.1)
                    },
                    None => final(self).machines@ == old(self).machines@ && *final(res) == *old(res),
                }
            }),
    {
        if m >= self.machines.len() {
            return ;
        }
        match &self.machines[m] {
            Some(mach) => {
                if mach.kind != MachineKind::Outlet {
                    return ;
                }
            },
            None => {
                return ;
            },
        }
        let fed = match self.find_feed(m, ResourceType::Ammo) {
            Some(sm) => Some((sm, ResourceType::Ammo)),
            None => match self.find_feed(m, ResourceType::Rockets) {
                Some(sm) => Some((sm, ResourceType::Rockets)),
                None => None,
            },
        };
        if let Some((sm, k)) = fed {
            let src = match &self.machines[sm] {
                Some(mach) => mach.buffer,
                None => Buffer(k, 0),
            };
            let r = outlet_deliver(src.1, res.get(k));
            res.add(k, r.1 - res.get(k));
            self.set_buffer(sm, Buffer(src.0, r.0));
        }
    }

    /// One factory tick: every live machine, in handle order, takes its production step
    /// (ammo factories, rocket factories, hull fixers, pipe switches); so where two
    /// machines draw on the same scarce source, the lower handle is served first.
    pub fn factory_tick(&mut self, res: &mut Resources)
        requires
            old(self).wf(),
        ensures
            final(self).wf(),
            final(self).same_but_buffers(old(self)),
            (final(self).machines@, *final(res)) == old(self).pass_upto(
                Phase::Produce,
                old(self).machines@,
                *old(res),
                old(self).machines@.len() as nat,
            ),
            *final(res) == (Resources { health: final(res).health, ..*old(res) }),
    {
        let mut m: usize = 0;
        while m < self.machines.len()
            invariant
                self.wf(),
                self.same_but_buffers(old(self)),
                m <= self.machines@.len(),
                (self.machines@, *res) == old(self).pass_upto(
                    Phase::Produce,
                    old(self).machines@,
                    *old(res),
                    m as nat,
                ),
                *res == (Resources { health: res.health, ..*old(res) }),
            decreases self.machines@.len() - m,
        {
            let kind = match &self.machines[m] {
                Some(mach) => Some(mach.kind),
                None => None,
            };
            let ghost prev = *self;
            let ghost prev_res = *res;
            proof {
                let hs = prev.machines@[m as int]->0.ports@;
                lemma_feeds_agree(&prev, old(self), hs, ResourceType::Mineral);
                lemma_feeds_agree(&prev, old(self), hs, ResourceType::Gas);
                lemma_stocked_agree(&prev, old(self), hs, ResourceType::Mineral, ROCKET_MINERALS, prev.machines@);
                lemma_stocked_agree(&prev, old(self), hs, ResourceType::Gas, ROCKET_GAS, prev.machines@);
                assert(prev.machines@[m as int] is Some <==> old(self).machines@[m as int] is Some);
            }
            match kind {
                Some(MachineKind::AmmoFactory) => self.ammo_factory_step(m),
                Some(MachineKind::RocketFactory) => self.rocket_factory_step(m),
                Some(MachineKind::HullFixer) => self.hull_fixer_step(m, res),
                Some(MachineKind::PipeSwitch) => self.pipe_switch_step(m),
                _ => {},
            }
            proof {
                lemma_same_but_buffers_trans(self, &prev, old(self));
                assert((self.machines@, *res) == old(self).step_effect(
                    Phase::Produce,
                    prev.machines@,
                    prev_res,
                    m,
                ));
            }
            m = m + 1;
        }
    }

    /// The transfers of a frame: every live inlet draws from the pool, then every live
    /// outlet delivers into it, each in handle order.
    pub fn frame_transfer(&mut self, res: &mut Resources)
        requires
            old(self).wf(),
        ensures
            final(self).wf(),
            final(self).same_but_buffers(old(self)),
            ({
                let drawn = old(self).pass_upto(
                    Phase::Draw,
                    old(self).machines@,
                    *old(res),
                    old(self).machines@.len() as nat,
                );
                (final(self).machines@, *final(res)) == old(self).pass_upto(
                    Phase::Deliver,
                    drawn.0,
                    drawn.1,
                    old(self).machines@.len() as nat,
                )
            }),
    {
        let mut m: usize = 0;
        while m < self.machines.len()
            invariant
                self.wf(),
                self.same_but_buffers(old(self)),
                m <= self.machines@.len(),
                (self.machines@, *res) == old(self).pass_upto(
                    Phase::Draw,
                    old(self).machines@,
                    *old(res),
                    m as nat,
                ),
            decreases self.machines@.len() - m,
        {
            let ghost prev = *self;
            let ghost prev_res = *res;
            proof {
                assert(prev.machines@[m as int] is Some <==> old(self).machines@[m as int] is Some);
            }
            self.inlet_step(m, res);
            proof {
                lemma_same_but_buffers_trans(self, &prev, old(self));
                assert((self.machines@, *res) == old(self).step_effect(
                    Phase::Draw,
                    prev.machines@,
                    prev_res,
                    m,
                ));
            }
            m = m + 1;
        }
        let ghost drawn_ms = self.machines@;
        let ghost drawn_res = *res;
        let mut m: usize = 0;
        while m < self.machines.len()
            invariant
                self.wf(),
                self.same_but_buffers(old(self)),
                m <= self.machines@.len(),
                (self.machines@, *res) == old(self).pass_upto(
                    Phase::Deliver,
                    drawn_ms,
                    drawn_res,
                    m as nat,
                ),
            decreases self.machines@.len() - m,
        {
            let ghost prev = *self;
            let ghost prev_res = *res;
            proof {
                let hs = prev.machines@[m as int]->0.ports@;
                lemma_feeds_agree(&prev, old(self), hs, ResourceType::Ammo);
                lemma_feeds_agree(&prev, old(self), hs, ResourceType::Rockets);
                assert(prev.machines@[m as int] is Some <==> old(self).machines@[m as int] is Some);
            }
            self.outlet_step(m, res);
            proof {
                lemma_same_but_buffers_trans(self, &prev, old(self));
                assert((self.machines@, *res) == old(self).step_effect(
                    Phase::Deliver,
                    prev.machines@,
                    prev_res,
                    m,
                ));
            }
            m = m + 1;
        }
    }
    /// The buffers and pool after `n` factory ticks, each a produce pass over all machines.
    pub open spec fn produce_times(
        &self,
        ms: Seq<Option<Machine>>,
        res: Resources,
        n: nat,
    ) -> (Seq<Option<Machine>>, Resources)
        decreases n,
    {
        if n == 0 {
            (ms, res)
        } else {
            let p = self.produce_times(ms, res, (n - 1) as nat);
            self.pass_upto(Phase::Produce, p.0, p.1, self.machines@.len() as nat)
        }
    }

    /// One frame of the factory, in a fixed order: the tick economy for `delta`
    /// milliseconds, the inlet and outlet transfers, one factory tick for each tick that
    /// fired, then the connection step for the oldest queued piece and a rebuild where
    /// an invalidation is pending. Returns the number of ticks.
    pub fn run_frame(
        &mut self,
        timer: &mut FactoryTimer,
        res: &mut Resources,
        scale: &mut TimeScale,
        delta: u64,
    ) -> (ticks: u64)
        requires
            old(self).wf(),
            old(timer).wf(),
            old(scale).wf(),
            old(res).time >= 0,
        ensures
            final(self).wf(),
            final(timer).wf(),
            final(scale).wf(),
            ticks == (old(timer).elapsed + consumed_spec(old(res).time, old(scale).0, delta))
                / old(timer).period as int,
            old(res).time == 0 ==> ticks == 0,
            ({
                let used = consumed_spec(old(res).time, old(scale).0, delta);
                let spent = Resources { time: (old(res).time - used) as i64, ..*old(res) };
                let n = old(self).machines@.len() as nat;
                let drawn = old(self).pass_upto(Phase::Draw, old(self).machines@, spent, n);
                let moved = old(self).pass_upto(Phase::Deliver, drawn.0, drawn.1, n);
                (final(self).machines@, *final(res)) == old(self).produce_times(
                    moved.0,
                    moved.1,
                    ticks as nat,
                )
            }),
            final(self).invalidations == 0,
            old(self).invalidations > 0 || !Factory::same_links(final(self), old(self))
                ==> final(self).networks_built(),
            forall|a: Link, b: Link|
                old(self).refers_spec(a, b) ==> #[trigger] final(self).refers_spec(a, b),
            old(self).pending@.len() == 0 ==> Factory::same_links(final(self), old(self))
                && final(self).pending@ == old(self).pending@,
            old(self).pending@.len() > 0 ==> (Factory::same_links(final(self), old(self)) || (exists|l: Link|
                #[trigger] final(self).one_new_link(old(self), old(self).pending@[0], l))),
            old(self).pending@.len() > 0 ==> final(self).pending@ == old(self).pending@.drop_first()
                || final(self).pending@ == old(self).pending@.drop_first().push(old(self).pending@[0]),
    {
        let ticks = time_consume(timer, res, scale, delta);
        self.frame_transfer(res);
        let ghost moved_ms = self.machines@;
        let ghost moved_res = *res;
        let mut t: u64 = 0;
        while t < ticks
            invariant
                self.wf(),
                t <= ticks,
                self.same_but_buffers(old(self)),
                (self.machines@, *res) == old(self).produce_times(moved_ms, moved_res, t as nat),
            decreases ticks - t,
        {
            let ghost prev = *self;
            self.factory_tick(res);
            proof {
                lemma_same_but_buffers_trans(self, &prev, old(self));
                lemma_passes_agree(&prev, old(self), Phase::Produce, prev.machines@, *res, prev.machines@.len() as nat);
            }
            t = t + 1;
        }
        let ghost done_ms = self.machines@;
        let ghost s0 = *self;
        let _ = self.connect_step();
        let ghost s1 = *self;
        let _ = self.network_rebuild();
        proof {
            assert(self.machines@ == done_ms);
            assert(forall|a: Link, b: Link| #[trigger] s0.refers_spec(a, b) == old(self).refers_spec(a, b));
            assert(forall|a: Link, b: Link| #[trigger] self.refers_spec(a, b) == s1.refers_spec(a, b));
            if Factory::same_links(self, old(self)) {
                assert forall|a: Link, b: Link| #[trigger] s1.refers_spec(a, b) == s0.refers_spec(a, b) by {
                    assert(self.refers_spec(a, b) == old(self).refers_spec(a, b));
                }
                assert(Factory::same_links(&s1, &s0));
            } else {
                assert(!Factory::same_links(&s1, &s0)) by {
                    let (a, b) = choose|a: Link, b: Link| !(#[trigger] self.refers_spec(a, b) == old(self).refers_spec(a, b));
                    assert(s1.refers_spec(a, b) != s0.refers_spec(a, b));
                }
            }
            if s0.pending@.len() > 0 {
                if exists|l: Link| #[trigger] s1.one_new_link(&s0, s0.pending@[0], l) {
                    let l = choose|l: Link| #[trigger] s1.one_new_link(&s0, s0.pending@[0], l);
                    assert(self.one_new_link(old(self), old(self).pending@[0], l));
                }
            }
        }
        ticks
    }
}

/// Two states that differ only in buffers make the same passes.
pub proof fn lemma_passes_agree(
    a: &Factory,
    b: &Factory,
    phase: Phase,
    ms: Seq<Option<Machine>>,
    res: Resources,
    n: nat,
)
    requires
        a.same_but_buffers(b),
    ensures
        forall|ms2: Seq<Option<Machine>>, res2: Resources|
            #[trigger] a.pass_upto(phase, ms2, res2, n) == b.pass_upto(phase, ms2, res2, n),
    decreases n,
{
    if n > 0 {
        lemma_passes_agree(a, b, phase, ms, res, (n - 1) as nat);
        let m = (n - 1) as usize;
        if 0 <= m < a.machines@.len() && a.machines@[m as int] is Some {
            let hs = a.machines@[m as int]->0.ports@;
            lemma_feeds_agree(a, b, hs, ResourceType::Mineral);
            lemma_feeds_agree(a, b, hs, ResourceType::Gas);
            lemma_feeds_agree(a, b, hs, ResourceType::Ammo);
            lemma_feeds_agree(a, b, hs, ResourceType::Rockets);
            assert forall|ms2: Seq<Option<Machine>>, k: ResourceType, mn: i64|
                #[trigger] a.first_feed_with(hs, k, mn, ms2) == b.first_feed_with(hs, k, mn, ms2) by {
                lemma_stocked_agree(a, b, hs, k, mn, ms2);
            }
        }
        if m < a.machines@.len() {
            assert(a.machines@[m as int] is Some <==> b.machines@[m as int] is Some);
        }
        assert(a.machine_live(m) == b.machine_live(m));
        assert forall|ms2: Seq<Option<Machine>>, res2: Resources|
            #[trigger] a.pass_upto(phase, ms2, res2, n) == b.pass_upto(phase, ms2, res2, n) by {
            let p = a.pass_upto(phase, ms2, res2, (n - 1) as nat);
            assert(p == b.pass_upto(phase, ms2, res2, (n - 1) as nat));
            assert(a.step_effect(phase, p.0, p.1, m) == b.step_effect(phase, p.0, p.1, m));
        }
    }
}

/// Two states that differ only in buffers agree on which machine feeds which.
pub proof fn lemma_feeds_agree(a: &Factory, b: &Factory, hs: Seq<usize>, kind: ResourceType)
    requires
        a.same_but_buffers(b),
    ensures
        a.first_feed_in(hs, kind) == b.first_feed_in(hs, kind),
    decreases hs.len(),
{
    if hs.len() > 0 {
        let q = hs[0];
        if port_live(a.ports@, q as int) && q < a.port_network@.len() {
            if let Some(i) = a.port_network@[q as int] {
                if i < a.networks@.len() {
                    let src = a.networks@[i as int].source;
                    if port_live(a.ports@, src as int) {
                        let sm = a.ports@[src as int]->0.machine;
                        if 0 <= sm < a.machines@.len() {
                            assert(a.machines@[sm as int] is Some <==> b.machines@[sm as int] is Some);
                        }
                    }
                }
            }
        }
        assert(a.feed_of(q, kind) == b.feed_of(q, kind));
        lemma_feeds_agree(a, b, hs.drop_first(), kind);
    }
}

/// Two states that differ only in buffers agree on the stocked feeds of given buffers.
pub proof fn lemma_stocked_agree(
    a: &Factory,
    b: &Factory,
    hs: Seq<usize>,
    kind: ResourceType,
    min: i64,
    ms: Seq<Option<Machine>>,
)
    requires
        a.same_but_buffers(b),
    ensures
        a.first_feed_with(hs, kind, min, ms) == b.first_feed_with(hs, kind, min, ms),
    decreases hs.len(),
{
    if hs.len() > 0 {
        lemma_feeds_agree(a, b, seq![hs[0]], kind);
        assert(seq![hs[0]].drop_first() =~= Seq::<usize>::empty());
        assert(a.feed_of(hs[0], kind) == b.feed_of(hs[0], kind));
        lemma_stocked_agree(a, b, hs.drop_first(), kind, min, ms);
    }
}

/// `same_but_buffers` is transitive.
pub proof fn lemma_same_but_buffers_trans(a: &Factory, b: &Factory, c: &Factory)
    requires
        a.same_but_buffers(b),
        b.same_but_buffers(c),
    ensures
        a.same_but_buffers(c),
{
    assert forall|m: int|
        0 <= m < a.machines@.len() implies (#[trigger] a.machines@[m] is Some <==> c.machines@[m] is Some)
            && (a.machines@[m] is Some ==> a.machines@[m]->0.kind == c.machines@[m]->0.kind
            && a.machines@[m]->0.pos == c.machines@[m]->0.pos && a.machines@[m]->0.ports@
            == c.machines@[m]->0.ports@) by {
        assert(b.machines@[m] is Some <==> c.machines@[m] is Some);
    }
}

} // verus!
