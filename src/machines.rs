use vstd::prelude::*;

use crate::factory::{Buffer, FlowDirection, MachineKind, MachinePort, MachineTemplate};
use crate::grid::{Direction, TileCoords};
use crate::resources::ResourceType;

verus! {

/// The port of a template: side and flow, not yet connected.
pub open spec fn port_of(side: Direction, flow: FlowDirection) -> MachinePort {
    MachinePort { side, flow, connected: None, machine: 0 }
}

/// An inlet on `coords`: it draws `resource` from the pool into its buffer and hands
/// it out through one outlet port on side `dir`.
pub fn inlet(resource: ResourceType, coords: TileCoords, dir: Direction) -> (r: MachineTemplate)
    ensures
        r.kind == MachineKind::Inlet(resource),
        r.pos == Some(coords),
        r.buffer == Buffer(resource, 0),
        r.ports@ == seq![port_of(dir, FlowDirection::Outlet)],
{
    let ports = vec![MachinePort::new(dir, FlowDirection::Outlet)];
    assert(ports@ =~= seq![port_of(dir, FlowDirection::Outlet)]);
    MachineTemplate {
        kind: MachineKind::Inlet(resource),
        pos: Some(coords),
        buffer: Buffer(resource, 0),
        ports,
    }
}

/// An outlet on `coords`: it takes ammo or rockets in through one inlet port on side
/// `dir` and delivers them to the pool.
pub fn outlet(coords: TileCoords, dir: Direction) -> (r: MachineTemplate)
    ensures
        r.kind == MachineKind::Outlet,
        r.pos == Some(coords),
        r.buffer == Buffer(ResourceType::Ammo, 0),
        r.ports@ == seq![port_of(dir, FlowDirection::Inlet)],
{
    let ports = vec![MachinePort::new(dir, FlowDirection::Inlet)];
    assert(ports@ =~= seq![port_of(dir, FlowDirection::Inlet)]);
    MachineTemplate {
        kind: MachineKind::Outlet,
        pos: Some(coords),
        buffer: Buffer(ResourceType::Ammo, 0),
        ports,
    }
}

/// An ammo factory, not yet placed: minerals in on the left, ammo out on the right.
pub fn ammo_factory() -> (r: MachineTemplate)
    ensures
        r.kind == MachineKind::AmmoFactory,
        r.pos is None,
        r.buffer == Buffer(ResourceType::Ammo, 0),
        r.ports@ == seq![
            port_of(Direction::Left, FlowDirection::Inlet),
            port_of(Direction::Right, FlowDirection::Outlet),
        ],
{
    let ports = vec![
        MachinePort::new(Direction::Left, FlowDirection::Inlet),
        MachinePort::new(Direction::Right, FlowDirection::Outlet),
    ];
    assert(ports@ =~= seq![
        port_of(Direction::Left, FlowDirection::Inlet),
        port_of(Direction::Right, FlowDirection::Outlet),
    ]);
    MachineTemplate {
        kind: MachineKind::AmmoFactory,
        pos: None,
        buffer: Buffer(ResourceType::Ammo, 0),
        ports,
    }
}

/// A rocket factory, not yet placed: two inlets (right and below) and rockets out on
/// the left.
pub fn rocket_factory() -> (r: MachineTemplate)
    ensures
        r.kind == MachineKind::RocketFactory,
        r.pos is None,
        r.buffer == Buffer(ResourceType::Rockets, 0),
        r.ports@ == seq![
            port_of(Direction::Right, FlowDirection::Inlet),
            port_of(Direction::Down, FlowDirection::Inlet),
            port_of(Direction::Left, FlowDirection::Outlet),
        ],
{
    let ports = vec![
        MachinePort::new(Direction::Right, FlowDirection::Inlet),
        MachinePort::new(Direction::Down, FlowDirection::Inlet),
        MachinePort::new(Direction::Left, FlowDirection::Outlet),
    ];
    assert(ports@ =~= seq![
        port_of(Direction::Right, FlowDirection::Inlet),
        port_of(Direction::Down, FlowDirection::Inlet),
        port_of(Direction::Left, FlowDirection::Outlet),
    ]);
    MachineTemplate {
        kind: MachineKind::RocketFactory,
        pos: None,
        buffer: Buffer(ResourceType::Rockets, 0),
        ports,
    }
}

/// A hull fixer, not yet placed: minerals in from above.
pub fn hull_fixer() -> (r: MachineTemplate)
    ensures
        r.kind == MachineKind::HullFixer,
        r.pos is None,
        r.buffer == Buffer(ResourceType::Mineral, 0),
        r.ports@ == seq![port_of(Direction::Up, FlowDirection::Inlet)],
{
    let ports = vec![MachinePort::new(Direction::Up, FlowDirection::Inlet)];
    assert(ports@ =~= seq![port_of(Direction::Up, FlowDirection::Inlet)]);
    MachineTemplate {
        kind: MachineKind::HullFixer,
        pos: None,
        buffer: Buffer(ResourceType::Mineral, 0),
        ports,
    }
}

/// A pipe switch, not yet placed: an inlet on the left and an outlet whose side the
/// player toggles, starting on the right.
pub fn pipe_switch() -> (r: MachineTemplate)
    ensures
        r.kind == MachineKind::PipeSwitch,
        r.pos is None,
        r.buffer == Buffer(ResourceType::Mineral, 0),
        r.ports@ == seq![
            port_of(Direction::Left, FlowDirection::Inlet),
            port_of(Direction::Right, FlowDirection::Outlet),
        ],
{
    let ports = vec![
        MachinePort::new(Direction::Left, FlowDirection::Inlet),
        MachinePort::new(Direction::Right, FlowDirection::Outlet),
    ];
    assert(ports@ =~= seq![
        port_of(Direction::Left, FlowDirection::Inlet),
        port_of(Direction::Right, FlowDirection::Outlet),
    ]);
    MachineTemplate {
        kind: MachineKind::PipeSwitch,
        pos: None,
        buffer: Buffer(ResourceType::Mineral, 0),
        ports,
    }
}


/// A machine the player can take from the shop and drop on the grid.
#[derive(Clone, Copy, Debug, PartialEq, Eq, Structural)]
pub enum ShopItem {
    AmmoFactory,
    PipeSwitch,
    HullFixer,
    RocketFactory,
}

impl ShopItem {
    /// The kind of machine this item builds.
    pub open spec fn kind_spec(self) -> MachineKind {
        match self {
            ShopItem::AmmoFactory => MachineKind::AmmoFactory,
            ShopItem::PipeSwitch => MachineKind::PipeSwitch,
            ShopItem::HullFixer => MachineKind::HullFixer,
            ShopItem::RocketFactory => MachineKind::RocketFactory,
        }
    }

    /// A fresh, unplaced machine of this item's kind.
    pub fn template(&self) -> (r: MachineTemplate)
        ensures
            r.kind == self.kind_spec(),
            r.pos is None,
            match self {
                ShopItem::AmmoFactory => r.buffer == Buffer(ResourceType::Ammo, 0) && r.ports@ == seq![
                    port_of(Direction::Left, FlowDirection::Inlet),
                    port_of(Direction::Right, FlowDirection::Outlet),
                ],
                ShopItem::PipeSwitch => r.buffer == Buffer(ResourceType::Mineral, 0) && r.ports@ == seq![
                    port_of(Direction::Left, FlowDirection::Inlet),
                    port_of(Direction::Right, FlowDirection::Outlet),
                ],
                ShopItem::HullFixer => r.buffer == Buffer(ResourceType::Mineral, 0) && r.ports@
                    == seq![port_of(Direction::Up, FlowDirection::Inlet)],
                ShopItem::RocketFactory => r.buffer == Buffer(ResourceType::Rockets, 0) && r.ports@ == seq![
                    port_of(Direction::Right, FlowDirection::Inlet),
                    port_of(Direction::Down, FlowDirection::Inlet),
                    port_of(Direction::Left, FlowDirection::Outlet),
                ],
            },
    {
        match self {
            ShopItem::AmmoFactory => ammo_factory(),
            ShopItem::PipeSwitch => pipe_switch(),
            ShopItem::HullFixer => hull_fixer(),
            ShopItem::RocketFactory => rocket_factory(),
        }
    }
}

} // verus!
