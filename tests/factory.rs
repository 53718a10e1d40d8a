use space_time::factory::{grid_spawn, Factory, FlowDirection, Link, MachineKind, Pipe};
use space_time::grid::{Building, Direction, TileCoords};
use space_time::machines::{ammo_factory, hull_fixer, pipe_switch, rocket_factory, ShopItem};
use space_time::resources::{ResourceType, Resources};
use space_time::time::{FactoryTimer, TimeScale};

fn drain(f: &mut Factory) {
    while f.connect_step().is_some() {}
}

fn port_of(f: &Factory, m: usize, i: usize) -> usize {
    f.machines[m].as_ref().unwrap().ports[i]
}

#[test]
fn starting_layout() {
    let f = grid_spawn();
    assert_eq!(f.machines.len(), 6);
    assert_eq!(f.grid.get_building(TileCoords::new(0, 3)), Some(Building::Machine(0)));
    assert_eq!(f.grid.get_building(TileCoords::new(9, 6)), Some(Building::Machine(3)));
    assert_eq!(f.grid.get_building(TileCoords::new(6, 9)), Some(Building::Machine(5)));
    let m0 = f.machines[0].as_ref().unwrap();
    assert_eq!(m0.kind, MachineKind::Inlet(ResourceType::Mineral));
    let port0 = f.ports[m0.ports[0]].unwrap();
    assert_eq!(port0.side, Direction::Right);
    assert_eq!(port0.flow, FlowDirection::Outlet);
    let m4 = f.machines[4].as_ref().unwrap();
    assert_eq!(m4.kind, MachineKind::Outlet);
    assert_eq!(f.ports[m4.ports[0]].unwrap().flow, FlowDirection::Inlet);
    assert_eq!(f.invalidations, 1);
    assert_eq!(f.pending.len(), 6);
}

#[test]
fn placement_never_overwrites() {
    let mut f = grid_spawn();
    let pos = TileCoords::new(4, 4);
    assert!(f.can_build(pos));
    let k = f.place_pipe(pos).unwrap();
    assert!(!f.can_build(pos));
    assert_eq!(f.place_pipe(pos), None);
    assert_eq!(f.place_machine(ammo_factory(), pos), None);
    assert_eq!(f.grid.get_building(pos), Some(Building::Pipe(k)));
    // border cells and inlets are refused too
    assert_eq!(f.place_pipe(TileCoords::new(0, 3)), None);
    assert_eq!(f.place_pipe(TileCoords::new(0, 4)), None);
    assert_eq!(f.place_pipe(TileCoords::new(-2, 4)), None);
    assert_eq!(f.grid.get_building(TileCoords::new(0, 3)), Some(Building::Machine(0)));
}

#[test]
fn placement_raises_invalidation() {
    let mut f = grid_spawn();
    let before = f.invalidations;
    f.place_pipe(TileCoords::new(2, 2)).unwrap();
    assert_eq!(f.invalidations, before + 1);
    assert!(f.network_rebuild());
    assert_eq!(f.invalidations, 0);
    assert!(!f.network_rebuild());
}

#[test]
fn port_pipe_connection_is_reciprocal_and_cleared() {
    let mut f = grid_spawn();
    let k = f.place_pipe(TileCoords::new(1, 3)).unwrap();
    drain(&mut f);
    let p = port_of(&f, 0, 0);
    assert_eq!(f.ports[p].unwrap().connected, Some(Link::Pipe(k)));
    assert_eq!(f.pipes[k].unwrap().from, Some(Link::Port(p)));
    assert!(f.remove_pipe_at(TileCoords::new(1, 3)));
    assert_eq!(f.ports[p].unwrap().connected, None);
    assert!(f.pipes[k].is_none());
    assert_eq!(f.grid.get_building(TileCoords::new(1, 3)), None);
    assert!(!f.remove_pipe_at(TileCoords::new(1, 3)));
}

#[test]
fn adjacent_machines_connect_port_to_port() {
    let mut f = grid_spawn();
    let a = f.place_machine(ammo_factory(), TileCoords::new(2, 5)).unwrap();
    let s = f.place_machine(pipe_switch(), TileCoords::new(3, 5)).unwrap();
    drain(&mut f);
    let out = port_of(&f, a, 1);
    let inp = port_of(&f, s, 0);
    assert_eq!(f.ports[out].unwrap().connected, Some(Link::Port(inp)));
    assert_eq!(f.ports[inp].unwrap().connected, Some(Link::Port(out)));
    assert!(f.remove_machine(s));
    assert_eq!(f.ports[out].unwrap().connected, None);
    assert!(f.ports[inp].is_none());
    assert_eq!(f.grid.get_building(TileCoords::new(3, 5)), None);
    assert!(!f.remove_machine(s));
}

#[test]
fn pipes_link_along_placement() {
    let mut f = grid_spawn();
    let a = f.place_pipe(TileCoords::new(1, 3)).unwrap();
    let b = f.place_pipe(TileCoords::new(2, 3)).unwrap();
    drain(&mut f);
    let p = port_of(&f, 0, 0);
    assert_eq!(f.pipes[a].unwrap().from, Some(Link::Port(p)));
    assert_eq!(f.pipes[a].unwrap().to, Some(Link::Pipe(b)));
    assert_eq!(f.pipes[b].unwrap().from, Some(Link::Pipe(a)));
    assert_eq!(f.pipes[b].unwrap().to, None);
}

#[test]
fn looped_chain_walk_terminates() {
    let mut f = grid_spawn();
    let a = f.place_pipe(TileCoords::new(2, 2)).unwrap();
    let b = f.place_pipe(TileCoords::new(3, 2)).unwrap();
    let c = f.place_pipe(TileCoords::new(3, 3)).unwrap();
    let d = f.place_pipe(TileCoords::new(2, 3)).unwrap();
    drain(&mut f);
    let mut loop_found = true;
    for k in [a, b, c, d] {
        let pipe: Pipe = f.pipes[k].unwrap();
        loop_found = loop_found && pipe.to.is_some() && pipe.from.is_some();
    }
    assert!(loop_found);
    let mut marks = vec![false; f.pipes.len()];
    let (chain, sink) = f.walk_chain(a, &mut marks);
    assert!(marks.iter().all(|m| !m));
    assert_eq!(chain.len(), 4);
    assert_eq!(sink, None);
    assert_eq!(chain[0], Link::Pipe(a));
    assert!(f.network_rebuild());
}

#[test]
fn inlet_pipe_factory_network() {
    let mut f = grid_spawn();
    let k = f.place_pipe(TileCoords::new(1, 3)).unwrap();
    let m = f.place_machine(ammo_factory(), TileCoords::new(2, 3)).unwrap();
    drain(&mut f);
    assert!(f.network_rebuild());
    let source = port_of(&f, 0, 0);
    let sink = port_of(&f, m, 0);
    let mut found = 0;
    for nw in f.networks.iter() {
        if nw.source == source {
            found += 1;
            assert_eq!(nw.sink, Some(sink));
            assert_eq!(nw.resource, ResourceType::Mineral);
            assert_eq!(nw.members, vec![Link::Port(source), Link::Pipe(k), Link::Port(sink)]);
        }
    }
    assert_eq!(found, 1);
    let connected: Vec<_> = f.networks.iter().filter(|nw| nw.sink.is_some()).collect();
    assert_eq!(connected.len(), 1);
    let idx = f.port_network[source].unwrap();
    assert_eq!(f.port_network[sink], Some(idx));
    assert_eq!(f.pipe_network[k], Some(idx));
    assert_eq!(f.networks[idx].source, source);
}

#[test]
fn ammo_factory_tick_through_network() {
    let mut f = grid_spawn();
    f.place_pipe(TileCoords::new(1, 3)).unwrap();
    let m = f.place_machine(ammo_factory(), TileCoords::new(2, 3)).unwrap();
    drain(&mut f);
    f.network_rebuild();
    let mut res = Resources::default();
    f.inlet_step(0, &mut res);
    assert_eq!(res.minerals, 9);
    assert_eq!(f.machines[0].as_ref().unwrap().buffer.1, 1);
    f.ammo_factory_step(m);
    assert_eq!(f.machines[0].as_ref().unwrap().buffer.1, 0);
    assert_eq!(f.machines[m].as_ref().unwrap().buffer.1, 3);
    f.ammo_factory_step(m);
    assert_eq!(f.machines[0].as_ref().unwrap().buffer.1, 0);
    assert_eq!(f.machines[m].as_ref().unwrap().buffer.1, 3);
}

#[test]
fn rocket_factory_waits_for_both_inputs() {
    let mut f = grid_spawn();
    // mineral inlet (0,6) -> pipes -> rocket factory's lower inlet; gas inlet (9,6) -> right inlet
    let r = f.place_machine(rocket_factory(), TileCoords::new(6, 7)).unwrap();
    for x in 1..6 {
        f.place_pipe(TileCoords::new(x, 6)).unwrap();
    }
    f.place_pipe(TileCoords::new(6, 6)).unwrap();
    f.place_pipe(TileCoords::new(8, 7)).unwrap();
    f.place_pipe(TileCoords::new(7, 7)).unwrap();
    drain(&mut f);
    f.network_rebuild();
    let mut res = Resources::default();
    res.gas = 5;
    for _ in 0..2 {
        f.inlet_step(1, &mut res);
    }
    for _ in 0..5 {
        f.inlet_step(3, &mut res);
    }
    assert_eq!(f.machines[1].as_ref().unwrap().buffer.1, 2);
    assert_eq!(f.machines[3].as_ref().unwrap().buffer.1, 5);
    f.rocket_factory_step(r);
    assert_eq!(f.machines[1].as_ref().unwrap().buffer.1, 2);
    assert_eq!(f.machines[3].as_ref().unwrap().buffer.1, 5);
    assert_eq!(f.machines[r].as_ref().unwrap().buffer.1, 0);
}

#[test]
fn hull_fixer_repairs_from_network() {
    let mut f = grid_spawn();
    let h = f.place_machine(hull_fixer(), TileCoords::new(1, 2)).unwrap();
    f.place_pipe(TileCoords::new(1, 3)).unwrap();
    drain(&mut f);
    f.network_rebuild();
    let mut res = Resources::default();
    res.health = 50;
    f.inlet_step(0, &mut res);
    f.hull_fixer_step(h, &mut res);
    assert_eq!(res.health, 70);
    assert_eq!(f.machines[0].as_ref().unwrap().buffer.1, 0);
}

#[test]
fn switch_toggle_respawns_pipes_once() {
    let mut f = grid_spawn();
    let s = f.place_machine(pipe_switch(), TileCoords::new(4, 4)).unwrap();
    let right = f.place_pipe(TileCoords::new(5, 4)).unwrap();
    let down = f.place_pipe(TileCoords::new(4, 3)).unwrap();
    drain(&mut f);
    f.network_rebuild();
    let before = f.invalidations;
    let old_port = port_of(&f, s, 1);
    assert_eq!(f.ports[old_port].unwrap().side, Direction::Right);
    assert!(f.pipe_switch_click(s));
    assert_eq!(f.invalidations, before + 1);
    assert!(f.pipes[right].is_none());
    assert!(f.pipes[down].is_none());
    let new_right = match f.grid.get_building(TileCoords::new(5, 4)) {
        Some(Building::Pipe(k)) => k,
        other => panic!("expected a pipe, found {:?}", other),
    };
    let new_down = match f.grid.get_building(TileCoords::new(4, 3)) {
        Some(Building::Pipe(k)) => k,
        other => panic!("expected a pipe, found {:?}", other),
    };
    assert!(new_right != right && new_down != down);
    assert!(f.pipes[new_right].is_some() && f.pipes[new_down].is_some());
    assert!(f.ports[old_port].is_none());
    let new_port = port_of(&f, s, 1);
    assert_eq!(f.ports[new_port].unwrap().side, Direction::Down);
    assert_eq!(f.ports[new_port].unwrap().flow, FlowDirection::Outlet);
    drain(&mut f);
    assert_eq!(f.ports[new_port].unwrap().connected, Some(Link::Pipe(new_down)));
}

#[test]
fn switch_cycles_right_down_up() {
    let mut f = grid_spawn();
    let s = f.place_machine(pipe_switch(), TileCoords::new(4, 4)).unwrap();
    let mut sides = vec![];
    for _ in 0..3 {
        assert!(f.pipe_switch_click(s));
        sides.push(f.ports[port_of(&f, s, 1)].unwrap().side);
    }
    assert_eq!(sides, vec![Direction::Down, Direction::Up, Direction::Right]);
    assert!(!f.pipe_switch_click(0));
}

#[test]
fn frames_gate_production_on_time() {
    let mut f = grid_spawn();
    f.place_pipe(TileCoords::new(1, 3)).unwrap();
    let m = f.place_machine(ammo_factory(), TileCoords::new(2, 3)).unwrap();
    let mut timer = FactoryTimer::new(1000);
    let mut res = Resources::default();
    res.time = 0;
    let mut scale = TimeScale::default();
    for _ in 0..12 {
        assert_eq!(f.run_frame(&mut timer, &mut res, &mut scale, 5_000), 0);
    }
    assert_eq!(f.machines[m].as_ref().unwrap().buffer.1, 0);
    res.time = 1_000;
    assert_eq!(f.run_frame(&mut timer, &mut res, &mut scale, 1_000), 0);
    assert_eq!(f.run_frame(&mut timer, &mut res, &mut scale, 1_000), 1);
    assert_eq!(f.machines[m].as_ref().unwrap().buffer.1, 3);
}

#[test]
fn shop_items_build_their_machines() {
    let mut f = grid_spawn();
    let items = [
        (ShopItem::AmmoFactory, MachineKind::AmmoFactory),
        (ShopItem::PipeSwitch, MachineKind::PipeSwitch),
        (ShopItem::HullFixer, MachineKind::HullFixer),
        (ShopItem::RocketFactory, MachineKind::RocketFactory),
    ];
    let mut x = 2;
    for (item, kind) in items {
        let m = f.place_machine(item.template(), TileCoords::new(x, 5)).unwrap();
        let mach = f.machines[m].as_ref().unwrap();
        assert_eq!(mach.kind, kind);
        assert_eq!(mach.pos, Some(TileCoords::new(x, 5)));
        x += 2;
    }
}

#[test]
fn outlet_delivers_ammo_to_pool() {
    let mut f = grid_spawn();
    let m = f.place_machine(ammo_factory(), TileCoords::new(2, 8)).unwrap();
    f.place_pipe(TileCoords::new(3, 8)).unwrap();
    drain(&mut f);
    assert!(f.network_rebuild());
    f.machines[m].as_mut().unwrap().buffer.1 = 4;
    let mut res = Resources::default();
    res.ammo = 5;
    f.frame_transfer(&mut res);
    assert_eq!(res.ammo, 6);
    assert_eq!(f.machines[m].as_ref().unwrap().buffer.1, 3);
    res.ammo = 10;
    f.frame_transfer(&mut res);
    assert_eq!(res.ammo, 10);
    assert_eq!(f.machines[m].as_ref().unwrap().buffer.1, 3);
}

#[test]
fn factory_tick_converts_once_per_tick() {
    let mut f = grid_spawn();
    f.place_pipe(TileCoords::new(1, 3)).unwrap();
    let m = f.place_machine(ammo_factory(), TileCoords::new(2, 3)).unwrap();
    drain(&mut f);
    f.network_rebuild();
    f.machines[0].as_mut().unwrap().buffer.1 = 2;
    let mut res = Resources::default();
    f.factory_tick(&mut res);
    assert_eq!(f.machines[0].as_ref().unwrap().buffer.1, 1);
    assert_eq!(f.machines[m].as_ref().unwrap().buffer.1, 3);
    f.factory_tick(&mut res);
    assert_eq!(f.machines[0].as_ref().unwrap().buffer.1, 0);
    assert_eq!(f.machines[m].as_ref().unwrap().buffer.1, 6);
    assert_eq!(res, Resources::default());
}

#[test]
fn scarce_pool_serves_lower_handle_first() {
    let mut f = grid_spawn();
    let mut res = Resources::default();
    res.minerals = 1;
    f.frame_transfer(&mut res);
    assert_eq!(res.minerals, 0);
    assert_eq!(f.machines[0].as_ref().unwrap().buffer.1, 1);
    assert_eq!(f.machines[1].as_ref().unwrap().buffer.1, 0);
}

#[test]
fn removal_clears_only_the_matching_slot() {
    let mut f = grid_spawn();
    let a = f.place_pipe(TileCoords::new(1, 3)).unwrap();
    let b = f.place_pipe(TileCoords::new(2, 3)).unwrap();
    drain(&mut f);
    let p = port_of(&f, 0, 0);
    assert!(f.remove_pipe_at(TileCoords::new(2, 3)));
    assert!(f.pipes[b].is_none());
    assert_eq!(f.pipes[a].unwrap().to, None);
    assert_eq!(f.pipes[a].unwrap().from, Some(Link::Port(p)));
    assert_eq!(f.ports[p].unwrap().connected, Some(Link::Pipe(a)));
}

#[test]
fn restart_lays_out_the_start_again() {
    let mut f = grid_spawn();
    f.place_pipe(TileCoords::new(1, 3)).unwrap();
    f.place_machine(ammo_factory(), TileCoords::new(4, 4)).unwrap();
    f.restart();
    assert_eq!(f.pipes.len(), 0);
    assert_eq!(f.machines.len(), 6);
    assert_eq!(f.ports.len(), 6);
    assert_eq!(f.grid.get_building(TileCoords::new(4, 4)), None);
    assert!(!f.grid.get_tile(TileCoords::new(0, 5)));
    let m3 = f.machines[3].as_ref().unwrap();
    assert_eq!(m3.buffer.1, 0);
    assert_eq!(f.ports[3].unwrap().side, Direction::Left);
    assert_eq!(f.ports[3].unwrap().connected, None);
}

#[test]
fn one_link_per_connection_step() {
    let mut f = grid_spawn();
    // the starting ports find nothing to link yet
    for _ in 0..6 {
        f.connect_step();
    }
    let m = f.place_machine(ammo_factory(), TileCoords::new(2, 3)).unwrap();
    let k = f.place_pipe(TileCoords::new(1, 3)).unwrap();
    let inlet_port = port_of(&f, 0, 0);
    let factory_in = port_of(&f, m, 0);
    // the factory's inlet port links to the pipe, its outlet port finds nothing
    assert_eq!(f.connect_step(), Some(Link::Port(factory_in)));
    assert_eq!(f.pipes[k].unwrap().to, Some(Link::Port(factory_in)));
    assert_eq!(f.pipes[k].unwrap().from, None);
    f.connect_step();
    // the pipe gets one link (the mineral inlet's port) and goes back in the queue
    let before = f.pending.len();
    assert_eq!(f.connect_step(), Some(Link::Pipe(k)));
    assert_eq!(f.pipes[k].unwrap().from, Some(Link::Port(inlet_port)));
    assert_eq!(f.pending.len(), before);
    assert_eq!(f.pending[f.pending.len() - 1], Link::Pipe(k));
    // next time nothing is left: the pipe leaves the queue
    assert_eq!(f.connect_step(), Some(Link::Pipe(k)));
    assert_eq!(f.pending.len(), before - 1);
}
