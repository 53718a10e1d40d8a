use space_time::layers::{FactoryLayer, SpaceLayer, UILayer};
use space_time::production::{
    ammo_convert, hull_repair, inlet_draw, outlet_deliver, rocket_convert, switch_pass,
};
use space_time::resources::{ResourceType, Resources};
use space_time::time::{time_consume, FactoryTimer, TimeScale, TICK_PERIOD_MS};

#[test]
fn ammo_factory_converts_one_mineral_into_three_ammo() {
    assert_eq!(ammo_convert(1, 0), (0, 3));
    assert_eq!(ammo_convert(4, 9), (3, 12));
}

#[test]
fn ammo_factory_idle_without_mineral_or_room() {
    assert_eq!(ammo_convert(0, 5), (0, 5));
    assert_eq!(ammo_convert(5, 10), (5, 10));
}

#[test]
fn rocket_factory_is_all_or_nothing() {
    assert_eq!(rocket_convert(2, 5, 0), (2, 5, 0));
    assert_eq!(rocket_convert(3, 1, 0), (3, 1, 0));
    assert_eq!(rocket_convert(3, 2, 0), (0, 0, 1));
    assert_eq!(rocket_convert(10, 10, 4), (7, 8, 5));
    assert_eq!(rocket_convert(10, 10, 5), (10, 10, 5));
}

#[test]
fn hull_fixer_repairs_up_to_full() {
    assert_eq!(hull_repair(1, 50), (0, 70));
    assert_eq!(hull_repair(2, 90), (1, 100));
    assert_eq!(hull_repair(0, 50), (0, 50));
    assert_eq!(hull_repair(3, 100), (3, 100));
}

#[test]
fn inlet_outlet_and_switch_rules() {
    assert_eq!(inlet_draw(10, 0), (9, 1));
    assert_eq!(inlet_draw(0, 0), (0, 0));
    assert_eq!(inlet_draw(5, 10), (5, 10));
    assert_eq!(outlet_deliver(2, 3), (1, 4));
    assert_eq!(outlet_deliver(0, 3), (0, 3));
    assert_eq!(outlet_deliver(2, 10), (2, 10));
    assert_eq!(switch_pass(1, 4), (0, 5));
    assert_eq!(switch_pass(1, 5), (1, 5));
    assert_eq!(switch_pass(0, 0), (0, 0));
}

#[test]
fn resources_pool() {
    let mut r = Resources::default();
    assert_eq!(r.get(ResourceType::Health), 100);
    assert_eq!(r.get(ResourceType::Mineral), 10);
    assert_eq!(r.get(ResourceType::Gas), 0);
    assert_eq!(r.get(ResourceType::Time), 30_000);
    assert_eq!(r.get(ResourceType::Ammo), 20);
    assert_eq!(r.get(ResourceType::Rockets), 0);
    r.add(ResourceType::Gas, 7);
    r.add(ResourceType::Mineral, -3);
    assert_eq!(r.gas, 7);
    assert_eq!(r.minerals, 7);
    assert_eq!(ResourceType::Mineral.to_string(), "Minerals");
    assert_eq!(ResourceType::Rockets.to_string(), "Rockets");
    assert_eq!(ResourceType::Health.to_string(), "Health");
}

#[test]
fn ticks_follow_consumed_time() {
    let mut timer = FactoryTimer::new(TICK_PERIOD_MS);
    let mut res = Resources::default();
    let mut scale = TimeScale::default();
    assert_eq!(time_consume(&mut timer, &mut res, &mut scale, 2500), 2);
    assert_eq!(res.time, 27_500);
    assert_eq!(timer.elapsed, 500);
    assert_eq!(scale, TimeScale(1));
    assert_eq!(time_consume(&mut timer, &mut res, &mut scale, 600), 1);
    assert_eq!(timer.elapsed, 100);
}

#[test]
fn no_ticks_without_time() {
    let mut timer = FactoryTimer::new(TICK_PERIOD_MS);
    let mut res = Resources::default();
    res.time = 0;
    let mut scale = TimeScale::default();
    assert_eq!(time_consume(&mut timer, &mut res, &mut scale, 1_000_000), 0);
    assert_eq!(scale, TimeScale(0));
    assert_eq!(time_consume(&mut timer, &mut res, &mut scale, 5_000), 0);
    assert_eq!(timer.elapsed, 0);
}

#[test]
fn last_time_is_spent_then_scale_drops() {
    let mut timer = FactoryTimer::new(TICK_PERIOD_MS);
    let mut res = Resources::default();
    res.time = 2_700;
    let mut scale = TimeScale::default();
    assert_eq!(time_consume(&mut timer, &mut res, &mut scale, 10_000), 2);
    assert_eq!(res.time, 0);
    assert_eq!(scale, TimeScale(0));
    res.add(ResourceType::Time, 5_000);
    assert_eq!(time_consume(&mut timer, &mut res, &mut scale, 1_000), 0);
    assert_eq!(scale, TimeScale(1));
    assert_eq!(time_consume(&mut timer, &mut res, &mut scale, 1_000), 1);
}

#[test]
fn render_layers() {
    assert_eq!(SpaceLayer.layer(), 0);
    assert_eq!(FactoryLayer.layer(), 1);
    assert_eq!(UILayer.layer(), 2);
}
