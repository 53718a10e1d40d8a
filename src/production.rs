use vstd::prelude::*;

verus! {

/// Most units an inlet holds in its buffer.
pub const INLET_CAPACITY: i64 = 10;

/// The pool level under which an outlet still delivers.
pub const POOL_CAPACITY: i64 = 10;

/// Most ammo an ammo factory holds.
pub const AMMO_CAPACITY: i64 = 10;

/// Ammo made from one mineral.
pub const AMMO_PER_MINERAL: i64 = 3;

/// Most rockets a rocket factory holds.
pub const ROCKET_CAPACITY: i64 = 5;

/// Minerals that one rocket takes.
pub const ROCKET_MINERALS: i64 = 3;

/// Gas that one rocket takes.
pub const ROCKET_GAS: i64 = 2;

/// Full hull health.
pub const HULL_MAX: i64 = 100;

/// Health restored by one mineral.
pub const HULL_REPAIR: i64 = 20;

/// Most units a pipe switch holds.
pub const SWITCH_CAPACITY: i64 = 5;

/// An inlet's draw: one unit from the pool into the buffer, if the pool has one and
/// the buffer has room. Returns the new `(pool, buffer)`.
pub open spec fn inlet_draw_spec(pool: i64, buffer: i64) -> (i64, i64) {
    if pool >= 1 && buffer < INLET_CAPACITY {
        ((pool - 1) as i64, (buffer + 1) as i64)
    } else {
        (pool, buffer)
    }
}

pub fn inlet_draw(pool: i64, buffer: i64) -> (r: (i64, i64))
    ensures
        r == inlet_draw_spec(pool, buffer),
{
    if pool >= 1 && buffer < INLET_CAPACITY {
        (pool - 1, buffer + 1)
    } else {
        (pool, buffer)
    }
}

/// An outlet's delivery: one unit from the source buffer into the pool, if the source
/// has one and the pool is under capacity. Returns the new `(source, pool)`.
pub open spec fn outlet_deliver_spec(source: i64, pool: i64) -> (i64, i64) {
    if source > 0 && pool < POOL_CAPACITY {
        ((source - 1) as i64, (pool + 1) as i64)
    } else {
        (source, pool)
    }
}

pub fn outlet_deliver(source: i64, pool: i64) -> (r: (i64, i64))
    ensures
        r == outlet_deliver_spec(source, pool),
{
    if source > 0 && pool < POOL_CAPACITY {
        (source - 1, pool + 1)
    } else {
        (source, pool)
    }
}

/// An ammo factory's tick: one mineral from the source makes three ammo, if the
/// source has a mineral and the factory is under capacity. Returns the new
/// `(source, own)`.
pub open spec fn ammo_convert_spec(source: i64, own: i64) -> (i64, i64) {
    if source >= 1 && own < AMMO_CAPACITY {
        ((source - 1) as i64, (own + AMMO_PER_MINERAL) as i64)
    } else {
        (source, own)
    }
}

pub fn ammo_convert(source: i64, own: i64) -> (r: (i64, i64))
    ensures
        r == ammo_convert_spec(source, own),
{
    if source >= 1 && own < AMMO_CAPACITY {
        (source - 1, own + AMMO_PER_MINERAL)
    } else {
        (source, own)
    }
}

/// A rocket factory's tick: three minerals and two gas make one rocket, if both
/// sources have enough and the factory is under capacity; otherwise nothing is used.
/// Returns the new `(mineral, gas, own)`.
pub open spec fn rocket_convert_spec(mineral: i64, gas: i64, own: i64) -> (i64, i64, i64) {
    if own < ROCKET_CAPACITY && mineral >= ROCKET_MINERALS && gas >= ROCKET_GAS {
        ((mineral - ROCKET_MINERALS) as i64, (gas - ROCKET_GAS) as i64, (own + 1) as i64)
    } else {
        (mineral, gas, own)
    }
}

pub fn rocket_convert(mineral: i64, gas: i64, own: i64) -> (r: (i64, i64, i64))
    ensures
        r == rocket_convert_spec(mineral, gas, own),
{
    if own < ROCKET_CAPACITY && mineral >= ROCKET_MINERALS && gas >= ROCKET_GAS {
        (mineral - ROCKET_MINERALS, gas - ROCKET_GAS, own + 1)
    } else {
        (mineral, gas, own)
    }
}

/// A hull fixer's tick: one mineral restores twenty health, up to full health, if the
/// source has a mineral and the hull is damaged. Returns the new `(source, health)`.
pub open spec fn hull_repair_spec(source: i64, health: i64) -> (i64, i64) {
    if source >= 1 && health < HULL_MAX {
        (
            (source - 1) as i64,
            if health + HULL_REPAIR < HULL_MAX {
                (health + HULL_REPAIR) as i64
            } else {
                HULL_MAX
            },
        )
    } else {
        (source, health)
    }
}

pub fn hull_repair(source: i64, health: i64) -> (r: (i64, i64))
    ensures
        r == hull_repair_spec(source, health),
{
    if source >= 1 && health < HULL_MAX {
        let repaired = if health < HULL_MAX - HULL_REPAIR {
            health + HULL_REPAIR
        } else {
            HULL_MAX
        };
        (source - 1, repaired)
    } else {
        (source, health)
    }
}

/// A pipe switch's tick: one unit passes from the source into the switch, if the
/// source has one and the switch is under capacity. Returns the new `(source, own)`.
pub open spec fn switch_pass_spec(source: i64, own: i64) -> (i64, i64) {
    if source >= 1 && own < SWITCH_CAPACITY {
        ((source - 1) as i64, (own + 1) as i64)
    } else {
        (source, own)
    }
}

pub fn switch_pass(source: i64, own: i64) -> (r: (i64, i64))
    ensures
        r == switch_pass_spec(source, own),
{
    if source >= 1 && own < SWITCH_CAPACITY {
        (source - 1, own + 1)
    } else {
        (source, own)
    }
}

} // verus!
