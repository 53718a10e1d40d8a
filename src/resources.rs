use vstd::prelude::*;

verus! {

/// The kinds of quantity held in the shared pool and in machine buffers.
#[derive(Clone, Copy, Debug, PartialEq, Eq, Structural)]
pub enum ResourceType {
    Health,
    Mineral,
    Gas,
    Time,
    Ammo,
    Rockets,
}

impl ResourceType {
    pub open spec fn name_spec(self) -> Seq<char> {
        match self {
            ResourceType::Health => "Health"@,
            ResourceType::Mineral => "Minerals"@,
            ResourceType::Gas => "Gas"@,
            ResourceType::Time => "Time"@,
            ResourceType::Ammo => "Ammo"@,
            ResourceType::Rockets => "Rockets"@,
        }
    }

    /// Display name of the kind.
    pub fn to_string(&self) -> (r: String)
        ensures
            r@ == self.name_spec(),
    {
        match self {
            ResourceType::Health => "Health".to_string(),
            ResourceType::Mineral => "Minerals".to_string(),
            ResourceType::Gas => "Gas".to_string(),
            ResourceType::Time => "Time".to_string(),
            ResourceType::Ammo => "Ammo".to_string(),
            ResourceType::Rockets => "Rockets".to_string(),
        }
    }
}

/// The shared pool. Time is counted in milliseconds, every other kind in whole units.
#[derive(Clone, Copy, Debug, PartialEq, Eq, Structural)]
pub struct Resources {
    pub health: i64,
    pub minerals: i64,
    pub gas: i64,
    pub time: i64,
    pub ammo: i64,
    pub rockets: i64,
}

impl Resources {
    /// The amount of `kind` in the pool.
    pub open spec fn get_spec(self, kind: ResourceType) -> i64 {
        match kind {
            ResourceType::Health => self.health,
            ResourceType::Mineral => self.minerals,
            ResourceType::Gas => self.gas,
            ResourceType::Time => self.time,
            ResourceType::Ammo => self.ammo,
            ResourceType::Rockets => self.rockets,
        }
    }

    /// The pool with the amount of `kind` replaced by `value`.
    pub open spec fn with_spec(self, kind: ResourceType, value: i64) -> Resources {
        match kind {
            ResourceType::Health => Resources { health: value, ..self },
            ResourceType::Mineral => Resources { minerals: value, ..self },
            ResourceType::Gas => Resources { gas: value, ..self },
            ResourceType::Time => Resources { time: value, ..self },
            ResourceType::Ammo => Resources { ammo: value, ..self },
            ResourceType::Rockets => Resources { rockets: value, ..self },
        }
    }

    /// Whether adding `amount` of `kind` stays within the `i64` range.
    pub open spec fn can_add(self, kind: ResourceType, amount: i64) -> bool {
        i64::MIN <= self.get_spec(kind) + amount <= i64::MAX
    }

    /// The pool of a new game: health 100, minerals 10, no gas, 30 seconds of time,
    /// ammo 20, no rockets.
    pub open spec fn initial() -> Resources {
        Resources { health: 100, minerals: 10, gas: 0, time: 30_000, ammo: 20, rockets: 0 }
    }

    pub fn get(&self, kind: ResourceType) -> (r: i64)
        ensures
            r == self.get_spec(kind),
    {
        match kind {
            ResourceType::Health => self.health,
            ResourceType::Mineral => self.minerals,
            ResourceType::Gas => self.gas,
            ResourceType::Time => self.time,
            ResourceType::Ammo => self.ammo,
            ResourceType::Rockets => self.rockets,
        }
    }

    /// Adds `amount` (which may be negative) to the pool's `kind`.
    pub fn add(&mut self, kind: ResourceType, amount: i64)
        requires
            old(self).can_add(kind, amount),
        ensures
            *final(self) == old(self).with_spec(kind, (old(self).get_spec(kind) + amount) as i64),
    {
        match kind {
            ResourceType::Health => self.health = self.health + amount,
            ResourceType::Mineral => self.minerals = self.minerals + amount,
            ResourceType::Gas => self.gas = self.gas + amount,
            ResourceType::Time => self.time = self.time + amount,
            ResourceType::Ammo => self.ammo = self.ammo + amount,
            ResourceType::Rockets => self.rockets = self.rockets + amount,
        }
    }
}

impl Default for Resources {
    fn default() -> (r: Resources)
        ensures
            r == Resources::initial(),
    {
        Resources { health: 100, minerals: 10, gas: 0, time: 30_000, ammo: 20, rockets: 0 }
    }
}

} // verus!
