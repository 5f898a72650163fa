//! Health tracking for a user: a `Living` value keeps `health <= max_health`,
//! built through a validating builder.
use vstd::prelude::*;

verus! {

/// A creature's health pool. Invariant: `health <= max_health`.
#[derive(Clone, Copy, PartialEq, Eq, Structural, Debug)]
pub struct Living {
    pub health: u32,
    pub max_health: u32,
}

/// Builder for `Living`; `build` validates the invariant.
pub struct LivingBuilder {
    pub living: Living,
}

#[derive(Clone, Copy, PartialEq, Eq, Structural, Debug)]
pub enum LivingBuilderError {
    HealthGreaterThanMaxHealth,
}

impl LivingBuilderError {
    /// A human-readable rendering of the error.
    pub fn message(&self) -> (r: &'static str)
        ensures
            r@ == "life: health > max_health"@,
    {
        "life: health > max_health"
    }
}

impl LivingBuilder {
    pub fn new() -> (r: Self)
        ensures
            r.living.health == 0,
            r.living.max_health == 0,
    {
        Self { living: Living { health: 0, max_health: 0 } }
    }

    /// Sets both the current and the maximum health to `amount`.
    pub fn health(self, amount: u32) -> (r: Self)
        ensures
            r.living.health == amount,
            r.living.max_health == amount,
    {
        let mut me = self;
        me.living.health = amount;
        me.living.max_health = amount;
        me
    }

    /// Sets the maximum health alone, leaving the current health as it is.
    pub fn max_health(self, amount: u32) -> (r: Self)
        ensures
            r.living.health == self.living.health,
            r.living.max_health == amount,
    {
        let mut me = self;
        me.living.max_health = amount;
        me
    }

    /// Validates the configured pool: rejects `health > max_health`.
    pub fn build(self) -> (r: Result<Living, LivingBuilderError>)
        ensures
            self.living.health <= self.living.max_health ==> r == Result::<
                Living,
                LivingBuilderError,
            >::Ok(self.living),
            self.living.health > self.living.max_health ==> r == Result::<
                Living,
                LivingBuilderError,
            >::Err(LivingBuilderError::HealthGreaterThanMaxHealth),
    {
        let life = self.living;
        if life.health > life.max_health {
            return Err(LivingBuilderError::HealthGreaterThanMaxHealth);
        }
        Ok(life)
    }
}

impl Living {
    pub open spec fn wf(&self) -> bool {
        self.health <= self.max_health
    }

    /// Starts a builder.
    pub fn new() -> (r: LivingBuilder)
        ensures
            r.living.health == 0,
            r.living.max_health == 0,
    {
        LivingBuilder::new()
    }

    /// Restores `amount` health, capped at the maximum.
    pub fn heal(&mut self, amount: u32)
        requires
            old(self).wf(),
        ensures
            final(self).wf(),
            final(self).max_health == old(self).max_health,
            final(self).health == if old(self).health + amount > old(self).max_health {
                old(self).max_health as int
            } else {
                old(self).health + amount
            },
    {
        if amount > self.max_health - self.health {
            self.health = self.max_health;
        } else {
            self.health = self.health + amount;
        }
    }

    /// Removes `amount` health, floored at zero.
    pub fn damage(&mut self, amount: u32)
        requires
            old(self).wf(),
        ensures
            final(self).wf(),
            final(self).max_health == old(self).max_health,
            final(self).health == if amount > old(self).health {
                0int
            } else {
                old(self).health - amount
            },
    {
        if amount > self.health {
            self.health = 0;
        } else {
            self.health = self.health - amount;
        }
    }

    pub fn health(&self) -> (r: u32)
        ensures
            r == self.health,
    {
        self.health
    }

    pub fn max_health(&self) -> (r: u32)
        ensures
            r == self.max_health,
    {
        self.max_health
    }

    /// Whether the pool has run out.
    pub fn dead(&self) -> (r: bool)
        ensures
            r == (self.health == 0),
    {
        self.health == 0
    }
}

} // verus!
