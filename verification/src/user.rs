//! Per-user progression: level, XP within the level, inventory and health.
//!
//! The leveling rule is an iterative carry: on every XP gain, while the XP
//! within the level reaches the level's requirement, the requirement is
//! subtracted and the level incremented. The requirement for a level is
//! `100 + level^2 / 2` (integer division).
use crate::battle::{Living, LivingBuilder};
use crate::items::InventoryItem;
use vstd::prelude::*;

verus! {

/// The XP needed to clear `level`.
pub open spec fn spec_required_xp(level: nat) -> nat {
    100 + (level * level) / 2
}

/// The iterative carry, as a total function on unbounded integers:
/// starting at `level` with `xp` gathered XP, returns the final
/// `(level, xp within the level)` once `xp < spec_required_xp(level)`.
pub open spec fn spec_level_up(level: nat, xp: nat) -> (nat, nat)
    decreases xp,
{
    if xp < spec_required_xp(level) {
        (level, xp)
    } else {
        spec_level_up(level + 1, (xp - spec_required_xp(level)) as nat)
    }
}

/// Whether the iterative carry from `(level, xp)` stays within machine bounds:
/// every level it passes through fits in `u32::MAX`, so the requirement
/// `100 + level^2 / 2` is computable in a `u64`.
pub open spec fn levelup_ok(level: nat, xp: nat) -> bool
    decreases xp,
{
    level <= u32::MAX && (xp < spec_required_xp(level) || levelup_ok(
        level + 1,
        (xp - spec_required_xp(level)) as nat,
    ))
}

/// The carry never lowers the level.
pub proof fn lemma_level_up_monotonic(level: nat, xp: nat)
    ensures
        spec_level_up(level, xp).0 >= level,
    decreases xp,
{
    if xp >= spec_required_xp(level) {
        lemma_level_up_monotonic(level + 1, (xp - spec_required_xp(level)) as nat);
    }
}

/// After the carry, the XP within the level is below the level's requirement.
pub proof fn lemma_level_up_in_range(level: nat, xp: nat)
    ensures
        spec_level_up(level, xp).1 < spec_required_xp(spec_level_up(level, xp).0),
    decreases xp,
{
    if xp >= spec_required_xp(level) {
        lemma_level_up_in_range(level + 1, (xp - spec_required_xp(level)) as nat);
    }
}

/// A carry that stays in bounds ends on a level within `u32::MAX`.
pub proof fn lemma_level_up_bounded(level: nat, xp: nat)
    requires
        levelup_ok(level, xp),
    ensures
        spec_level_up(level, xp).0 <= u32::MAX,
    decreases xp,
{
    if xp >= spec_required_xp(level) {
        lemma_level_up_bounded(level + 1, (xp - spec_required_xp(level)) as nat);
    }
}

/// The requirement of a representable level fits comfortably in a `u64`.
pub proof fn lemma_required_xp_fits(level: nat)
    requires
        level <= u32::MAX,
    ensures
        spec_required_xp(level) <= 0x8000_0000_0000_0064,
{
    assert(level * level <= 0xFFFF_FFFF * 0xFFFF_FFFF) by (nonlinear_arith)
        requires
            level <= 0xFFFF_FFFF,
    ;
}

#[derive(Clone, Copy, PartialEq, Eq, Structural, Debug)]
pub enum DBUserError {
    UserDoesNotHaveItem(InventoryItem),
    FontFailedToParse,
}

impl DBUserError {
    /// A human-readable rendering of the error, for the command layer.
    pub fn message(&self) -> (r: String)
        ensures
            self is UserDoesNotHaveItem ==> r@ == "user does not have item"@,
            self is FontFailedToParse ==> r@ == "Font failed to parse"@,
    {
        match self {
            DBUserError::UserDoesNotHaveItem(_) => "user does not have item".to_owned(),
            DBUserError::FontFailedToParse => "Font failed to parse".to_owned(),
        }
    }
}

/// One user's record: progression, inventory and health.
#[derive(Clone, Debug)]
pub struct DBUser {
    pub this_levels_xp: u64,
    pub xp_until_next_level: u64,
    pub level: u64,
    pub items: Vec<InventoryItem>,
    pub life: Living,
}

impl DBUser {
    /// Well-formedness: the level is at least 1 and representable, the cached
    /// requirement matches the level, the XP within the level is below the
    /// requirement, and the health pool keeps its invariant.
    pub open spec fn wf(&self) -> bool {
        &&& 1 <= self.level <= u32::MAX
        &&& self.xp_until_next_level == spec_required_xp(self.level as nat)
        &&& self.this_levels_xp < self.xp_until_next_level
        &&& self.life.wf()
    }

    /// The starting record: level 1, no XP, no items, 150/150 health.
    pub fn default() -> (r: DBUser)
        ensures
            r.this_levels_xp == 0,
            r.xp_until_next_level == 100,
            r.level == 1,
            r.items@ == Seq::<InventoryItem>::empty(),
            r.life.health == 150,
            r.life.max_health == 150,
            r.wf(),
    {
        DBUser {
            this_levels_xp: 0,
            xp_until_next_level: 100,
            level: 1,
            items: Vec::new(),
            life: match LivingBuilder::new().health(150).build() {
                Ok(l) => l,
                Err(_) => Living { health: 150, max_health: 150 },
            },
        }
    }

    /// Recomputes the cached requirement from the level.
    pub fn update_required_xp(&mut self)
        requires
            old(self).level <= u32::MAX,
        ensures
            *final(self) == (DBUser {
                xp_until_next_level: (spec_required_xp(old(self).level as nat) as u64),
                ..*old(self)
            }),
    {
        proof {
            assert(self.level * self.level <= 0xFFFF_FFFF * 0xFFFF_FFFF) by (nonlinear_arith)
                requires
                    self.level <= 0xFFFF_FFFFu64,
            ;
        }
        self.xp_until_next_level = 100 + self.level * self.level / 2;
    }

    /// Runs the iterative carry until the XP within the level is below the
    /// level's requirement, leaving the cached requirement up to date.
    pub fn check_level_up(&mut self)
        requires
            levelup_ok(old(self).level as nat, old(self).this_levels_xp as nat),
        ensures
            ({
                let (l, x) = spec_level_up(old(self).level as nat, old(self).this_levels_xp as nat);
                *final(self) == DBUser {
                    level: l as u64,
                    this_levels_xp: x as u64,
                    xp_until_next_level: (spec_required_xp(l) as u64),
                    ..*old(self)
                }
            }),
    {
        loop
            invariant
                levelup_ok(self.level as nat, self.this_levels_xp as nat),
                spec_level_up(self.level as nat, self.this_levels_xp as nat) == spec_level_up(
                    old(self).level as nat,
                    old(self).this_levels_xp as nat,
                ),
                self.items == old(self).items,
                self.life == old(self).life,
            ensures
                self.items == old(self).items,
                self.life == old(self).life,
                self.this_levels_xp < self.xp_until_next_level,
                self.xp_until_next_level == spec_required_xp(self.level as nat),
                (self.level as nat, self.this_levels_xp as nat) == spec_level_up(
                    old(self).level as nat,
                    old(self).this_levels_xp as nat,
                ),
            decreases self.this_levels_xp,
        {
            proof {
                lemma_required_xp_fits(self.level as nat);
            }
            self.update_required_xp();
            if self.this_levels_xp < self.xp_until_next_level {
                proof {
                    assert(spec_level_up(self.level as nat, self.this_levels_xp as nat) == (
                    self.level as nat,
                    self.this_levels_xp as nat,
                    ));
                }
                break ;
            }
            proof {
                let l = self.level as nat;
                let x = self.this_levels_xp as nat;
                let rest = (x - spec_required_xp(l)) as nat;
                assert(levelup_ok(l + 1, rest));
                assert(spec_level_up(l, x) == spec_level_up(l + 1, rest));
            }
            self.level = self.level + 1;
            self.this_levels_xp = self.this_levels_xp - self.xp_until_next_level;
        }
    }

    /// Adds `xp` to the record and carries any full levels. The level never
    /// goes down, and afterwards the XP within the level is below the
    /// (recomputed) requirement.
    pub fn gain_xp(&mut self, xp: u64)
        requires
            old(self).this_levels_xp + xp <= u64::MAX,
            levelup_ok(
                if old(self).level < 1 {
                    1nat
                } else {
                    old(self).level as nat
                },
                (old(self).this_levels_xp + xp) as nat,
            ),
        ensures
            ({
                let l0 = if old(self).level < 1 {
                    1nat
                } else {
                    old(self).level as nat
                };
                let (l, x) = spec_level_up(l0, (old(self).this_levels_xp + xp) as nat);
                &&& *final(self) == DBUser {
                    level: l as u64,
                    this_levels_xp: x as u64,
                    xp_until_next_level: (spec_required_xp(l) as u64),
                    ..*old(self)
                }
                &&& final(self).level >= old(self).level
                &&& final(self).this_levels_xp < final(self).xp_until_next_level
            }),
    {
        if self.level < 1 {
            self.level = 1;
        }
        self.this_levels_xp = self.this_levels_xp + xp;
        proof {
            let l0 = self.level as nat;
            let x0 = self.this_levels_xp as nat;
            lemma_level_up_monotonic(l0, x0);
            lemma_level_up_in_range(l0, x0);
            lemma_level_up_bounded(l0, x0);
            lemma_required_xp_fits(spec_level_up(l0, x0).0);
        }
        self.check_level_up();
    }

    /// A verified copy (field for field) of this record.
    pub fn duplicate(&self) -> (r: DBUser)
        ensures
            r.this_levels_xp == self.this_levels_xp,
            r.xp_until_next_level == self.xp_until_next_level,
            r.level == self.level,
            r.items@ == self.items@,
            r.life == self.life,
    {
        let mut items: Vec<InventoryItem> = Vec::new();
        let mut i: usize = 0;
        while i < self.items.len()
            invariant
                i <= self.items@.len(),
                items@ == self.items@.subrange(0, i as int),
            decreases self.items@.len() - i,
        {
            items.push(self.items[i]);
            proof {
                assert(items@ =~= self.items@.subrange(0, i + 1));
            }
            i = i + 1;
        }
        proof {
            assert(items@ =~= self.items@);
        }
        DBUser {
            this_levels_xp: self.this_levels_xp,
            xp_until_next_level: self.xp_until_next_level,
            level: self.level,
            items,
            life: self.life,
        }
    }

    /// Appends one item to the inventory (duplicates allowed; acquisition
    /// order is kept).
    pub fn give_item(&mut self, item: InventoryItem)
        ensures
            *final(self) == (DBUser { items: final(self).items, ..*old(self) }),
            final(self).items@ == old(self).items@.push(item),
    {
        self.items.push(item);
    }

    /// Removes the first instance of `item` from the inventory; fails without
    /// touching the record when the user owns none.
    pub fn drop_item(&mut self, item: InventoryItem) -> (r: Result<(), DBUserError>)
        ensures
            old(self).items@.contains(item) ==> {
                &&& r is Ok
                &&& *final(self) == (DBUser { items: final(self).items, ..*old(self) })
                &&& ({
                    let idx = old(self).items@.index_of_first(item)->0;
                    final(self).items@ == old(self).items@.remove(idx)
                })
            },
            !old(self).items@.contains(item) ==> {
                &&& r == Result::<(), DBUserError>::Err(DBUserError::UserDoesNotHaveItem(item))
                &&& *final(self) == *old(self)
            },
    {
        proof {
            self.items@.index_of_first_ensures(item);
        }
        let mut idx: usize = 0;
        let n = self.items.len();
        while idx < n
            invariant
                *self == *old(self),
                n == self.items@.len(),
                idx <= n,
                forall|j: int| 0 <= j < idx ==> self.items@[j] != item,
            decreases n - idx,
        {
            if self.items[idx] == item {
                proof {
                    self.items@.index_of_first_ensures(item);
                    assert(self.items@.index_of_first(item) == Some(idx as int));
                }
                self.items.remove(idx);
                return Ok(());
            }
            idx = idx + 1;
        }
        assert(!self.items@.contains(item));
        Err(DBUserError::UserDoesNotHaveItem(item))
    }
}

} // verus!
