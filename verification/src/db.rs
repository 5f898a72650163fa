//! The database facade: the append-only event log and the materialized state
//! it reduces to. `add` is the sole mutation entrypoint; the state always
//! equals the replay of the log from the default state. Persistence of the
//! log is the embedding application's part: it serializes `log()` after every
//! mutation and reconstructs with `replay` on startup.
use crate::state::{reduce_ok, spec_reduce, spec_replay, AbsState, DBEvent, DBState, SideChannel};
use crate::user::levelup_ok;
use vstd::prelude::*;

verus! {

/// Whether every step of replaying `events` from the default state stays
/// within machine bounds.
pub open spec fn replay_ok(events: Seq<DBEvent>) -> bool
    decreases events.len(),
{
    if events.len() == 0 {
        true
    } else {
        replay_ok(events.drop_last()) && reduce_ok(events.last(), spec_replay(events.drop_last()))
    }
}

/// Every step of a bounded replay is itself bounded.
pub proof fn lemma_replay_ok_prefix(events: Seq<DBEvent>, i: int)
    requires
        replay_ok(events),
        0 <= i < events.len(),
    ensures
        reduce_ok(events[i], spec_replay(events.subrange(0, i))),
    decreases events.len(),
{
    if i == events.len() - 1 {
        assert(events.subrange(0, i) =~= events.drop_last());
    } else {
        assert(events.drop_last().subrange(0, i) =~= events.subrange(0, i));
        lemma_replay_ok_prefix(events.drop_last(), i);
    }
}

/// Decides the carry bound executably.
fn levelup_ok_exec(level: u64, xp: u64) -> (b: bool)
    ensures
        b == levelup_ok(level as nat, xp as nat),
{
    let mut l = level;
    let mut x = xp;
    loop
        invariant
            levelup_ok(l as nat, x as nat) == levelup_ok(level as nat, xp as nat),
        decreases x,
    {
        if l > 0xFFFF_FFFF {
            return false;
        }
        proof {
            assert(l * l <= 0xFFFF_FFFF * 0xFFFF_FFFF) by (nonlinear_arith)
                requires
                    l <= 0xFFFF_FFFFu64,
            ;
        }
        let req = 100 + l * l / 2;
        if x < req {
            return true;
        }
        l = l + 1;
        x = x - req;
    }
}

/// Decides `reduce_ok` executably: whether the event can be applied to the
/// state without leaving machine bounds.
pub fn reduce_ok_exec(event: &DBEvent, state: &DBState) -> (b: bool)
    requires
        state.wf(),
    ensures
        b == reduce_ok(*event, state@),
{
    match event {
        DBEvent::Counter { .. } => state.counter < u64::MAX,
        DBEvent::CoinFlip { chance } => !chance.succeeds() || state.flips_in_a_row < u32::MAX,
        DBEvent::UserSendMessage { user, length } => {
            if user.0 == state.last_typed_user.0 {
                true
            } else {
                let u = state.get_user_or_default(user);
                let gain = crate::util::calculate_length_to_xp(length);
                proof {
                    crate::util::lemma_xp_curve_boundary(*length as nat);
                    crate::user::lemma_required_xp_fits(u.level as nat);
                }
                levelup_ok_exec(u.level, u.this_levels_xp + gain)
            }
        },
        _ => true,
    }
}

/// The event store: the in-memory log, and the state reduced from it.
#[derive(Debug)]
pub struct Database {
    pub state: DBState,
    pub timeline: Vec<DBEvent>,
}

impl Database {
    /// The representation invariant: the state is well formed and equals the
    /// replay of the log, whose replay stays within machine bounds.
    pub open spec fn inv(&self) -> bool {
        &&& self.state.wf()
        &&& replay_ok(self.timeline@)
        &&& self.state@ == spec_replay(self.timeline@)
    }

    /// An empty database: no events, default state.
    pub fn new() -> (r: Database)
        ensures
            r.inv(),
            r.timeline@ == Seq::<DBEvent>::empty(),
            r.state@ == crate::state::abs_default_state(),
    {
        Database { state: DBState::default(), timeline: Vec::new() }
    }

    /// Read-only snapshot accessor.
    pub fn state(&self) -> (r: &DBState)
        ensures
            *r == self.state,
    {
        &self.state
    }

    /// The full event log, oldest first; what the embedding application
    /// persists after every mutation.
    pub fn log(&self) -> (r: &Vec<DBEvent>)
        ensures
            *r == self.timeline,
    {
        &self.timeline
    }

    /// Appends one event: reduces it against the current state, replaces the
    /// state, appends to the log, and returns the side channel. The log after
    /// the call is the log before with exactly this event at the end, and the
    /// new state is the reduction of the event against the old state.
    pub fn add(&mut self, event: DBEvent) -> (r: SideChannel)
        requires
            old(self).inv(),
            reduce_ok(event, old(self).state@),
        ensures
            final(self).inv(),
            final(self).timeline@ == old(self).timeline@.push(event),
            final(self).state@ == spec_reduce(event, old(self).state@).0,
            r == spec_reduce(event, old(self).state@).1,
    {
        let mut st = DBState::default();
        core::mem::swap(&mut st, &mut self.state);
        let (new_state, side) = event.reduce_state(st);
        self.state = new_state;
        self.timeline.push(event);
        proof {
            assert(self.timeline@.drop_last() =~= old(self).timeline@);
        }
        side
    }

    /// Appends one event if it stays within machine bounds; returns `None`
    /// and leaves the database unchanged otherwise.
    pub fn try_add(&mut self, event: DBEvent) -> (r: Option<SideChannel>)
        requires
            old(self).inv(),
        ensures
            final(self).inv(),
            reduce_ok(event, old(self).state@) ==> {
                &&& final(self).timeline@ == old(self).timeline@.push(event)
                &&& final(self).state@ == spec_reduce(event, old(self).state@).0
                &&& r == Some(spec_reduce(event, old(self).state@).1)
            },
            !reduce_ok(event, old(self).state@) ==> r is None && *final(self) == *old(self),
    {
        if reduce_ok_exec(&event, &self.state) {
            Some(self.add(event))
        } else {
            None
        }
    }

    /// Rebuilds a database by replaying a stored log from the default state.
    /// Returns `None` exactly when some step of the replay would leave
    /// machine bounds (the stored log is then treated as corrupt).
    pub fn replay(events: Vec<DBEvent>) -> (r: Option<Database>)
        ensures
            r is Some <==> replay_ok(events@),
            r matches Some(db) ==> {
                &&& db.inv()
                &&& db.timeline@ == events@
                &&& db.state@ == spec_replay(events@)
            },
    {
        let mut db = Database::new();
        let ghost all = events@;
        let mut i: usize = 0;
        proof {
            assert(all.subrange(0, 0) =~= Seq::<DBEvent>::empty());
        }
        while i < events.len()
            invariant
                events@ == all,
                i <= all.len(),
                db.inv(),
                db.timeline@ == all.subrange(0, i as int),
                replay_ok(all.subrange(0, i as int)),
            decreases all.len() - i,
        {
            let ghost prefix = all.subrange(0, i as int);
            let event = events[i].duplicate();
            match db.try_add(event) {
                Some(_) => {},
                None => {
                    proof {
                        // A bounded whole replay would make this very step
                        // bounded, against what try_add just reported.
                        if replay_ok(all) {
                            lemma_replay_ok_prefix(all, i as int);
                            assert(false);
                        }
                    }
                    return None;
                },
            }
            proof {
                assert(all.subrange(0, i + 1).drop_last() =~= prefix);
                assert(all.subrange(0, i + 1).last() == all[i as int]);
            }
            i = i + 1;
        }
        proof {
            assert(all.subrange(0, all.len() as int) =~= all);
        }
        Some(db)
    }
}

} // verus!
