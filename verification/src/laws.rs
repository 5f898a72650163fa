//! Laws that relate several operations of the reducer, stated over the
//! mathematical model and proved once for all inputs.
use crate::items::InventoryItem;
use crate::ids::UserId;
use crate::state::{abs_user_or_default, spec_gain_user, spec_reduce, spec_replay_from, AbsState,
    AbsUser, DBEvent, SideChannel};
use crate::user::{lemma_level_up_in_range, lemma_level_up_monotonic, spec_required_xp, DBUserError};
use crate::util::xp_curve;
use vstd::prelude::*;

verus! {

/// The level of a user's record in a state (level 1 where no record exists).
pub open spec fn abs_level_of(s: AbsState, user: UserId) -> nat {
    abs_user_or_default(s.users, user).level
}

/// XP monotonicity, one step: no event lowers any user's level.
pub proof fn lemma_level_monotonic_step(e: DBEvent, s: AbsState, user: UserId)
    ensures
        abs_level_of(spec_reduce(e, s).0, user) >= abs_level_of(s, user),
{
    match e {
        DBEvent::UserSendMessage { user: sender, length } => {
            if sender != s.last_typed_user {
                let u0 = abs_user_or_default(s.users, sender);
                let l0: nat = if u0.level < 1 {
                    1
                } else {
                    u0.level
                };
                lemma_level_up_monotonic(l0, u0.this_levels_xp + xp_curve(length as nat));
            }
        },
        _ => {},
    }
}

/// XP monotonicity: for a fixed user, the level is non-decreasing across any
/// sequence of events applied to any state.
pub proof fn lemma_level_monotonic_seq(events: Seq<DBEvent>, s: AbsState, user: UserId)
    ensures
        abs_level_of(spec_replay_from(s, events), user) >= abs_level_of(s, user),
    decreases events.len(),
{
    if events.len() > 0 {
        lemma_level_monotonic_seq(events.drop_last(), s, user);
        lemma_level_monotonic_step(events.last(), spec_replay_from(s, events.drop_last()), user);
    }
}

/// After any gain, the XP within the level lies in `[0, required)` and the
/// cached requirement matches the new level.
pub proof fn lemma_gain_xp_in_range(u: AbsUser, gain: nat)
    ensures
        spec_gain_user(u, gain).this_levels_xp < spec_required_xp(spec_gain_user(u, gain).level),
        spec_gain_user(u, gain).xp_until_next_level == spec_required_xp(
            spec_gain_user(u, gain).level,
        ),
{
    let l0: nat = if u.level < 1 {
        1
    } else {
        u.level
    };
    lemma_level_up_in_range(l0, u.this_levels_xp + gain);
}

/// Anti-spam dedup: two consecutive messages from the same user, with no
/// event from another user in between, produce no second change — the second
/// reduction returns the state unchanged.
pub proof fn lemma_anti_spam_dedup(s: AbsState, user: UserId, len1: usize, len2: usize)
    ensures
        ({
            let s1 = spec_reduce(DBEvent::UserSendMessage { user, length: len1 }, s).0;
            spec_reduce(DBEvent::UserSendMessage { user, length: len2 }, s1).0 == s1
        }),
{
}

/// A message from a different user in between re-enables the gain: the next
/// message from the first user applies its XP.
pub proof fn lemma_anti_spam_reenable(
    s: AbsState,
    user: UserId,
    other: UserId,
    len_other: usize,
    len2: usize,
)
    requires
        other != user,
    ensures
        ({
            let s1 = spec_reduce(DBEvent::UserSendMessage { user: other, length: len_other }, s).0;
            let u = abs_user_or_default(s1.users, user);
            spec_reduce(DBEvent::UserSendMessage { user, length: len2 }, s1).0.users == s1.users
                .insert(user, spec_gain_user(u, xp_curve(len2 as nat)))
        }),
{
}

/// Burn precondition: burning an item the user does not own returns the
/// failure side channel and leaves the state unchanged.
pub proof fn lemma_burn_missing_item(s: AbsState, user: UserId, item: InventoryItem)
    requires
        !abs_user_or_default(s.users, user).items.contains(item),
    ensures
        spec_reduce(DBEvent::AdminBurn { user, item }, s).1 == (SideChannel::AdminBurnFail {
            user_error: DBUserError::UserDoesNotHaveItem(item),
        }),
        spec_reduce(DBEvent::AdminBurn { user, item }, s).0 == s,
{
}

} // verus!
