//! Plain identifier types for users, guilds, channels and roles. The chat
//! transport hands these out as opaque numeric handles; the library keeps
//! only the number.
use crate::assoc::AssocKey;
use vstd::prelude::*;

verus! {

#[derive(Clone, Copy, PartialEq, Eq, Structural, Debug, Hash)]
pub struct UserId(pub u64);

#[derive(Clone, Copy, PartialEq, Eq, Structural, Debug, Hash)]
pub struct GuildId(pub u64);

#[derive(Clone, Copy, PartialEq, Eq, Structural, Debug, Hash)]
pub struct ChannelId(pub u64);

#[derive(Clone, Copy, PartialEq, Eq, Structural, Debug, Hash)]
pub struct RoleId(pub u64);

impl AssocKey for UserId {
    type Abs = UserId;

    open spec fn abs(&self) -> UserId {
        *self
    }

    fn key_eq(&self, other: &Self) -> (r: bool)
        ensures
            r == (self.abs() == other.abs()),
    {
        self.0 == other.0
    }
}

impl AssocKey for GuildId {
    type Abs = GuildId;

    open spec fn abs(&self) -> GuildId {
        *self
    }

    fn key_eq(&self, other: &Self) -> (r: bool)
        ensures
            r == (self.abs() == other.abs()),
    {
        self.0 == other.0
    }
}

/// The fixed identifier of the operator allowed to run administrative
/// commands.
pub const ADMIN_USER: u64 = 1136701682131144714;

/// Whether `user` is the fixed administrator. The capability check is pure
/// data: a comparison against one constant identifier.
pub fn is_admin(user: UserId) -> (r: bool)
    ensures
        r == (user.0 == ADMIN_USER),
{
    user.0 == ADMIN_USER
}

} // verus!
