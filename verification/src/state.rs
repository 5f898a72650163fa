//! The event log's vocabulary and the materialized state.
//!
//! `DBEvent` is the unit of the durable log; `reduce_state` is the pure state
//! reducer: it maps (event, prior state) to (new state, side-channel result),
//! deterministically, so replaying a log reconstructs the state. The
//! mathematical model is `AbsState`, and `spec_reduce` is the reducer on the
//! model, total on unbounded integers.
use crate::assoc::{assoc_get, assoc_insert, assoc_map, assoc_remove, unique_keys, AssocKey};
use crate::battle::Living;
use crate::config::{ServerConfigChannelId, ServerConfigRoleId};
use crate::ids::{ChannelId, GuildId, RoleId, UserId};
use crate::items::InventoryItem;
use crate::rng::Chance;
use crate::user::{levelup_ok, spec_level_up, spec_required_xp, DBUser, DBUserError};
use crate::util::xp_curve;
use vstd::prelude::*;

verus! {

/// One immutable domain event, the unit of the append-only log.
#[derive(Clone, Debug)]
pub enum DBEvent {
    Counter { user: UserId },
    CoinFlip { chance: Chance },
    UserSendMessage { user: UserId, length: usize },
    AdminGive { user: UserId, item: InventoryItem },
    AdminBurn { user: UserId, item: InventoryItem },
    ChannelForget { server: GuildId, id: ServerConfigChannelId },
    ChannelAdd { server: GuildId, id: ServerConfigChannelId, remote_id: ChannelId },
    RoleForget { server: GuildId, id: ServerConfigRoleId },
    RoleAdd { server: GuildId, id: ServerConfigRoleId, remote_id: RoleId },
}

impl DBEvent {
    /// A verified copy (field for field) of this event.
    pub fn duplicate(&self) -> (r: DBEvent)
        ensures
            r == *self,
    {
        match self {
            DBEvent::Counter { user } => DBEvent::Counter { user: *user },
            DBEvent::CoinFlip { chance } => DBEvent::CoinFlip { chance: *chance },
            DBEvent::UserSendMessage { user, length } => DBEvent::UserSendMessage {
                user: *user,
                length: *length,
            },
            DBEvent::AdminGive { user, item } => DBEvent::AdminGive { user: *user, item: *item },
            DBEvent::AdminBurn { user, item } => DBEvent::AdminBurn { user: *user, item: *item },
            DBEvent::ChannelForget { server, id } => DBEvent::ChannelForget {
                server: *server,
                id: id.duplicate(),
            },
            DBEvent::ChannelAdd { server, id, remote_id } => DBEvent::ChannelAdd {
                server: *server,
                id: id.duplicate(),
                remote_id: *remote_id,
            },
            DBEvent::RoleForget { server, id } => DBEvent::RoleForget {
                server: *server,
                id: id.duplicate(),
            },
            DBEvent::RoleAdd { server, id, remote_id } => DBEvent::RoleAdd {
                server: *server,
                id: id.duplicate(),
                remote_id: *remote_id,
            },
        }
    }
}

/// A reduction's out-of-band result, returned to the caller that triggered
/// the event, distinct from the state mutation itself.
#[derive(Clone, Copy, PartialEq, Eq, Structural, Debug)]
pub enum SideChannel {
    CoinFlip { success: bool },
    AdminBurnFail { user_error: DBUserError },
    Nothing,
}

/// The model of one user record (unbounded integers).
pub ghost struct AbsUser {
    pub this_levels_xp: nat,
    pub xp_until_next_level: nat,
    pub level: nat,
    pub items: Seq<InventoryItem>,
    pub life: Living,
}

/// The model of one guild's remote-resource id cache.
pub ghost struct AbsServer {
    pub channels: Map<Seq<char>, ChannelId>,
    pub roles: Map<Seq<char>, RoleId>,
}

/// The model of the whole materialized state.
pub ghost struct AbsState {
    pub counter: nat,
    pub people_who_counted: Set<UserId>,
    pub flips_in_a_row: nat,
    pub users: Map<UserId, AbsUser>,
    pub servers: Map<GuildId, AbsServer>,
    pub last_typed_user: UserId,
}

impl View for DBUser {
    type V = AbsUser;

    open spec fn view(&self) -> AbsUser {
        AbsUser {
            this_levels_xp: self.this_levels_xp as nat,
            xp_until_next_level: self.xp_until_next_level as nat,
            level: self.level as nat,
            items: self.items@,
            life: self.life,
        }
    }
}

/// One guild's durable mapping from logical channel and role names to the
/// transport's opaque remote identifiers: the reconciler's memory across runs.
#[derive(Clone, Debug)]
pub struct DBServer {
    pub channels: Vec<(ServerConfigChannelId, ChannelId)>,
    pub roles: Vec<(ServerConfigRoleId, RoleId)>,
}

impl View for DBServer {
    type V = AbsServer;

    open spec fn view(&self) -> AbsServer {
        AbsServer { channels: assoc_map(self.channels@), roles: assoc_map(self.roles@) }
    }
}

impl DBServer {
    pub open spec fn wf(&self) -> bool {
        unique_keys(self.channels@) && unique_keys(self.roles@)
    }

    /// The starting record: no cached mappings.
    pub fn default() -> (r: DBServer)
        ensures
            r@ == abs_default_server(),
            r.wf(),
    {
        let r = DBServer { channels: Vec::new(), roles: Vec::new() };
        proof {
            assert(r@.channels =~= abs_default_server().channels);
            assert(r@.roles =~= abs_default_server().roles);
        }
        r
    }

    /// A verified copy (entry for entry) of this record.
    pub fn duplicate(&self) -> (r: DBServer)
        ensures
            r@ == self@,
            r.channels@ == self.channels@,
            r.roles@ == self.roles@,
    {
        let mut channels: Vec<(ServerConfigChannelId, ChannelId)> = Vec::new();
        let mut i: usize = 0;
        while i < self.channels.len()
            invariant
                i <= self.channels@.len(),
                channels@ == self.channels@.subrange(0, i as int),
            decreases self.channels@.len() - i,
        {
            let pair = (self.channels[i].0.duplicate(), self.channels[i].1);
            channels.push(pair);
            proof {
                assert(channels@ =~= self.channels@.subrange(0, i + 1));
            }
            i = i + 1;
        }
        let mut roles: Vec<(ServerConfigRoleId, RoleId)> = Vec::new();
        let mut j: usize = 0;
        while j < self.roles.len()
            invariant
                j <= self.roles@.len(),
                roles@ == self.roles@.subrange(0, j as int),
            decreases self.roles@.len() - j,
        {
            let pair = (self.roles[j].0.duplicate(), self.roles[j].1);
            roles.push(pair);
            proof {
                assert(roles@ =~= self.roles@.subrange(0, j + 1));
            }
            j = j + 1;
        }
        proof {
            assert(channels@ =~= self.channels@);
            assert(roles@ =~= self.roles@);
        }
        DBServer { channels, roles }
    }
}

/// The materialized state: counters, per-user records and per-guild records,
/// always derivable by replaying the log from the default state.
#[derive(Clone, Debug)]
pub struct DBState {
    pub counter: u64,
    pub people_who_counted: Vec<UserId>,
    pub flips_in_a_row: u32,
    pub users: Vec<(UserId, DBUser)>,
    pub servers: Vec<(GuildId, DBServer)>,
    pub last_typed_user: UserId,
}

impl View for DBState {
    type V = AbsState;

    open spec fn view(&self) -> AbsState {
        AbsState {
            counter: self.counter as nat,
            people_who_counted: self.people_who_counted@.to_set(),
            flips_in_a_row: self.flips_in_a_row as nat,
            users: assoc_map(self.users@).map_values(|u: DBUser| u@),
            servers: assoc_map(self.servers@).map_values(|s: DBServer| s@),
            last_typed_user: self.last_typed_user,
        }
    }
}

/// The default user record in the model.
pub open spec fn abs_default_user() -> AbsUser {
    AbsUser {
        this_levels_xp: 0,
        xp_until_next_level: 100,
        level: 1,
        items: Seq::empty(),
        life: Living { health: 150, max_health: 150 },
    }
}

/// The default server record in the model.
pub open spec fn abs_default_server() -> AbsServer {
    AbsServer { channels: Map::empty(), roles: Map::empty() }
}

/// The default state in the model.
pub open spec fn abs_default_state() -> AbsState {
    AbsState {
        counter: 0,
        people_who_counted: Set::empty(),
        flips_in_a_row: 0,
        users: Map::empty(),
        servers: Map::empty(),
        last_typed_user: UserId(0),
    }
}

/// The user's record, or the default where none is stored.
pub open spec fn abs_user_or_default(users: Map<UserId, AbsUser>, id: UserId) -> AbsUser {
    if users.contains_key(id) {
        users[id]
    } else {
        abs_default_user()
    }
}

/// The guild's record, or the default where none is stored.
pub open spec fn abs_server_or_default(servers: Map<GuildId, AbsServer>, id: GuildId) -> AbsServer {
    if servers.contains_key(id) {
        servers[id]
    } else {
        abs_default_server()
    }
}

/// One XP gain applied to a user record in the model: the gain is added and
/// the iterative carry run; the cached requirement tracks the final level.
pub open spec fn spec_gain_user(u: AbsUser, gain: nat) -> AbsUser {
    let l0: nat = if u.level < 1 {
        1
    } else {
        u.level
    };
    let r = spec_level_up(l0, u.this_levels_xp + gain);
    AbsUser {
        level: r.0,
        this_levels_xp: r.1,
        xp_until_next_level: spec_required_xp(r.0),
        ..u
    }
}

/// The pure reducer on the model: maps (event, prior state) to
/// (new state, side channel). Total and deterministic.
pub open spec fn spec_reduce(e: DBEvent, s: AbsState) -> (AbsState, SideChannel) {
    match e {
        DBEvent::Counter { user } => (
            AbsState {
                counter: s.counter + 1,
                people_who_counted: s.people_who_counted.insert(user),
                ..s
            },
            SideChannel::Nothing,
        ),
        DBEvent::CoinFlip { chance } => (
            AbsState {
                flips_in_a_row: if chance.spec_succeeds() {
                    s.flips_in_a_row + 1
                } else {
                    0
                },
                ..s
            },
            SideChannel::CoinFlip { success: chance.spec_succeeds() },
        ),
        DBEvent::UserSendMessage { user, length } => {
            if user == s.last_typed_user {
                (s, SideChannel::Nothing)
            } else {
                let u = abs_user_or_default(s.users, user);
                let u2 = spec_gain_user(u, xp_curve(length as nat));
                (
                    AbsState { users: s.users.insert(user, u2), last_typed_user: user, ..s },
                    SideChannel::Nothing,
                )
            }
        },
        DBEvent::AdminGive { user, item } => {
            let u = abs_user_or_default(s.users, user);
            let u2 = AbsUser { items: u.items.push(item), ..u };
            (AbsState { users: s.users.insert(user, u2), ..s }, SideChannel::Nothing)
        },
        DBEvent::AdminBurn { user, item } => {
            let u = abs_user_or_default(s.users, user);
            if u.items.contains(item) {
                let idx = u.items.index_of_first(item)->0;
                let u2 = AbsUser { items: u.items.remove(idx), ..u };
                (AbsState { users: s.users.insert(user, u2), ..s }, SideChannel::Nothing)
            } else {
                (
                    s,
                    SideChannel::AdminBurnFail {
                        user_error: DBUserError::UserDoesNotHaveItem(item),
                    },
                )
            }
        },
        DBEvent::ChannelAdd { server, id, remote_id } => {
            let srv = abs_server_or_default(s.servers, server);
            let srv2 = AbsServer { channels: srv.channels.insert(id@, remote_id), ..srv };
            (AbsState { servers: s.servers.insert(server, srv2), ..s }, SideChannel::Nothing)
        },
        DBEvent::ChannelForget { server, id } => {
            let srv = abs_server_or_default(s.servers, server);
            let srv2 = AbsServer { channels: srv.channels.remove(id@), ..srv };
            (AbsState { servers: s.servers.insert(server, srv2), ..s }, SideChannel::Nothing)
        },
        DBEvent::RoleAdd { server, id, remote_id } => {
            let srv = abs_server_or_default(s.servers, server);
            let srv2 = AbsServer { roles: srv.roles.insert(id@, remote_id), ..srv };
            (AbsState { servers: s.servers.insert(server, srv2), ..s }, SideChannel::Nothing)
        },
        DBEvent::RoleForget { server, id } => {
            let srv = abs_server_or_default(s.servers, server);
            let srv2 = AbsServer { roles: srv.roles.remove(id@), ..srv };
            (AbsState { servers: s.servers.insert(server, srv2), ..s }, SideChannel::Nothing)
        },
    }
}

/// The machine-bound side conditions under which the executable reducer can
/// mirror the model: the counter and the streak have headroom, and an XP gain
/// carries through representable levels. Everything else is unconditional.
pub open spec fn reduce_ok(e: DBEvent, s: AbsState) -> bool {
    match e {
        DBEvent::Counter { .. } => s.counter + 1 <= u64::MAX,
        DBEvent::CoinFlip { chance } => chance.spec_succeeds() ==> s.flips_in_a_row + 1
            <= u32::MAX,
        DBEvent::UserSendMessage { user, length } => user == s.last_typed_user || ({
            let u = abs_user_or_default(s.users, user);
            let l0: nat = if u.level < 1 {
                1
            } else {
                u.level
            };
            levelup_ok(l0, u.this_levels_xp + xp_curve(length as nat))
        }),
        _ => true,
    }
}

/// The left fold of the reducer over an event sequence, from an arbitrary
/// starting state.
pub open spec fn spec_replay_from(s: AbsState, events: Seq<DBEvent>) -> AbsState
    decreases events.len(),
{
    if events.len() == 0 {
        s
    } else {
        spec_reduce(events.last(), spec_replay_from(s, events.drop_last())).0
    }
}

/// Replay: the left fold of the reducer over an event sequence, from the
/// default state.
pub open spec fn spec_replay(events: Seq<DBEvent>) -> AbsState {
    spec_replay_from(abs_default_state(), events)
}

/// Replay determinism: reducing the same event sequence from the default
/// state twice yields identical states — no hidden mutable state affects
/// reduction.
pub proof fn lemma_replay_deterministic(s1: AbsState, s2: AbsState, events: Seq<DBEvent>)
    requires
        s1 == spec_replay(events),
        s2 == spec_replay(events),
    ensures
        s1 == s2,
{
}

impl DBState {
    /// Well-formedness: every map has unique keys and every stored record
    /// keeps its own invariant.
    pub open spec fn wf(&self) -> bool {
        &&& unique_keys(self.users@)
        &&& unique_keys(self.servers@)
        &&& self.people_who_counted@.no_duplicates()
        &&& forall|i: int| 0 <= i < self.users@.len() ==> (#[trigger] self.users@[i].1).wf()
        &&& forall|i: int| 0 <= i < self.servers@.len() ==> (#[trigger] self.servers@[i].1).wf()
    }

    /// The default state: zero counters, no records.
    pub fn default() -> (r: DBState)
        ensures
            r@ == abs_default_state(),
            r.wf(),
    {
        let r = DBState {
            counter: 0,
            people_who_counted: Vec::new(),
            flips_in_a_row: 0,
            users: Vec::new(),
            servers: Vec::new(),
            last_typed_user: UserId(0),
        };
        proof {
            assert(r@.people_who_counted =~= abs_default_state().people_who_counted);
            assert(r@.users =~= abs_default_state().users);
            assert(r@.servers =~= abs_default_state().servers);
        }
        r
    }
}

/// Lifting value-mapping through a map insert.
proof fn lemma_map_values_insert<K, V, W>(m: Map<K, V>, f: spec_fn(V) -> W, k: K, v: V)
    ensures
        m.insert(k, v).map_values(f) == m.map_values(f).insert(k, f(v)),
{
    assert(m.insert(k, v).map_values(f) =~= m.map_values(f).insert(k, f(v)));
}

fn people_contains(v: &Vec<UserId>, u: &UserId) -> (r: bool)
    ensures
        r == v@.contains(*u),
{
    let mut i: usize = 0;
    while i < v.len()
        invariant
            i <= v@.len(),
            forall|j: int| 0 <= j < i ==> v@[j] != *u,
        decreases v@.len() - i,
    {
        if v[i].0 == u.0 {
            return true;
        }
        i = i + 1;
    }
    false
}

impl DBState {
    /// A clone of the user's record, or a fresh default one where none is
    /// stored. Read-only.
    pub fn get_user_or_default(&self, id: &UserId) -> (r: DBUser)
        requires
            self.wf(),
        ensures
            r@ == abs_user_or_default(self@.users, *id),
            r.wf(),
    {
        proof {
            crate::assoc::lemma_assoc_map_dom(self.users@, *id);
        }
        match assoc_get(&self.users, id) {
            Some(u) => {
                proof {
                    let i = choose|i: int|
                        0 <= i < self.users@.len() && self.users@[i].0.abs() == *id;
                    crate::assoc::lemma_assoc_map_index(self.users@, i);
                }
                u.duplicate()
            },
            None => DBUser::default(),
        }
    }

    /// A clone of the user's record; a default record is stored first where
    /// none exists.
    pub fn get_user_or_create(&mut self, id: &UserId) -> (r: DBUser)
        requires
            old(self).wf(),
        ensures
            final(self).wf(),
            r@ == abs_user_or_default(old(self)@.users, *id),
            r.wf(),
            final(self)@ == (AbsState { users: old(self)@.users.insert(*id, r@), ..old(self)@ }),
    {
        let r = self.get_user_or_default(id);
        self.update_user(id, r.duplicate());
        r
    }

    /// Stores (inserts or replaces) the user's record.
    pub fn update_user(&mut self, id: &UserId, user: DBUser)
        requires
            old(self).wf(),
            user.wf(),
        ensures
            final(self).wf(),
            final(self)@ == (AbsState {
                users: old(self)@.users.insert(*id, user@),
                ..old(self)@
            }),
    {
        let ghost before = self.users@;
        assoc_insert(&mut self.users, *id, user);
        proof {
            assert(forall|i: int|
                0 <= i < self.users@.len() ==> (#[trigger] self.users@[i].1).wf()) by {
                assert(forall|i: int|
                    0 <= i < self.users@.len() ==> ((#[trigger] self.users@[i]).1 == user
                        || before.contains(self.users@[i])));
            }
            lemma_map_values_insert(assoc_map(before), |u: DBUser| u@, *id, user);
        }
    }

    /// A clone of the guild's record, or a fresh default one where none is
    /// stored. Read-only.
    pub fn get_server_or_default(&self, id: &GuildId) -> (r: DBServer)
        requires
            self.wf(),
        ensures
            r@ == abs_server_or_default(self@.servers, *id),
            r.wf(),
    {
        proof {
            crate::assoc::lemma_assoc_map_dom(self.servers@, *id);
        }
        match assoc_get(&self.servers, id) {
            Some(s) => {
                proof {
                    let i = choose|i: int|
                        0 <= i < self.servers@.len() && self.servers@[i].0.abs() == *id;
                    crate::assoc::lemma_assoc_map_index(self.servers@, i);
                }
                s.duplicate()
            },
            None => DBServer::default(),
        }
    }

    /// A clone of the guild's record; a default record is stored first where
    /// none exists.
    pub fn get_server_or_create(&mut self, id: &GuildId) -> (r: DBServer)
        requires
            old(self).wf(),
        ensures
            final(self).wf(),
            r@ == abs_server_or_default(old(self)@.servers, *id),
            r.wf(),
            final(self)@ == (AbsState {
                servers: old(self)@.servers.insert(*id, r@),
                ..old(self)@
            }),
    {
        let r = self.get_server_or_default(id);
        self.update_server(id, r.duplicate());
        r
    }

    /// Stores (inserts or replaces) the guild's record.
    pub fn update_server(&mut self, id: &GuildId, server: DBServer)
        requires
            old(self).wf(),
            server.wf(),
        ensures
            final(self).wf(),
            final(self)@ == (AbsState {
                servers: old(self)@.servers.insert(*id, server@),
                ..old(self)@
            }),
    {
        let ghost before = self.servers@;
        let ghost srv = server;
        assoc_insert(&mut self.servers, *id, server);
        proof {
            assert(forall|i: int|
                0 <= i < self.servers@.len() ==> (#[trigger] self.servers@[i].1).wf()) by {
                assert(forall|i: int|
                    0 <= i < self.servers@.len() ==> ((#[trigger] self.servers@[i]).1 == srv
                        || before.contains(self.servers@[i])));
            }
            lemma_map_values_insert(assoc_map(before), |s: DBServer| s@, *id, srv);
        }
    }
}

impl DBEvent {
    /// The pure reducer: applies this event to `state`, returning the new
    /// state and the side-channel result. Mirrors `spec_reduce` exactly on
    /// every input within machine bounds.
    pub fn reduce_state(&self, state: DBState) -> (r: (DBState, SideChannel))
        requires
            state.wf(),
            reduce_ok(*self, state@),
        ensures
            r.0.wf(),
            r.0@ == spec_reduce(*self, state@).0,
            r.1 == spec_reduce(*self, state@).1,
    {
        let mut s = state;
        match self {
            DBEvent::Counter { user } => {
                let ghost before = s@;
                s.counter = s.counter + 1;
                let ghost mid = s.people_who_counted@;
                if !people_contains(&s.people_who_counted, user) {
                    s.people_who_counted.push(*user);
                    proof {
                        assert forall|u: UserId| #[trigger]
                            s.people_who_counted@.contains(u) implies (mid.contains(u) || u
                            == *user) by {
                            vstd::seq_lib::lemma_seq_contains_after_push(mid, *user, u);
                        }
                        assert forall|u: UserId| (mid.contains(u) || u
                            == *user) implies #[trigger] s.people_who_counted@.contains(u) by {
                            vstd::seq_lib::lemma_seq_contains_after_push(mid, *user, u);
                        }
                        assert(s.people_who_counted@.to_set() =~= mid.to_set().insert(*user));
                    }
                } else {
                    proof {
                        assert(s.people_who_counted@.to_set() =~= mid.to_set().insert(*user));
                    }
                }
                (s, SideChannel::Nothing)
            },
            DBEvent::CoinFlip { chance } => {
                let success = chance.succeeds();
                if success {
                    s.flips_in_a_row = s.flips_in_a_row + 1;
                } else {
                    s.flips_in_a_row = 0;
                }
                (s, SideChannel::CoinFlip { success })
            },
            DBEvent::UserSendMessage { user, length } => {
                if user.0 == s.last_typed_user.0 {
                    return (s, SideChannel::Nothing);
                }
                s.last_typed_user = *user;
                let xp = crate::util::calculate_length_to_xp(length);
                proof {
                    crate::util::lemma_xp_curve_boundary(*length as nat);
                }
                let mut db_user = s.get_user_or_create(user);
                proof {
                    crate::user::lemma_required_xp_fits(db_user.level as nat);
                    crate::user::lemma_level_up_bounded(
                        db_user.level as nat,
                        (db_user.this_levels_xp + xp) as nat,
                    );
                    crate::user::lemma_required_xp_fits(
                        spec_level_up(db_user.level as nat, (db_user.this_levels_xp + xp) as nat).0,
                    );
                    crate::user::lemma_level_up_in_range(
                        db_user.level as nat,
                        (db_user.this_levels_xp + xp) as nat,
                    );
                }
                db_user.gain_xp(xp);
                s.update_user(user, db_user);
                proof {
                    let prior = state@;
                    let u0 = abs_user_or_default(prior.users, *user);
                    let u2 = spec_gain_user(u0, xp_curve(*length as nat));
                    assert(db_user@ =~= u2);
                    assert(prior.users.insert(*user, u0).insert(*user, u2) =~= prior.users.insert(
                        *user,
                        u2,
                    ));
                }
                (s, SideChannel::Nothing)
            },
            DBEvent::AdminGive { user, item } => {
                let mut db_user = s.get_user_or_create(user);
                db_user.give_item(*item);
                s.update_user(user, db_user);
                proof {
                    let prior = state@;
                    let u0 = abs_user_or_default(prior.users, *user);
                    let u2 = AbsUser { items: u0.items.push(*item), ..u0 };
                    assert(db_user@ =~= u2);
                    assert(prior.users.insert(*user, u0).insert(*user, u2) =~= prior.users.insert(
                        *user,
                        u2,
                    ));
                }
                (s, SideChannel::Nothing)
            },
            DBEvent::AdminBurn { user, item } => {
                let mut db_user = s.get_user_or_default(user);
                let ghost u0 = db_user@;
                let result = db_user.drop_item(*item);
                match result {
                    Ok(_) => {
                        s.update_user(user, db_user);
                        proof {
                            let prior = state@;
                            let idx = u0.items.index_of_first(*item)->0;
                            let u2 = AbsUser { items: u0.items.remove(idx), ..u0 };
                            assert(db_user@ =~= u2);
                        }
                        (s, SideChannel::Nothing)
                    },
                    // A failed burn leaves the state untouched: no record is
                    // created for an unseen user.
                    Err(err) => (s, SideChannel::AdminBurnFail { user_error: err }),
                }
            },
            DBEvent::ChannelAdd { server, id, remote_id } => {
                let mut db_server = s.get_server_or_create(server);
                let ghost srv0 = db_server@;
                assoc_insert(&mut db_server.channels, id.duplicate(), *remote_id);
                s.update_server(server, db_server);
                proof {
                    let prior = state@;
                    let srv2 = AbsServer { channels: srv0.channels.insert(id@, *remote_id), ..srv0 };
                    assert(prior.servers.insert(*server, srv0).insert(*server, srv2)
                        =~= prior.servers.insert(*server, srv2));
                }
                (s, SideChannel::Nothing)
            },
            DBEvent::ChannelForget { server, id } => {
                let mut db_server = s.get_server_or_create(server);
                let ghost srv0 = db_server@;
                assoc_remove(&mut db_server.channels, id);
                s.update_server(server, db_server);
                proof {
                    let prior = state@;
                    let srv2 = AbsServer { channels: srv0.channels.remove(id@), ..srv0 };
                    assert(prior.servers.insert(*server, srv0).insert(*server, srv2)
                        =~= prior.servers.insert(*server, srv2));
                }
                (s, SideChannel::Nothing)
            },
            DBEvent::RoleAdd { server, id, remote_id } => {
                let mut db_server = s.get_server_or_create(server);
                let ghost srv0 = db_server@;
                assoc_insert(&mut db_server.roles, id.duplicate(), *remote_id);
                s.update_server(server, db_server);
                proof {
                    let prior = state@;
                    let srv2 = AbsServer { roles: srv0.roles.insert(id@, *remote_id), ..srv0 };
                    assert(prior.servers.insert(*server, srv0).insert(*server, srv2)
                        =~= prior.servers.insert(*server, srv2));
                }
                (s, SideChannel::Nothing)
            },
            DBEvent::RoleForget { server, id } => {
                let mut db_server = s.get_server_or_create(server);
                let ghost srv0 = db_server@;
                assoc_remove(&mut db_server.roles, id);
                s.update_server(server, db_server);
                proof {
                    let prior = state@;
                    let srv2 = AbsServer { roles: srv0.roles.remove(id@), ..srv0 };
                    assert(prior.servers.insert(*server, srv0).insert(*server, srv2)
                        =~= prior.servers.insert(*server, srv2));
                }
                (s, SideChannel::Nothing)
            },
        }
    }
}

} // verus!
