//! The convergence engine: pure planners that diff the declarative server
//! specification against a snapshot of the live remote state and the cached
//! id mappings, and return the operations that bring the remote in line.
//!
//! The embedding application drives the phases in order: it fetches the live
//! snapshot, asks a planner what to do, performs the returned operations
//! through the transport, records new id mappings as events, re-reads the
//! mapping after every mutating sub-step, and hands the refreshed inputs to
//! the next phase. Every planner is deterministic in its inputs, and each
//! re-derives what is missing from the current state, so a retried run
//! resumes from partial state.
use crate::assoc::{assoc_get, AssocKey};
use crate::config::{channel_ok, ChannelKind, Permissions, ServerConfig, ServerConfigChannel,
    ServerConfigChannelId, ServerConfigPermissions, ServerConfigRole, ServerConfigRoleId,
    ServerConfigTextLike};
use crate::ids::{ChannelId, GuildId, RoleId};
use crate::items::Colour;
use crate::state::{AbsServer, DBServer};
use vstd::prelude::*;

verus! {

/// A live role as the transport reports it.
pub struct RemoteRole {
    pub id: RoleId,
    pub name: String,
    pub color: Colour,
    pub permissions: Permissions,
    pub position: u64,
}

/// Whom a permission overwrite applies to.
#[derive(Clone, Copy, PartialEq, Eq, Structural, Debug)]
pub enum OverwriteKind {
    Role,
    Member,
}

/// One permission overwrite on a channel.
#[derive(Clone, Copy, PartialEq, Eq, Structural, Debug)]
pub struct Overwrite {
    pub kind: OverwriteKind,
    pub target: u64,
    pub allow: Permissions,
    pub deny: Permissions,
}

/// A live channel as the transport reports it.
pub struct RemoteChannel {
    pub id: ChannelId,
    pub name: String,
    pub kind: ChannelKind,
    pub topic: Option<String>,
    pub parent: Option<ChannelId>,
    pub position: u64,
    pub overwrites: Vec<Overwrite>,
}

/// The fields of one role edit.
pub struct RoleEdit {
    pub name: String,
    pub color: Colour,
    pub permissions: Permissions,
}

/// The fields of one channel edit.
pub struct ChannelEdit {
    pub name: String,
    pub kind: ChannelKind,
    pub topic: Option<String>,
    pub overwrites: Option<Vec<Overwrite>>,
}

/// Live role snapshots carry no duplicate ids.
pub open spec fn remote_roles_wf(live: Seq<RemoteRole>) -> bool {
    forall|i: int, j: int| 0 <= i < j < live.len() ==> live[i].id != live[j].id
}

/// Live channel snapshots carry no duplicate ids.
pub open spec fn remote_channels_wf(live: Seq<RemoteChannel>) -> bool {
    forall|i: int, j: int| 0 <= i < j < live.len() ==> live[i].id != live[j].id
}

pub open spec fn live_has_role(live: Seq<RemoteRole>, id: RoleId) -> bool {
    exists|i: int| 0 <= i < live.len() && live[i].id == id
}

/// The live role with the given id (meaningful when present and unique).
pub open spec fn live_role(live: Seq<RemoteRole>, id: RoleId) -> RemoteRole {
    live[choose|i: int| 0 <= i < live.len() && live[i].id == id]
}

pub open spec fn live_has_channel(live: Seq<RemoteChannel>, id: ChannelId) -> bool {
    exists|i: int| 0 <= i < live.len() && live[i].id == id
}

/// The live channel with the given id (meaningful when present and unique).
pub open spec fn live_channel(live: Seq<RemoteChannel>, id: ChannelId) -> RemoteChannel {
    live[choose|i: int| 0 <= i < live.len() && live[i].id == id]
}

/// Finds the live role with the given id.
pub fn find_role<'a>(live: &'a Vec<RemoteRole>, id: RoleId) -> (r: Option<&'a RemoteRole>)
    requires
        remote_roles_wf(live@),
    ensures
        match r {
            Some(x) => live_has_role(live@, id) && *x == live_role(live@, id),
            None => !live_has_role(live@, id),
        },
{
    let mut i: usize = 0;
    while i < live.len()
        invariant
            remote_roles_wf(live@),
            i <= live@.len(),
            forall|j: int| 0 <= j < i ==> live@[j].id != id,
        decreases live@.len() - i,
    {
        if live[i].id.0 == id.0 {
            proof {
                let w = choose|w: int| 0 <= w < live@.len() && live@[w].id == id;
                assert(w == i as int);
            }
            return Some(&live[i]);
        }
        i = i + 1;
    }
    None
}

/// Finds the live channel with the given id.
pub fn find_channel<'a>(live: &'a Vec<RemoteChannel>, id: ChannelId) -> (r: Option<
    &'a RemoteChannel,
>)
    requires
        remote_channels_wf(live@),
    ensures
        match r {
            Some(x) => live_has_channel(live@, id) && *x == live_channel(live@, id),
            None => !live_has_channel(live@, id),
        },
{
    let mut i: usize = 0;
    while i < live.len()
        invariant
            remote_channels_wf(live@),
            i <= live@.len(),
            forall|j: int| 0 <= j < i ==> live@[j].id != id,
        decreases live@.len() - i,
    {
        if live[i].id.0 == id.0 {
            proof {
                let w = choose|w: int| 0 <= w < live@.len() && live@[w].id == id;
                assert(w == i as int);
            }
            return Some(&live[i]);
        }
        i = i + 1;
    }
    None
}

/// A cached role mapping is valid when the logical id is mapped and the
/// mapped remote role is still live.
pub open spec fn role_mapping_valid(server: AbsServer, live: Seq<RemoteRole>, id: Seq<char>) -> bool {
    server.roles.contains_key(id) && live_has_role(live, server.roles[id])
}

/// A cached channel mapping is valid when the logical id is mapped, the
/// mapped remote channel is still live, and its kind matches.
pub open spec fn channel_mapping_valid(
    server: AbsServer,
    live: Seq<RemoteChannel>,
    id: Seq<char>,
    kind: ChannelKind,
) -> bool {
    &&& server.channels.contains_key(id)
    &&& live_has_channel(live, server.channels[id])
    &&& live_channel(live, server.channels[id]).kind == kind
}

/// How many times `x` occurs in `s`.
pub open spec fn count_of(s: Seq<Overwrite>, x: Overwrite) -> nat
    decreases s.len(),
{
    if s.len() == 0 {
        0
    } else {
        count_of(s.drop_last(), x) + if s.last() == x {
            1nat
        } else {
            0nat
        }
    }
}

/// Order-independent equality of overwrite lists: every overwrite occurs
/// equally often on both sides.
pub open spec fn overwrites_match(a: Seq<Overwrite>, b: Seq<Overwrite>) -> bool {
    forall|x: Overwrite| count_of(a, x) == count_of(b, x)
}

/// An overwrite occurs in a sequence exactly when its count is positive.
proof fn lemma_count_contains(s: Seq<Overwrite>, x: Overwrite)
    ensures
        count_of(s, x) > 0 <==> s.contains(x),
    decreases s.len(),
{
    if s.len() > 0 {
        lemma_count_contains(s.drop_last(), x);
        if s.drop_last().contains(x) {
            let i = choose|i: int| 0 <= i < s.drop_last().len() && s.drop_last()[i] == x;
            assert(s[i] == x);
        }
        if s.contains(x) && s.last() != x {
            let i = choose|i: int| 0 <= i < s.len() && s[i] == x;
            assert(s.drop_last()[i] == x);
        }
    }
}

fn count_overwrites(v: &Vec<Overwrite>, x: Overwrite) -> (r: usize)
    ensures
        r == count_of(v@, x),
{
    let mut i: usize = 0;
    let mut cnt: usize = 0;
    while i < v.len()
        invariant
            i <= v@.len(),
            cnt == count_of(v@.subrange(0, i as int), x),
            cnt <= i,
        decreases v@.len() - i,
    {
        let ghost pre = v@.subrange(0, i as int);
        if v[i].target == x.target && v[i].kind == x.kind && v[i].allow.0 == x.allow.0 && v[i].deny.0
            == x.deny.0 {
            cnt = cnt + 1;
        }
        proof {
            assert(v@.subrange(0, i + 1).drop_last() =~= pre);
            assert(v@.subrange(0, i + 1).last() == v@[i as int]);
            assert(v@[i as int] == x <==> (v@[i as int].target == x.target && v@[i as int].kind
                == x.kind && v@[i as int].allow.0 == x.allow.0 && v@[i as int].deny.0 == x.deny.0));
        }
        i = i + 1;
    }
    proof {
        assert(v@.subrange(0, v@.len() as int) =~= v@);
    }
    cnt
}

/// Decides order-independent equality of two overwrite lists.
pub fn overwrites_match_exec(a: &Vec<Overwrite>, b: &Vec<Overwrite>) -> (r: bool)
    ensures
        r == overwrites_match(a@, b@),
{
    let mut i: usize = 0;
    while i < a.len()
        invariant
            i <= a@.len(),
            forall|j: int|
                0 <= j < i ==> count_of(a@, #[trigger] a@[j]) == count_of(b@, a@[j]),
        decreases a@.len() - i,
    {
        let x = a[i];
        if count_overwrites(a, x) != count_overwrites(b, x) {
            proof {
                assert(!overwrites_match(a@, b@));
            }
            return false;
        }
        i = i + 1;
    }
    let mut k: usize = 0;
    while k < b.len()
        invariant
            k <= b@.len(),
            forall|j: int|
                0 <= j < a@.len() ==> count_of(a@, #[trigger] a@[j]) == count_of(b@, a@[j]),
            forall|j: int|
                0 <= j < k ==> count_of(a@, #[trigger] b@[j]) == count_of(b@, b@[j]),
        decreases b@.len() - k,
    {
        let x = b[k];
        if count_overwrites(a, x) != count_overwrites(b, x) {
            proof {
                assert(!overwrites_match(a@, b@));
            }
            return false;
        }
        k = k + 1;
    }
    proof {
        assert forall|x: Overwrite| count_of(a@, x) == count_of(b@, x) by {
            lemma_count_contains(a@, x);
            lemma_count_contains(b@, x);
            if a@.contains(x) {
                let i = choose|i: int| 0 <= i < a@.len() && a@[i] == x;
                assert(count_of(a@, a@[i]) == count_of(b@, a@[i]));
            } else if b@.contains(x) {
                let i = choose|i: int| 0 <= i < b@.len() && b@[i] == x;
                assert(count_of(a@, b@[i]) == count_of(b@, b@[i]));
            }
        }
    }
    true
}

/// The fully-resolved overwrite list of a configured channel: the named
/// per-role overrides, mapped through the cached role mappings, plus the
/// implicit base overwrite for the guild's default role (whose id is the
/// guild id).
pub open spec fn spec_overrides(
    guild: GuildId,
    server: AbsServer,
    perms: ServerConfigPermissions,
) -> Seq<Overwrite> {
    perms.overrides@.map_values(
        |ow: crate::config::ServerConfigPermissionOverwrite|
            Overwrite {
                kind: OverwriteKind::Role,
                target: server.roles[ow.role@].0,
                allow: ow.allow,
                deny: ow.deny,
            },
    ).push(
        Overwrite { kind: OverwriteKind::Role, target: guild.0, allow: perms.base, deny: Permissions(0) },
    )
}

/// Every role the overrides name has a cached mapping.
pub open spec fn perms_roles_mapped(perms: ServerConfigPermissions, server: AbsServer) -> bool {
    forall|i: int|
        0 <= i < perms.overrides@.len() ==> server.roles.contains_key(
            (#[trigger] perms.overrides@[i]).role@,
        )
}

/// Resolves a configured permission set against the cached role mappings.
pub fn overrides(guild: &GuildId, server: &DBServer, perms: &ServerConfigPermissions) -> (r:
    Vec<Overwrite>)
    requires
        server.wf(),
        perms_roles_mapped(*perms, server@),
    ensures
        r@ == spec_overrides(*guild, server@, *perms),
{
    let ghost goal = spec_overrides(*guild, server@, *perms);
    let mut out: Vec<Overwrite> = Vec::new();
    let mut i: usize = 0;
    while i < perms.overrides.len()
        invariant
            server.wf(),
            perms_roles_mapped(*perms, server@),
            i <= perms.overrides@.len(),
            out@ =~= perms.overrides@.subrange(0, i as int).map_values(
                |ow: crate::config::ServerConfigPermissionOverwrite|
                    Overwrite {
                        kind: OverwriteKind::Role,
                        target: server@.roles[ow.role@].0,
                        allow: ow.allow,
                        deny: ow.deny,
                    },
            ),
        decreases perms.overrides@.len() - i,
    {
        let ow = &perms.overrides[i];
        let rid = match assoc_get(&server.roles, &ow.role) {
            Some(rid) => *rid,
            None => {
                proof {
                    assert(false);
                }
                RoleId(0)
            },
        };
        out.push(Overwrite { kind: OverwriteKind::Role, target: rid.0, allow: ow.allow, deny: ow.deny });
        proof {
            assert(out@.drop_last() =~= perms.overrides@.subrange(0, i as int).map_values(
                |ow: crate::config::ServerConfigPermissionOverwrite|
                    Overwrite {
                        kind: OverwriteKind::Role,
                        target: server@.roles[ow.role@].0,
                        allow: ow.allow,
                        deny: ow.deny,
                    },
            ));
            assert(perms.overrides@.subrange(0, i + 1).drop_last() =~= perms.overrides@.subrange(
                0,
                i as int,
            ));
            assert(out@ =~= perms.overrides@.subrange(0, i + 1).map_values(
                |ow: crate::config::ServerConfigPermissionOverwrite|
                    Overwrite {
                        kind: OverwriteKind::Role,
                        target: server@.roles[ow.role@].0,
                        allow: ow.allow,
                        deny: ow.deny,
                    },
            ));
        }
        i = i + 1;
    }
    out.push(
        Overwrite { kind: OverwriteKind::Role, target: guild.0, allow: perms.base, deny: Permissions(0) },
    );
    proof {
        assert(perms.overrides@.subrange(0, perms.overrides@.len() as int) =~= perms.overrides@);
        assert(out@ =~= goal);
    }
    out
}

/// Whether a live role differs from its configured shape in name, colour or
/// permissions.
pub open spec fn role_dirty(cfg: ServerConfigRole, live: RemoteRole) -> bool {
    live.color != cfg.color || live.name@ != cfg.name@ || live.permissions != cfg.permissions
}

/// Whether the configured topic matches the live one.
pub open spec fn topic_matches(desc: Seq<char>, topic: Option<String>) -> bool {
    match topic {
        Some(t) => t@ == desc,
        None => false,
    }
}

/// Whether a live channel differs from its configured shape: name, topic
/// (text-like only) and the fully-resolved overwrite set, compared
/// order-independently.
pub open spec fn spec_channel_dirty(
    c: ServerConfigChannel,
    chan: RemoteChannel,
    guild: GuildId,
    server: AbsServer,
) -> bool {
    match c {
        ServerConfigChannel::Text(tl) => tl.name@ != chan.name@ || !topic_matches(
            tl.description@,
            chan.topic,
        ) || !overwrites_match(spec_overrides(guild, server, tl.permissions), chan.overwrites@),
        ServerConfigChannel::Rules(tl) => tl.name@ != chan.name@ || !topic_matches(
            tl.description@,
            chan.topic,
        ) || !overwrites_match(spec_overrides(guild, server, tl.permissions), chan.overwrites@),
        ServerConfigChannel::News(tl) => tl.name@ != chan.name@ || !topic_matches(
            tl.description@,
            chan.topic,
        ) || !overwrites_match(spec_overrides(guild, server, tl.permissions), chan.overwrites@),
        ServerConfigChannel::Voice { name, permissions } => name@ != chan.name@
            || !overwrites_match(spec_overrides(guild, server, permissions), chan.overwrites@),
        ServerConfigChannel::Category { name, .. } => name@ != chan.name@,
    }
}

/// The roles a configured channel's overrides name, where it has any.
pub open spec fn channel_perms(c: ServerConfigChannel) -> Option<ServerConfigPermissions> {
    match c {
        ServerConfigChannel::Text(tl) => Some(tl.permissions),
        ServerConfigChannel::Rules(tl) => Some(tl.permissions),
        ServerConfigChannel::News(tl) => Some(tl.permissions),
        ServerConfigChannel::Voice { permissions, .. } => Some(permissions),
        ServerConfigChannel::Category { .. } => None,
    }
}

pub open spec fn channel_roles_mapped(c: ServerConfigChannel, server: AbsServer) -> bool {
    match channel_perms(c) {
        Some(p) => perms_roles_mapped(p, server),
        None => true,
    }
}

fn text_like_dirty(tl: &ServerConfigTextLike, chan: &RemoteChannel, guild: &GuildId, server: &DBServer) -> (r: bool)
    requires
        server.wf(),
        perms_roles_mapped(tl.permissions, server@),
    ensures
        r == (tl.name@ != chan.name@ || !topic_matches(tl.description@, chan.topic)
            || !overwrites_match(spec_overrides(*guild, server@, tl.permissions), chan.overwrites@)),
{
    if !(tl.name == chan.name) {
        return true;
    }
    let topic_ok = match &chan.topic {
        Some(t) => *t == tl.description,
        None => false,
    };
    if !topic_ok {
        return true;
    }
    let want = overrides(guild, server, &tl.permissions);
    if !overwrites_match_exec(&want, &chan.overwrites) {
        return true;
    }
    false
}

impl ServerConfigChannel {
    /// Whether the live channel needs an edit to match this configured one.
    pub fn check_dirty(&self, chan: &RemoteChannel, guild: &GuildId, server: &DBServer) -> (r: bool)
        requires
            server.wf(),
            channel_roles_mapped(*self, server@),
        ensures
            r == spec_channel_dirty(*self, *chan, *guild, server@),
    {
        match self {
            ServerConfigChannel::Text(tl) => text_like_dirty(tl, chan, guild, server),
            ServerConfigChannel::Rules(tl) => text_like_dirty(tl, chan, guild, server),
            ServerConfigChannel::News(tl) => text_like_dirty(tl, chan, guild, server),
            ServerConfigChannel::Voice { name, permissions } => {
                if !(*name == chan.name) {
                    true
                } else {
                    let want = overrides(guild, server, permissions);
                    !overwrites_match_exec(&want, &chan.overwrites)
                }
            },
            ServerConfigChannel::Category { name, .. } => !(*name == chan.name),
        }
    }

    /// The full desired shape of this configured channel, as one edit.
    pub fn build(&self, guild: &GuildId, server: &DBServer) -> (r: ChannelEdit)
        requires
            server.wf(),
            channel_roles_mapped(*self, server@),
        ensures
            r.kind == self.spec_kind(),
            edit_matches(r, *self, *guild, server@),
    {
        match self {
            ServerConfigChannel::Text(tl) => ChannelEdit {
                name: tl.name.clone(),
                kind: ChannelKind::Text,
                topic: Some(tl.description.clone()),
                overwrites: Some(overrides(guild, server, &tl.permissions)),
            },
            ServerConfigChannel::Rules(tl) => ChannelEdit {
                name: tl.name.clone(),
                kind: ChannelKind::Text,
                topic: Some(tl.description.clone()),
                overwrites: Some(overrides(guild, server, &tl.permissions)),
            },
            ServerConfigChannel::News(tl) => ChannelEdit {
                name: tl.name.clone(),
                kind: ChannelKind::News,
                topic: Some(tl.description.clone()),
                overwrites: Some(overrides(guild, server, &tl.permissions)),
            },
            ServerConfigChannel::Voice { name, permissions } => ChannelEdit {
                name: name.clone(),
                kind: ChannelKind::Voice,
                topic: None,
                overwrites: Some(overrides(guild, server, permissions)),
            },
            ServerConfigChannel::Category { name, .. } => ChannelEdit {
                name: name.clone(),
                kind: ChannelKind::Category,
                topic: None,
                overwrites: None,
            },
        }
    }
}

/// Whether one channel edit carries exactly the desired shape of a configured
/// channel.
pub open spec fn edit_matches(
    e: ChannelEdit,
    c: ServerConfigChannel,
    guild: GuildId,
    server: AbsServer,
) -> bool {
    &&& e.kind == c.spec_kind()
    &&& match c {
        ServerConfigChannel::Text(tl) => e.name@ == tl.name@ && (e.topic matches Some(t)
            && t@ == tl.description@) && (e.overwrites matches Some(v) && v@ == spec_overrides(
            guild,
            server,
            tl.permissions,
        )),
        ServerConfigChannel::Rules(tl) => e.name@ == tl.name@ && (e.topic matches Some(t)
            && t@ == tl.description@) && (e.overwrites matches Some(v) && v@ == spec_overrides(
            guild,
            server,
            tl.permissions,
        )),
        ServerConfigChannel::News(tl) => e.name@ == tl.name@ && (e.topic matches Some(t)
            && t@ == tl.description@) && (e.overwrites matches Some(v) && v@ == spec_overrides(
            guild,
            server,
            tl.permissions,
        )),
        ServerConfigChannel::Voice { name, permissions } => e.name@ == name@ && e.topic is None
            && (e.overwrites matches Some(v) && v@ == spec_overrides(guild, server, permissions)),
        ServerConfigChannel::Category { name, .. } => e.name@ == name@ && e.topic is None
            && e.overwrites is None,
    }
}

/// `filter` of a sequence extended by one element.
proof fn lemma_filter_push<A>(s: Seq<A>, x: A, pred: spec_fn(A) -> bool)
    ensures
        s.push(x).filter(pred) == if pred(x) {
            s.filter(pred).push(x)
        } else {
            s.filter(pred)
        },
{
    reveal(Seq::filter);
    assert(s.push(x).drop_last() =~= s);
    assert(s.push(x).last() == x);
}

/// A filter whose predicate holds nowhere is empty.
proof fn lemma_filter_all_false<A>(s: Seq<A>, pred: spec_fn(A) -> bool)
    requires
        forall|i: int| 0 <= i < s.len() ==> !pred(#[trigger] s[i]),
    ensures
        s.filter(pred) == Seq::<A>::empty(),
    decreases s.len(),
{
    reveal(Seq::filter);
    if s.len() > 0 {
        lemma_filter_all_false(s.drop_last(), pred);
    }
    assert(s.filter(pred) =~= Seq::<A>::empty());
}

/// Whatever role the configuration declares, the server record maps.
proof fn lemma_roles_mapped_from_config(config: ServerConfig, server: AbsServer)
    requires
        all_roles_mapped(config, server),
    ensures
        forall|rid: Seq<char>|
            config.spec_roles().contains_key(rid) ==> #[trigger] server.roles.contains_key(rid),
{
    assert forall|rid: Seq<char>|
        config.spec_roles().contains_key(rid) implies #[trigger] server.roles.contains_key(rid) by {
        crate::assoc::lemma_assoc_map_dom(config.roles@, rid);
        let w = choose|w: int|
            0 <= w < config.roles@.len() && config.roles@[w].0.abs() == rid;
        assert(server.roles.contains_key(config.roles@[w].0@));
    }
}

/// Every configured role has a cached mapping.
pub open spec fn all_roles_mapped(config: ServerConfig, server: AbsServer) -> bool {
    forall|i: int|
        0 <= i < config.roles@.len() ==> server.roles.contains_key(
            (#[trigger] config.roles@[i]).0@,
        )
}

/// Every configured role has a valid cached mapping to a live role.
pub open spec fn all_role_mappings_valid(
    config: ServerConfig,
    server: AbsServer,
    live: Seq<RemoteRole>,
) -> bool {
    forall|i: int|
        0 <= i < config.roles@.len() ==> role_mapping_valid(
            server,
            live,
            (#[trigger] config.roles@[i]).0@,
        )
}

/// Every configured channel has a valid cached mapping of the right kind.
pub open spec fn all_channel_mappings_valid(
    config: ServerConfig,
    server: AbsServer,
    live: Seq<RemoteChannel>,
) -> bool {
    forall|i: int|
        0 <= i < config.channels@.len() ==> channel_mapping_valid(
            server,
            live,
            (#[trigger] config.channels@[i]).0@,
            config.channels@[i].1.spec_kind(),
        )
}

/// Role existence: the configured roles that lack a valid cached mapping
/// (no entry, or the cached remote role is no longer live) and must be
/// created, in declaration order.
pub open spec fn spec_roles_to_create(
    config: ServerConfig,
    server: AbsServer,
    live: Seq<RemoteRole>,
) -> Seq<ServerConfigRoleId> {
    config.roles@.map_values(|p: (ServerConfigRoleId, ServerConfigRole)| p.0).filter(
        |id: ServerConfigRoleId| !role_mapping_valid(server, live, id@),
    )
}

/// Role existence planner. Returns an empty plan exactly when every
/// configured role already has a valid mapping.
pub fn roles_to_create(config: &ServerConfig, server: &DBServer, live: &Vec<RemoteRole>) -> (r: Vec<
    ServerConfigRoleId,
>)
    requires
        config.wf(),
        server.wf(),
        remote_roles_wf(live@),
    ensures
        r@ == spec_roles_to_create(*config, server@, live@),
        r@.len() == 0 <==> all_role_mappings_valid(*config, server@, live@),
{
    let ghost proj = |p: (ServerConfigRoleId, ServerConfigRole)| p.0;
    let ghost pred = |id: ServerConfigRoleId| !role_mapping_valid(server@, live@, id@);
    let mut out: Vec<ServerConfigRoleId> = Vec::new();
    let mut i: usize = 0;
    proof {
        reveal(Seq::filter);
        assert(config.roles@.subrange(0, 0).map_values(proj).filter(pred) =~= Seq::<
            ServerConfigRoleId,
        >::empty());
    }
    while i < config.roles.len()
        invariant
            config.wf(),
            server.wf(),
            remote_roles_wf(live@),
            i <= config.roles@.len(),
            out@ == config.roles@.subrange(0, i as int).map_values(proj).filter(pred),
            proj == (|p: (ServerConfigRoleId, ServerConfigRole)| p.0),
            pred == (|id: ServerConfigRoleId| !role_mapping_valid(server@, live@, id@)),
        decreases config.roles@.len() - i,
    {
        let ghost prefix = config.roles@.subrange(0, i as int).map_values(proj);
        let id = &config.roles[i].0;
        let valid = match assoc_get(&server.roles, id) {
            Some(rid) => find_role(live, *rid).is_some(),
            None => false,
        };
        if !valid {
            out.push(id.duplicate());
        }
        proof {
            assert(config.roles@.subrange(0, i + 1).drop_last() =~= config.roles@.subrange(
                0,
                i as int,
            ));
            assert(config.roles@.subrange(0, i + 1).map_values(proj) =~= prefix.push(
                config.roles@[i as int].0,
            ));
            lemma_filter_push(prefix, config.roles@[i as int].0, pred);
        }
        i = i + 1;
    }
    proof {
        assert(config.roles@.subrange(0, config.roles@.len() as int) =~= config.roles@);
        if out@.len() == 0 {
            assert forall|i0: int| 0 <= i0 < config.roles@.len() implies role_mapping_valid(
                server@,
                live@,
                (#[trigger] config.roles@[i0]).0@,
            ) by {
                if !role_mapping_valid(server@, live@, config.roles@[i0].0@) {
                    let mapped = config.roles@.map_values(proj);
                    assert(pred(mapped[i0]));
                    mapped.lemma_filter_contains(pred, i0);
                }
            }
        }
        if all_role_mappings_valid(*config, server@, live@) {
            lemma_filter_all_false(config.roles@.map_values(proj), pred);
        }
    }
    out
}

/// Whether a live role is referenced by some configured role's mapping.
pub open spec fn role_used(config: ServerConfig, server: AbsServer, id: RoleId) -> bool {
    exists|i: int|
        0 <= i < config.roles@.len() && server.roles.contains_key(
            (#[trigger] config.roles@[i]).0@,
        ) && server.roles[config.roles@[i].0@] == id
}

/// Role pruning: the live roles not referenced by any configured mapping
/// whose position is above the bot's own ceiling are deleted.
pub open spec fn spec_roles_to_delete(
    config: ServerConfig,
    server: AbsServer,
    live: Seq<RemoteRole>,
    my_pos: u64,
) -> Seq<RoleId> {
    live.filter(
        |rr: RemoteRole| !role_used(config, server, rr.id) && rr.position > my_pos,
    ).map_values(|rr: RemoteRole| rr.id)
}

fn role_id_vec_contains(v: &Vec<RoleId>, id: RoleId) -> (r: bool)
    ensures
        r == v@.contains(id),
{
    let mut i: usize = 0;
    while i < v.len()
        invariant
            i <= v@.len(),
            forall|j: int| 0 <= j < i ==> v@[j] != id,
        decreases v@.len() - i,
    {
        if v[i].0 == id.0 {
            return true;
        }
        i = i + 1;
    }
    false
}

/// Role pruning planner.
pub fn roles_to_delete(
    config: &ServerConfig,
    server: &DBServer,
    live: &Vec<RemoteRole>,
    my_pos: u64,
) -> (r: Vec<RoleId>)
    requires
        config.wf(),
        server.wf(),
        all_roles_mapped(*config, server@),
    ensures
        r@ == spec_roles_to_delete(*config, server@, live@, my_pos),
{
    let ghost pred = |rr: RemoteRole| !role_used(*config, server@, rr.id) && rr.position > my_pos;
    let mut used: Vec<RoleId> = Vec::new();
    let mut i: usize = 0;
    while i < config.roles.len()
        invariant
            config.wf(),
            server.wf(),
            all_roles_mapped(*config, server@),
            i <= config.roles@.len(),
            used@.len() == i,
            forall|j: int|
                0 <= j < i ==> server@.roles.contains_key((#[trigger] config.roles@[j]).0@)
                    && used@[j] == server@.roles[config.roles@[j].0@],
        decreases config.roles@.len() - i,
    {
        let id = &config.roles[i].0;
        match assoc_get(&server.roles, id) {
            Some(rid) => {
                used.push(*rid);
            },
            None => {
                proof {
                    assert(false);
                }
            },
        }
        i = i + 1;
    }
    proof {
        assert forall|id: RoleId| used@.contains(id) == role_used(*config, server@, id) by {
            if used@.contains(id) {
                let j = choose|j: int| 0 <= j < used@.len() && used@[j] == id;
                assert(server@.roles.contains_key(config.roles@[j].0@) && server@.roles[
                    config.roles@[j].0@
                ] == id);
            }
            if role_used(*config, server@, id) {
                let j = choose|j: int|
                    0 <= j < config.roles@.len() && server@.roles.contains_key(
                        (#[trigger] config.roles@[j]).0@,
                    ) && server@.roles[config.roles@[j].0@] == id;
                assert(used@[j] == id);
            }
        }
    }
    let mut out: Vec<RoleId> = Vec::new();
    let mut k: usize = 0;
    proof {
        reveal(Seq::filter);
        assert(live@.subrange(0, 0).filter(pred).map_values(|rr: RemoteRole| rr.id) =~= Seq::<
            RoleId,
        >::empty());
    }
    while k < live.len()
        invariant
            k <= live@.len(),
            forall|id: RoleId| used@.contains(id) == role_used(*config, server@, id),
            out@ == live@.subrange(0, k as int).filter(pred).map_values(|rr: RemoteRole| rr.id),
            pred == (|rr: RemoteRole| !role_used(*config, server@, rr.id) && rr.position > my_pos),
        decreases live@.len() - k,
    {
        let ghost prefix = live@.subrange(0, k as int);
        let rr = &live[k];
        if !role_id_vec_contains(&used, rr.id) && rr.position > my_pos {
            out.push(rr.id);
        }
        proof {
            assert(live@.subrange(0, k + 1).drop_last() =~= prefix);
            assert(live@.subrange(0, k + 1) =~= prefix.push(live@[k as int]));
            lemma_filter_push(prefix, live@[k as int], pred);
            assert(prefix.push(live@[k as int]).filter(pred).map_values(|rr: RemoteRole| rr.id)
                =~= if pred(live@[k as int]) {
                prefix.filter(pred).map_values(|rr: RemoteRole| rr.id).push(live@[k as int].id)
            } else {
                prefix.filter(pred).map_values(|rr: RemoteRole| rr.id)
            });
        }
        k = k + 1;
    }
    proof {
        assert(live@.subrange(0, live@.len() as int) =~= live@);
    }
    out
}

/// Lists the logical role ids whose cached mapping points at the given
/// remote role (to be forgotten when it is deleted).
pub fn stale_role_mappings(server: &DBServer, id: RoleId) -> (r: Vec<ServerConfigRoleId>)
    ensures
        r@ == server.roles@.filter(|p: (ServerConfigRoleId, RoleId)| p.1 == id).map_values(
            |p: (ServerConfigRoleId, RoleId)| p.0,
        ),
{
    let ghost pred = |p: (ServerConfigRoleId, RoleId)| p.1 == id;
    let ghost proj = |p: (ServerConfigRoleId, RoleId)| p.0;
    let mut out: Vec<ServerConfigRoleId> = Vec::new();
    let mut i: usize = 0;
    proof {
        reveal(Seq::filter);
        assert(server.roles@.subrange(0, 0).filter(pred).map_values(proj) =~= Seq::<
            ServerConfigRoleId,
        >::empty());
    }
    while i < server.roles.len()
        invariant
            i <= server.roles@.len(),
            out@ == server.roles@.subrange(0, i as int).filter(pred).map_values(proj),
            pred == (|p: (ServerConfigRoleId, RoleId)| p.1 == id),
            proj == (|p: (ServerConfigRoleId, RoleId)| p.0),
        decreases server.roles@.len() - i,
    {
        let ghost prefix = server.roles@.subrange(0, i as int);
        if server.roles[i].1.0 == id.0 {
            out.push(server.roles[i].0.duplicate());
        }
        proof {
            assert(server.roles@.subrange(0, i + 1) =~= prefix.push(server.roles@[i as int]));
            lemma_filter_push(prefix, server.roles@[i as int], pred);
            assert(prefix.push(server.roles@[i as int]).filter(pred).map_values(proj)
                =~= if pred(server.roles@[i as int]) {
                prefix.filter(pred).map_values(proj).push(server.roles@[i as int].0)
            } else {
                prefix.filter(pred).map_values(proj)
            });
        }
        i = i + 1;
    }
    proof {
        assert(server.roles@.subrange(0, server.roles@.len() as int) =~= server.roles@);
    }
    out
}

/// Lists the logical channel ids mapped to `id`.
pub fn stale_channel_mappings(server: &DBServer, id: ChannelId) -> (r: Vec<ServerConfigChannelId>)
    ensures
        r@ == server.channels@.filter(|p: (ServerConfigChannelId, ChannelId)| p.1 == id)
            .map_values(|p: (ServerConfigChannelId, ChannelId)| p.0),
{
    let ghost pred = |p: (ServerConfigChannelId, ChannelId)| p.1 == id;
    let ghost proj = |p: (ServerConfigChannelId, ChannelId)| p.0;
    let mut out: Vec<ServerConfigChannelId> = Vec::new();
    let mut i: usize = 0;
    proof {
        reveal(Seq::filter);
        assert(server.channels@.subrange(0, 0).filter(pred).map_values(proj) =~= Seq::<
            ServerConfigChannelId,
        >::empty());
    }
    while i < server.channels.len()
        invariant
            i <= server.channels@.len(),
            out@ == server.channels@.subrange(0, i as int).filter(pred).map_values(proj),
            pred == (|p: (ServerConfigChannelId, ChannelId)| p.1 == id),
            proj == (|p: (ServerConfigChannelId, ChannelId)| p.0),
        decreases server.channels@.len() - i,
    {
        let ghost prefix = server.channels@.subrange(0, i as int);
        if server.channels[i].1.0 == id.0 {
            out.push(server.channels[i].0.duplicate());
        }
        proof {
            assert(server.channels@.subrange(0, i + 1) =~= prefix.push(server.channels@[i as int]));
            lemma_filter_push(prefix, server.channels@[i as int], pred);
            assert(prefix.push(server.channels@[i as int]).filter(pred).map_values(proj)
                =~= if pred(server.channels@[i as int]) {
                prefix.filter(pred).map_values(proj).push(server.channels@[i as int].0)
            } else {
                prefix.filter(pred).map_values(proj)
            });
        }
        i = i + 1;
    }
    proof {
        assert(server.channels@.subrange(0, server.channels@.len() as int) =~= server.channels@);
    }
    out
}

/// Role convergence: the dirty configured roles, as (remote id, desired
/// fields) pairs, in declaration order.
pub open spec fn spec_role_edits(
    config: ServerConfig,
    server: AbsServer,
    live: Seq<RemoteRole>,
) -> Seq<(RoleId, RoleEdit)> {
    config.roles@.filter(
        |p: (ServerConfigRoleId, ServerConfigRole)|
            role_dirty(p.1, live_role(live, server.roles[p.0@])),
    ).map_values(
        |p: (ServerConfigRoleId, ServerConfigRole)|
            (
                server.roles[p.0@],
                RoleEdit { name: p.1.name, color: p.1.color, permissions: p.1.permissions },
            ),
    )
}

/// Role convergence planner: one edit, carrying all three fields, for every
/// configured role whose live name, colour or permissions differ. Empty when
/// every live role already matches its configuration.
pub fn role_edits(config: &ServerConfig, server: &DBServer, live: &Vec<RemoteRole>) -> (r: Vec<
    (RoleId, RoleEdit),
>)
    requires
        config.wf(),
        server.wf(),
        remote_roles_wf(live@),
        all_role_mappings_valid(*config, server@, live@),
    ensures
        r@ == spec_role_edits(*config, server@, live@),
        (forall|i: int|
            0 <= i < config.roles@.len() ==> !role_dirty(
                (#[trigger] config.roles@[i]).1,
                live_role(live@, server@.roles[config.roles@[i].0@]),
            )) ==> r@.len() == 0,
{
    let ghost pred = |p: (ServerConfigRoleId, ServerConfigRole)|
        role_dirty(p.1, live_role(live@, server@.roles[p.0@]));
    let ghost proj = |p: (ServerConfigRoleId, ServerConfigRole)|
        (
            server@.roles[p.0@],
            RoleEdit { name: p.1.name, color: p.1.color, permissions: p.1.permissions },
        );
    let mut out: Vec<(RoleId, RoleEdit)> = Vec::new();
    let mut i: usize = 0;
    proof {
        reveal(Seq::filter);
        assert(config.roles@.subrange(0, 0).filter(pred).map_values(proj) =~= Seq::<
            (RoleId, RoleEdit),
        >::empty());
    }
    while i < config.roles.len()
        invariant
            config.wf(),
            server.wf(),
            remote_roles_wf(live@),
            all_role_mappings_valid(*config, server@, live@),
            i <= config.roles@.len(),
            out@ == config.roles@.subrange(0, i as int).filter(pred).map_values(proj),
            pred == (|p: (ServerConfigRoleId, ServerConfigRole)|
                role_dirty(p.1, live_role(live@, server@.roles[p.0@]))),
            proj == (|p: (ServerConfigRoleId, ServerConfigRole)|
                (
                    server@.roles[p.0@],
                    RoleEdit { name: p.1.name, color: p.1.color, permissions: p.1.permissions },
                )),
        decreases config.roles@.len() - i,
    {
        let ghost prefix = config.roles@.subrange(0, i as int);
        let id = &config.roles[i].0;
        let cfg = &config.roles[i].1;
        let rid = match assoc_get(&server.roles, id) {
            Some(rid) => *rid,
            None => {
                proof {
                    assert(role_mapping_valid(server@, live@, config.roles@[i as int].0@));
                    assert(false);
                }
                RoleId(0)
            },
        };
        match find_role(live, rid) {
            Some(rr) => {
                let dirty = !(rr.color.0 == cfg.color.0) || !(rr.name == cfg.name) || !(
                rr.permissions.0 == cfg.permissions.0);
                if dirty {
                    out.push(
                        (
                            rid,
                            RoleEdit {
                                name: cfg.name.clone(),
                                color: cfg.color,
                                permissions: cfg.permissions,
                            },
                        ),
                    );
                }
            },
            None => {
                proof {
                    assert(role_mapping_valid(server@, live@, config.roles@[i as int].0@));
                    assert(false);
                }
            },
        }
        proof {
            assert(config.roles@.subrange(0, i + 1) =~= prefix.push(config.roles@[i as int]));
            lemma_filter_push(prefix, config.roles@[i as int], pred);
            assert(prefix.push(config.roles@[i as int]).filter(pred).map_values(proj)
                =~= if pred(config.roles@[i as int]) {
                prefix.filter(pred).map_values(proj).push(proj(config.roles@[i as int]))
            } else {
                prefix.filter(pred).map_values(proj)
            });
        }
        i = i + 1;
    }
    proof {
        assert(config.roles@.subrange(0, config.roles@.len() as int) =~= config.roles@);
        if forall|i0: int|
            0 <= i0 < config.roles@.len() ==> !role_dirty(
                (#[trigger] config.roles@[i0]).1,
                live_role(live@, server@.roles[config.roles@[i0].0@]),
            ) {
            lemma_filter_all_false(config.roles@, pred);
        }
    }
    out
}

/// Role ordering: walking the declared role order from just below the bot's
/// ceiling downward, the moves that place each role at its strictly
/// decreasing target position. A role whose target or current position would
/// sit at or above the ceiling is skipped.
pub open spec fn spec_role_moves(
    order: Seq<ServerConfigRoleId>,
    server: AbsServer,
    live: Seq<RemoteRole>,
    my_pos: u64,
    k: int,
) -> Seq<(RoleId, u64)>
    decreases order.len() - k,
{
    if k < 0 || k >= order.len() {
        Seq::empty()
    } else {
        let rest = spec_role_moves(order, server, live, my_pos, k + 1);
        let rid = server.roles[order[k]@];
        let cur = live_role(live, rid).position;
        if my_pos >= k + 1 && cur < my_pos && cur != my_pos - 1 - k {
            seq![(rid, (my_pos - 1 - k) as u64)] + rest
        } else {
            rest
        }
    }
}

/// Authority-respecting ordering: every move the ordering phase emits targets
/// a position strictly below the bot's ceiling, for a role whose current
/// position is also strictly below the ceiling.
pub proof fn lemma_authority_respecting_ordering(
    order: Seq<ServerConfigRoleId>,
    server: AbsServer,
    live: Seq<RemoteRole>,
    my_pos: u64,
    k: int,
)
    ensures
        forall|j: int|
            0 <= j < spec_role_moves(order, server, live, my_pos, k).len() ==> {
                let mv = #[trigger] spec_role_moves(order, server, live, my_pos, k)[j];
                mv.1 < my_pos && live_role(live, mv.0).position < my_pos
            },
    decreases order.len() - k,
{
    if 0 <= k < order.len() {
        lemma_authority_respecting_ordering(order, server, live, my_pos, k + 1);
        let rest = spec_role_moves(order, server, live, my_pos, k + 1);
        let rid = server.roles[order[k]@];
        let cur = live_role(live, rid).position;
        if my_pos >= k + 1 && cur < my_pos && cur != my_pos - 1 - k {
            let whole = seq![(rid, (my_pos - 1 - k) as u64)] + rest;
            assert forall|j: int| 0 <= j < whole.len() implies {
                let mv = #[trigger] whole[j];
                mv.1 < my_pos && live_role(live, mv.0).position < my_pos
            } by {
                if j == 0 {
                    assert(whole[0] == (rid, (my_pos - 1 - k) as u64));
                } else {
                    assert(whole[j] == rest[j - 1]);
                }
            }
        }
    }
}

/// Role ordering planner.
pub fn role_moves(
    order: &Vec<ServerConfigRoleId>,
    server: &DBServer,
    live: &Vec<RemoteRole>,
    my_pos: u64,
) -> (r: Vec<(RoleId, u64)>)
    requires
        server.wf(),
        remote_roles_wf(live@),
        forall|k: int|
            0 <= k < order@.len() ==> role_mapping_valid(server@, live@, (#[trigger] order@[k])@),
    ensures
        r@ == spec_role_moves(order@, server@, live@, my_pos, 0),
        forall|j: int|
            0 <= j < r@.len() ==> (#[trigger] r@[j]).1 < my_pos && live_role(live@, r@[j].0).position
                < my_pos,
{
    let mut out: Vec<(RoleId, u64)> = Vec::new();
    let mut k: usize = 0;
    while k < order.len()
        invariant
            server.wf(),
            remote_roles_wf(live@),
            forall|k0: int|
                0 <= k0 < order@.len() ==> role_mapping_valid(
                    server@,
                    live@,
                    (#[trigger] order@[k0])@,
                ),
            k <= order@.len(),
            out@ + spec_role_moves(order@, server@, live@, my_pos, k as int) == spec_role_moves(
                order@,
                server@,
                live@,
                my_pos,
                0,
            ),
            forall|j: int|
                0 <= j < out@.len() ==> (#[trigger] out@[j]).1 < my_pos && live_role(
                    live@,
                    out@[j].0,
                ).position < my_pos,
        decreases order@.len() - k,
    {
        let ghost pre = out@;
        let id = &order[k];
        let rid = match assoc_get(&server.roles, id) {
            Some(rid) => *rid,
            None => {
                proof {
                    assert(role_mapping_valid(server@, live@, order@[k as int]@));
                    assert(false);
                }
                RoleId(0)
            },
        };
        match find_role(live, rid) {
            Some(rr) => {
                if my_pos >= (k as u64) + 1 && rr.position < my_pos && rr.position != my_pos - 1
                    - (k as u64) {
                    out.push((rid, my_pos - 1 - (k as u64)));
                    proof {
                        assert(out@ =~= pre.push((rid, (my_pos - 1 - k as u64) as u64)));
                        assert(out@ + spec_role_moves(order@, server@, live@, my_pos, k + 1)
                            =~= pre + (seq![(rid, (my_pos - 1 - k as u64) as u64)]
                            + spec_role_moves(order@, server@, live@, my_pos, k + 1)));
                    }
                }
            },
            None => {
                proof {
                    assert(role_mapping_valid(server@, live@, order@[k as int]@));
                    assert(false);
                }
            },
        }
        k = k + 1;
    }
    proof {
        assert(out@ + Seq::<(RoleId, u64)>::empty() =~= out@);
    }
    out
}

/// Channel existence: the configured channels that lack a valid cached
/// mapping of the right kind and must be created, in declaration order.
pub open spec fn spec_channels_to_create(
    config: ServerConfig,
    server: AbsServer,
    live: Seq<RemoteChannel>,
) -> Seq<ServerConfigChannelId> {
    config.channels@.filter(
        |p: (ServerConfigChannelId, ServerConfigChannel)|
            !channel_mapping_valid(server, live, p.0@, p.1.spec_kind()),
    ).map_values(|p: (ServerConfigChannelId, ServerConfigChannel)| p.0)
}

/// Channel existence planner. Returns an empty plan exactly when every
/// configured channel already has a valid mapping of the right kind.
pub fn channels_to_create(config: &ServerConfig, server: &DBServer, live: &Vec<RemoteChannel>) -> (r:
    Vec<ServerConfigChannelId>)
    requires
        config.wf(),
        server.wf(),
        remote_channels_wf(live@),
    ensures
        r@ == spec_channels_to_create(*config, server@, live@),
        r@.len() == 0 <==> all_channel_mappings_valid(*config, server@, live@),
{
    let ghost pred = |p: (ServerConfigChannelId, ServerConfigChannel)|
        !channel_mapping_valid(server@, live@, p.0@, p.1.spec_kind());
    let ghost proj = |p: (ServerConfigChannelId, ServerConfigChannel)| p.0;
    let mut out: Vec<ServerConfigChannelId> = Vec::new();
    let mut i: usize = 0;
    proof {
        reveal(Seq::filter);
        assert(config.channels@.subrange(0, 0).filter(pred).map_values(proj) =~= Seq::<
            ServerConfigChannelId,
        >::empty());
    }
    while i < config.channels.len()
        invariant
            config.wf(),
            server.wf(),
            remote_channels_wf(live@),
            i <= config.channels@.len(),
            out@ == config.channels@.subrange(0, i as int).filter(pred).map_values(proj),
            pred == (|p: (ServerConfigChannelId, ServerConfigChannel)|
                !channel_mapping_valid(server@, live@, p.0@, p.1.spec_kind())),
            proj == (|p: (ServerConfigChannelId, ServerConfigChannel)| p.0),
        decreases config.channels@.len() - i,
    {
        let ghost prefix = config.channels@.subrange(0, i as int);
        let id = &config.channels[i].0;
        let valid = match assoc_get(&server.channels, id) {
            Some(cid) => {
                match find_channel(live, *cid) {
                    Some(chan) => {
                        let want = config.channels[i].1.kind();
                        let have = chan.kind;
                        have == want
                    },
                    None => false,
                }
            },
            None => false,
        };
        if !valid {
            out.push(id.duplicate());
        }
        proof {
            assert(config.channels@.subrange(0, i + 1) =~= prefix.push(
                config.channels@[i as int],
            ));
            lemma_filter_push(prefix, config.channels@[i as int], pred);
            assert(prefix.push(config.channels@[i as int]).filter(pred).map_values(proj)
                =~= if pred(config.channels@[i as int]) {
                prefix.filter(pred).map_values(proj).push(config.channels@[i as int].0)
            } else {
                prefix.filter(pred).map_values(proj)
            });
        }
        i = i + 1;
    }
    proof {
        assert(config.channels@.subrange(0, config.channels@.len() as int) =~= config.channels@);
        if out@.len() == 0 {
            assert forall|i0: int| 0 <= i0 < config.channels@.len() implies channel_mapping_valid(
                server@,
                live@,
                (#[trigger] config.channels@[i0]).0@,
                config.channels@[i0].1.spec_kind(),
            ) by {
                if !channel_mapping_valid(
                    server@,
                    live@,
                    config.channels@[i0].0@,
                    config.channels@[i0].1.spec_kind(),
                ) {
                    assert(pred(config.channels@[i0]));
                    config.channels@.lemma_filter_contains(pred, i0);
                }
            }
        }
        if all_channel_mappings_valid(*config, server@, live@) {
            lemma_filter_all_false(config.channels@, pred);
        }
    }
    out
}

/// Channel convergence: the logical ids of the configured channels whose live
/// counterpart is dirty, in declaration order.
pub open spec fn spec_dirty_channels(
    config: ServerConfig,
    server: AbsServer,
    live: Seq<RemoteChannel>,
    guild: GuildId,
) -> Seq<ServerConfigChannelId> {
    config.channels@.filter(
        |p: (ServerConfigChannelId, ServerConfigChannel)|
            spec_channel_dirty(p.1, live_channel(live, server.channels[p.0@]), guild, server),
    ).map_values(|p: (ServerConfigChannelId, ServerConfigChannel)| p.0)
}

/// Channel convergence planner: one edit, carrying the full desired shape,
/// for every configured channel whose live counterpart differs. Empty when
/// nothing is dirty.
pub fn channel_edits(
    config: &ServerConfig,
    server: &DBServer,
    live: &Vec<RemoteChannel>,
    guild: &GuildId,
) -> (r: Vec<(ChannelId, ChannelEdit)>)
    requires
        config.wf(),
        server.wf(),
        remote_channels_wf(live@),
        all_channel_mappings_valid(*config, server@, live@),
        all_roles_mapped(*config, server@),
    ensures
        r@.map_values(|p: (ChannelId, ChannelEdit)| p.0) == spec_dirty_channels(
            *config,
            server@,
            live@,
            *guild,
        ).map_values(|id: ServerConfigChannelId| server@.channels[id@]),
        forall|j: int|
            0 <= j < r@.len() ==> {
                let id = spec_dirty_channels(*config, server@, live@, *guild)[j];
                &&& (#[trigger] r@[j]).0 == server@.channels[id@]
                &&& config.spec_channels().contains_key(id@)
                &&& edit_matches(r@[j].1, config.spec_channels()[id@], *guild, server@)
            },
        r@.len() == spec_dirty_channels(*config, server@, live@, *guild).len(),
        (forall|i: int|
            0 <= i < config.channels@.len() ==> !spec_channel_dirty(
                (#[trigger] config.channels@[i]).1,
                live_channel(live@, server@.channels[config.channels@[i].0@]),
                *guild,
                server@,
            )) ==> r@.len() == 0,
{
    let ghost pred = |p: (ServerConfigChannelId, ServerConfigChannel)|
        spec_channel_dirty(p.1, live_channel(live@, server@.channels[p.0@]), *guild, server@);
    let ghost proj = |p: (ServerConfigChannelId, ServerConfigChannel)| p.0;
    let ghost dirty_ids = spec_dirty_channels(*config, server@, live@, *guild);
    let mut out: Vec<(ChannelId, ChannelEdit)> = Vec::new();
    let mut i: usize = 0;
    proof {
        reveal(Seq::filter);
        assert(config.channels@.subrange(0, 0).filter(pred).map_values(proj) =~= Seq::<
            ServerConfigChannelId,
        >::empty());
    }
    while i < config.channels.len()
        invariant
            config.wf(),
            server.wf(),
            remote_channels_wf(live@),
            all_channel_mappings_valid(*config, server@, live@),
            all_roles_mapped(*config, server@),
            i <= config.channels@.len(),
            pred == (|p: (ServerConfigChannelId, ServerConfigChannel)|
                spec_channel_dirty(
                    p.1,
                    live_channel(live@, server@.channels[p.0@]),
                    *guild,
                    server@,
                )),
            proj == (|p: (ServerConfigChannelId, ServerConfigChannel)| p.0),
            out@.map_values(|p: (ChannelId, ChannelEdit)| p.0) == config.channels@.subrange(
                0,
                i as int,
            ).filter(pred).map_values(proj).map_values(
                |id: ServerConfigChannelId| server@.channels[id@],
            ),
            out@.len() == config.channels@.subrange(0, i as int).filter(pred).len(),
            forall|j: int|
                0 <= j < out@.len() ==> {
                    let id = config.channels@.subrange(0, i as int).filter(pred).map_values(proj)[j];
                    &&& (#[trigger] out@[j]).0 == server@.channels[id@]
                    &&& config.spec_channels().contains_key(id@)
                    &&& edit_matches(out@[j].1, config.spec_channels()[id@], *guild, server@)
                },
        decreases config.channels@.len() - i,
    {
        let ghost prefix = config.channels@.subrange(0, i as int);
        let ghost pre_out = out@;
        let id = &config.channels[i].0;
        let cfg = &config.channels[i].1;
        proof {
            crate::assoc::lemma_assoc_map_index(config.channels@, i as int);
            assert(channel_mapping_valid(
                server@,
                live@,
                config.channels@[i as int].0@,
                config.channels@[i as int].1.spec_kind(),
            ));
            assert(channel_ok(
                config.spec_channels()[config.channels@[i as int].0@],
                config.spec_channels(),
                config.spec_roles(),
            ));
            lemma_roles_mapped_from_config(*config, server@);
            assert(channel_roles_mapped(config.channels@[i as int].1, server@));
        }
        let cid = match assoc_get(&server.channels, id) {
            Some(cid) => *cid,
            None => {
                proof {
                    assert(false);
                }
                ChannelId(0)
            },
        };
        match find_channel(live, cid) {
            Some(chan) => {
                if cfg.check_dirty(chan, guild, server) {
                    let edit = cfg.build(guild, server);
                    out.push((cid, edit));
                }
            },
            None => {
                proof {
                    assert(false);
                }
            },
        }
        proof {
            assert(config.channels@.subrange(0, i + 1) =~= prefix.push(
                config.channels@[i as int],
            ));
            lemma_filter_push(prefix, config.channels@[i as int], pred);
            if pred(config.channels@[i as int]) {
                assert(config.channels@.subrange(0, i + 1).filter(pred).map_values(proj)
                    =~= prefix.filter(pred).map_values(proj).push(config.channels@[i as int].0));
                assert(out@.map_values(|p: (ChannelId, ChannelEdit)| p.0)
                    =~= pre_out.map_values(|p: (ChannelId, ChannelEdit)| p.0).push(out@.last().0));
                assert(config.channels@.subrange(0, i + 1).filter(pred).map_values(proj).map_values(
                    |id: ServerConfigChannelId| server@.channels[id@],
                ) =~= prefix.filter(pred).map_values(proj).map_values(
                    |id: ServerConfigChannelId| server@.channels[id@],
                ).push(server@.channels[config.channels@[i as int].0@]));
            } else {
                assert(out@.map_values(|p: (ChannelId, ChannelEdit)| p.0) =~= pre_out.map_values(
                    |p: (ChannelId, ChannelEdit)| p.0,
                ));
            }
        }
        i = i + 1;
    }
    proof {
        assert(config.channels@.subrange(0, config.channels@.len() as int) =~= config.channels@);
        if forall|i0: int|
            0 <= i0 < config.channels@.len() ==> !spec_channel_dirty(
                (#[trigger] config.channels@[i0]).1,
                live_channel(live@, server@.channels[config.channels@[i0].0@]),
                *guild,
                server@,
            ) {
            lemma_filter_all_false(config.channels@, pred);
        }
    }
    out
}

/// Whether a live channel is referenced by some configured channel's mapping.
pub open spec fn channel_used(config: ServerConfig, server: AbsServer, id: ChannelId) -> bool {
    exists|i: int|
        0 <= i < config.channels@.len() && server.channels.contains_key(
            (#[trigger] config.channels@[i]).0@,
        ) && server.channels[config.channels@[i].0@] == id
}

/// Channel pruning: every live channel not referenced by the configured
/// mappings is deleted (no authority check for channels).
pub open spec fn spec_channels_to_delete(
    config: ServerConfig,
    server: AbsServer,
    live: Seq<RemoteChannel>,
) -> Seq<ChannelId> {
    live.filter(|c: RemoteChannel| !channel_used(config, server, c.id)).map_values(
        |c: RemoteChannel| c.id,
    )
}

fn channel_id_vec_contains(v: &Vec<ChannelId>, id: ChannelId) -> (r: bool)
    ensures
        r == v@.contains(id),
{
    let mut i: usize = 0;
    while i < v.len()
        invariant
            i <= v@.len(),
            forall|j: int| 0 <= j < i ==> v@[j] != id,
        decreases v@.len() - i,
    {
        if v[i].0 == id.0 {
            return true;
        }
        i = i + 1;
    }
    false
}

/// Every configured channel has a cached mapping.
pub open spec fn all_channels_mapped(config: ServerConfig, server: AbsServer) -> bool {
    forall|i: int|
        0 <= i < config.channels@.len() ==> server.channels.contains_key(
            (#[trigger] config.channels@[i]).0@,
        )
}

/// Channel pruning planner.
pub fn channels_to_delete(config: &ServerConfig, server: &DBServer, live: &Vec<RemoteChannel>) -> (r:
    Vec<ChannelId>)
    requires
        config.wf(),
        server.wf(),
        all_channels_mapped(*config, server@),
    ensures
        r@ == spec_channels_to_delete(*config, server@, live@),
{
    let ghost pred = |c: RemoteChannel| !channel_used(*config, server@, c.id);
    let mut used: Vec<ChannelId> = Vec::new();
    let mut i: usize = 0;
    while i < config.channels.len()
        invariant
            config.wf(),
            server.wf(),
            all_channels_mapped(*config, server@),
            i <= config.channels@.len(),
            used@.len() == i,
            forall|j: int|
                0 <= j < i ==> server@.channels.contains_key((#[trigger] config.channels@[j]).0@)
                    && used@[j] == server@.channels[config.channels@[j].0@],
        decreases config.channels@.len() - i,
    {
        let id = &config.channels[i].0;
        match assoc_get(&server.channels, id) {
            Some(cid) => {
                used.push(*cid);
            },
            None => {
                proof {
                    assert(false);
                }
            },
        }
        i = i + 1;
    }
    proof {
        assert forall|id: ChannelId| used@.contains(id) == channel_used(*config, server@, id) by {
            if used@.contains(id) {
                let j = choose|j: int| 0 <= j < used@.len() && used@[j] == id;
                assert(server@.channels.contains_key(config.channels@[j].0@) && server@.channels[
                    config.channels@[j].0@
                ] == id);
            }
            if channel_used(*config, server@, id) {
                let j = choose|j: int|
                    0 <= j < config.channels@.len() && server@.channels.contains_key(
                        (#[trigger] config.channels@[j]).0@,
                    ) && server@.channels[config.channels@[j].0@] == id;
                assert(used@[j] == id);
            }
        }
    }
    let mut out: Vec<ChannelId> = Vec::new();
    let mut k: usize = 0;
    proof {
        reveal(Seq::filter);
        assert(live@.subrange(0, 0).filter(pred).map_values(|c: RemoteChannel| c.id) =~= Seq::<
            ChannelId,
        >::empty());
    }
    while k < live.len()
        invariant
            k <= live@.len(),
            forall|id: ChannelId| used@.contains(id) == channel_used(*config, server@, id),
            out@ == live@.subrange(0, k as int).filter(pred).map_values(|c: RemoteChannel| c.id),
            pred == (|c: RemoteChannel| !channel_used(*config, server@, c.id)),
        decreases live@.len() - k,
    {
        let ghost prefix = live@.subrange(0, k as int);
        let c = &live[k];
        if !channel_id_vec_contains(&used, c.id) {
            out.push(c.id);
        }
        proof {
            assert(live@.subrange(0, k + 1) =~= prefix.push(live@[k as int]));
            lemma_filter_push(prefix, live@[k as int], pred);
            assert(prefix.push(live@[k as int]).filter(pred).map_values(|c: RemoteChannel| c.id)
                =~= if pred(live@[k as int]) {
                prefix.filter(pred).map_values(|c: RemoteChannel| c.id).push(live@[k as int].id)
            } else {
                prefix.filter(pred).map_values(|c: RemoteChannel| c.id)
            });
        }
        k = k + 1;
    }
    proof {
        assert(live@.subrange(0, live@.len() as int) =~= live@);
    }
    out
}

/// Maps a list of logical channel ids to their cached remote ids.
pub fn children_remote(children: &Vec<ServerConfigChannelId>, server: &DBServer) -> (r: Vec<
    ChannelId,
>)
    requires
        server.wf(),
        forall|k: int|
            0 <= k < children@.len() ==> server@.channels.contains_key((#[trigger] children@[k])@),
    ensures
        r@ == children@.map_values(|id: ServerConfigChannelId| server@.channels[id@]),
{
    let mut out: Vec<ChannelId> = Vec::new();
    let mut i: usize = 0;
    while i < children.len()
        invariant
            server.wf(),
            forall|k: int|
                0 <= k < children@.len() ==> server@.channels.contains_key(
                    (#[trigger] children@[k])@,
                ),
            i <= children@.len(),
            out@ =~= children@.subrange(0, i as int).map_values(
                |id: ServerConfigChannelId| server@.channels[id@],
            ),
        decreases children@.len() - i,
    {
        match assoc_get(&server.channels, &children[i]) {
            Some(cid) => {
                out.push(*cid);
            },
            None => {
                proof {
                    assert(false);
                }
            },
        }
        proof {
            assert(children@.subrange(0, i + 1) =~= children@.subrange(0, i as int).push(
                children@[i as int],
            ));
            assert(out@ =~= children@.subrange(0, i + 1).map_values(
                |id: ServerConfigChannelId| server@.channels[id@],
            ));
        }
        i = i + 1;
    }
    proof {
        assert(children@.subrange(0, children@.len() as int) =~= children@);
    }
    out
}

/// Whether the live positions of the listed channels are already strictly
/// increasing (so no reorder is needed).
pub open spec fn children_ordered(children: Seq<ChannelId>, live: Seq<RemoteChannel>) -> bool {
    forall|i: int, j: int|
        0 <= i < j < children.len() ==> live_channel(live, children[i]).position < live_channel(
            live,
            children[j],
        ).position
}

/// Top-level ordering planner: reorders the listed channels to positions
/// `1..` only when their live order is not already strictly increasing (a
/// pure cost optimization).
pub fn reorder_plan(children: &Vec<ChannelId>, live: &Vec<RemoteChannel>) -> (r: Option<
    Vec<(ChannelId, u64)>,
>)
    requires
        remote_channels_wf(live@),
        forall|k: int| 0 <= k < children@.len() ==> live_has_channel(live@, #[trigger] children@[k]),
    ensures
        r is None <==> children_ordered(children@, live@),
        r matches Some(plan) ==> {
            &&& plan@.len() == children@.len()
            &&& forall|k: int| 0 <= k < plan@.len() ==> #[trigger] plan@[k] == (children@[k], (k + 1) as u64)
        },
{
    let mut ordered = true;
    let mut last_seen: u64 = 0;
    let mut started = false;
    let mut i: usize = 0;
    while i < children.len()
        invariant
            remote_channels_wf(live@),
            forall|k: int|
                0 <= k < children@.len() ==> live_has_channel(live@, #[trigger] children@[k]),
            i <= children@.len(),
            ordered ==> forall|a: int, b: int|
                0 <= a < b < i ==> live_channel(live@, children@[a]).position < live_channel(
                    live@,
                    children@[b],
                ).position,
            started <==> i > 0,
            started && ordered && i > 0 ==> last_seen == live_channel(
                live@,
                children@[i - 1],
            ).position && forall|a: int|
                0 <= a < i ==> live_channel(live@, #[trigger] children@[a]).position <= last_seen,
            !ordered ==> !children_ordered(children@, live@),
        decreases children@.len() - i,
    {
        let pos = match find_channel(live, children[i]) {
            Some(c) => c.position,
            None => {
                proof {
                    assert(false);
                }
                0
            },
        };
        if started && ordered && pos <= last_seen {
            ordered = false;
            proof {
                assert(live_channel(live@, children@[i - 1]).position >= live_channel(
                    live@,
                    children@[i as int],
                ).position);
                assert(!children_ordered(children@, live@));
            }
        }
        if ordered {
            last_seen = pos;
        }
        started = true;
        i = i + 1;
    }
    if ordered {
        return None;
    }
    let mut plan: Vec<(ChannelId, u64)> = Vec::new();
    let mut k: usize = 0;
    while k < children.len()
        invariant
            k <= children@.len(),
            plan@.len() == k,
            forall|j: int|
                0 <= j < k ==> #[trigger] plan@[j] == (children@[j], (j + 1) as u64),
        decreases children@.len() - k,
    {
        plan.push((children[k], (k as u64) + 1));
        k = k + 1;
    }
    Some(plan)
}

/// Category nesting planner: the live children of a category whose parent
/// pointer does not match it and must be re-parented.
pub fn reparent_plan(
    category_remote: ChannelId,
    children: &Vec<ServerConfigChannelId>,
    server: &DBServer,
    live: &Vec<RemoteChannel>,
) -> (r: Vec<ChannelId>)
    requires
        server.wf(),
        remote_channels_wf(live@),
        forall|k: int|
            0 <= k < children@.len() ==> server@.channels.contains_key((#[trigger] children@[k])@)
                && live_has_channel(live@, server@.channels[children@[k]@]),
    ensures
        r@ == children@.map_values(|id: ServerConfigChannelId| server@.channels[id@]).filter(
            |cid: ChannelId| live_channel(live@, cid).parent != Some(category_remote),
        ),
{
    let ghost pred = |cid: ChannelId| live_channel(live@, cid).parent != Some(category_remote);
    let ghost proj = |id: ServerConfigChannelId| server@.channels[id@];
    let mut out: Vec<ChannelId> = Vec::new();
    let mut i: usize = 0;
    proof {
        reveal(Seq::filter);
        assert(children@.subrange(0, 0).map_values(proj).filter(pred) =~= Seq::<
            ChannelId,
        >::empty());
    }
    while i < children.len()
        invariant
            server.wf(),
            remote_channels_wf(live@),
            forall|k: int|
                0 <= k < children@.len() ==> server@.channels.contains_key(
                    (#[trigger] children@[k])@,
                ) && live_has_channel(live@, server@.channels[children@[k]@]),
            i <= children@.len(),
            out@ == children@.subrange(0, i as int).map_values(proj).filter(pred),
            pred == (|cid: ChannelId| live_channel(live@, cid).parent != Some(category_remote)),
            proj == (|id: ServerConfigChannelId| server@.channels[id@]),
        decreases children@.len() - i,
    {
        let ghost prefix = children@.subrange(0, i as int).map_values(proj);
        let cid = match assoc_get(&server.channels, &children[i]) {
            Some(cid) => *cid,
            None => {
                proof {
                    assert(false);
                }
                ChannelId(0)
            },
        };
        match find_channel(live, cid) {
            Some(chan) => {
                let misparented = match &chan.parent {
                    Some(p) => p.0 != category_remote.0,
                    None => true,
                };
                if misparented {
                    out.push(cid);
                }
            },
            None => {
                proof {
                    assert(false);
                }
            },
        }
        proof {
            assert(children@.subrange(0, i + 1) =~= children@.subrange(0, i as int).push(
                children@[i as int],
            ));
            assert(children@.subrange(0, i + 1).map_values(proj) =~= prefix.push(
                proj(children@[i as int]),
            ));
            lemma_filter_push(prefix, proj(children@[i as int]), pred);
        }
        i = i + 1;
    }
    proof {
        assert(children@.subrange(0, children@.len() as int) =~= children@);
    }
    out
}

/// A category is settled when each declared child's live parent pointer is
/// the category and the children's live order is strictly increasing.
pub open spec fn category_settled(
    c: ServerConfigChannel,
    server: AbsServer,
    channels: Seq<RemoteChannel>,
    cat_remote: ChannelId,
) -> bool {
    match c {
        ServerConfigChannel::Category { children, .. } => {
            &&& forall|k: int|
                0 <= k < children@.len() ==> live_channel(
                    channels,
                    server.channels[(#[trigger] children@[k])@],
                ).parent == Some(cat_remote)
            &&& children_ordered(
                children@.map_values(|id: ServerConfigChannelId| server.channels[id@]),
                channels,
            )
        },
        _ => true,
    }
}

/// The remote state fully matches the configuration: every mapping is valid,
/// nothing is dirty, nothing unused survives (above the ceiling, for roles),
/// every ordered role sits at its target position or is out of reach, the
/// top-level order is strictly increasing, and every category is settled.
pub open spec fn converged(
    config: ServerConfig,
    server: AbsServer,
    roles: Seq<RemoteRole>,
    channels: Seq<RemoteChannel>,
    guild: GuildId,
    my_pos: u64,
) -> bool {
    &&& all_role_mappings_valid(config, server, roles)
    &&& forall|i: int|
        0 <= i < roles.len() ==> (role_used(config, server, (#[trigger] roles[i]).id) || roles[i].position
            <= my_pos)
    &&& forall|i: int|
        0 <= i < config.roles@.len() ==> !role_dirty(
            (#[trigger] config.roles@[i]).1,
            live_role(roles, server.roles[config.roles@[i].0@]),
        )
    &&& forall|k: int|
        0 <= k < config.role_order@.len() ==> ({
            let cur = live_role(roles, server.roles[(#[trigger] config.role_order@[k])@]).position;
            cur >= my_pos || my_pos < k + 1 || cur == my_pos - 1 - k
        })
    &&& all_channel_mappings_valid(config, server, channels)
    &&& forall|i: int|
        0 <= i < config.channels@.len() ==> !spec_channel_dirty(
            (#[trigger] config.channels@[i]).1,
            live_channel(channels, server.channels[config.channels@[i].0@]),
            guild,
            server,
        )
    &&& forall|i: int|
        0 <= i < channels.len() ==> channel_used(config, server, (#[trigger] channels[i]).id)
    &&& children_ordered(
        config.children@.map_values(|id: ServerConfigChannelId| server.channels[id@]),
        channels,
    )
    &&& forall|i: int|
        0 <= i < config.channels@.len() ==> category_settled(
            (#[trigger] config.channels@[i]).1,
            server,
            channels,
            server.channels[config.channels@[i].0@],
        )
}

/// A settled ordering walk emits no moves.
proof fn lemma_settled_no_moves(
    order: Seq<ServerConfigRoleId>,
    server: AbsServer,
    live: Seq<RemoteRole>,
    my_pos: u64,
    k: int,
)
    requires
        forall|k0: int|
            0 <= k0 < order.len() ==> ({
                let cur = live_role(live, server.roles[(#[trigger] order[k0])@]).position;
                cur >= my_pos || my_pos < k0 + 1 || cur == my_pos - 1 - k0
            }),
    ensures
        spec_role_moves(order, server, live, my_pos, k) == Seq::<(RoleId, u64)>::empty(),
    decreases order.len() - k,
{
    if 0 <= k < order.len() {
        lemma_settled_no_moves(order, server, live, my_pos, k + 1);
    }
}

/// Idempotent reconciliation: on a converged remote state, every phase of the
/// reconciler plans zero operations — a second run with no external remote
/// changes in between performs no edits, creates, deletes, moves or
/// re-parentings.
pub proof fn lemma_converged_idempotent(
    config: ServerConfig,
    server: AbsServer,
    roles: Seq<RemoteRole>,
    channels: Seq<RemoteChannel>,
    guild: GuildId,
    my_pos: u64,
)
    requires
        converged(config, server, roles, channels, guild, my_pos),
    ensures
        spec_roles_to_create(config, server, roles) == Seq::<ServerConfigRoleId>::empty(),
        spec_roles_to_delete(config, server, roles, my_pos) == Seq::<RoleId>::empty(),
        spec_role_edits(config, server, roles) == Seq::<(RoleId, RoleEdit)>::empty(),
        spec_role_moves(config.role_order@, server, roles, my_pos, 0) == Seq::<
            (RoleId, u64),
        >::empty(),
        spec_channels_to_create(config, server, channels) == Seq::<ServerConfigChannelId>::empty(),
        spec_dirty_channels(config, server, channels, guild) == Seq::<
            ServerConfigChannelId,
        >::empty(),
        spec_channels_to_delete(config, server, channels) == Seq::<ChannelId>::empty(),
        children_ordered(
            config.children@.map_values(|id: ServerConfigChannelId| server.channels[id@]),
            channels,
        ),
        forall|i: int|
            0 <= i < config.channels@.len() ==> (match (#[trigger] config.channels@[i]).1 {
                ServerConfigChannel::Category { children, .. } => children@.map_values(
                    |id: ServerConfigChannelId| server.channels[id@],
                ).filter(
                    |cid: ChannelId|
                        live_channel(channels, cid).parent != Some(
                            server.channels[config.channels@[i].0@],
                        ),
                ) == Seq::<ChannelId>::empty(),
                _ => true,
            }),
{
    let role_ids = config.roles@.map_values(|p: (ServerConfigRoleId, ServerConfigRole)| p.0);
    lemma_filter_all_false(
        role_ids,
        |id: ServerConfigRoleId| !role_mapping_valid(server, roles, id@),
    );
    lemma_filter_all_false(
        roles,
        |rr: RemoteRole| !role_used(config, server, rr.id) && rr.position > my_pos,
    );
    assert(spec_roles_to_delete(config, server, roles, my_pos) =~= Seq::<RoleId>::empty());
    lemma_filter_all_false(
        config.roles@,
        |p: (ServerConfigRoleId, ServerConfigRole)|
            role_dirty(p.1, live_role(roles, server.roles[p.0@])),
    );
    assert(spec_role_edits(config, server, roles) =~= Seq::<(RoleId, RoleEdit)>::empty());
    lemma_settled_no_moves(config.role_order@, server, roles, my_pos, 0);
    lemma_filter_all_false(
        config.channels@,
        |p: (ServerConfigChannelId, ServerConfigChannel)|
            !channel_mapping_valid(server, channels, p.0@, p.1.spec_kind()),
    );
    assert(spec_channels_to_create(config, server, channels) =~= Seq::<
        ServerConfigChannelId,
    >::empty());
    lemma_filter_all_false(
        config.channels@,
        |p: (ServerConfigChannelId, ServerConfigChannel)|
            spec_channel_dirty(p.1, live_channel(channels, server.channels[p.0@]), guild, server),
    );
    assert(spec_dirty_channels(config, server, channels, guild) =~= Seq::<
        ServerConfigChannelId,
    >::empty());
    lemma_filter_all_false(channels, |c: RemoteChannel| !channel_used(config, server, c.id));
    assert(spec_channels_to_delete(config, server, channels) =~= Seq::<ChannelId>::empty());
    assert forall|i: int|
        0 <= i < config.channels@.len() implies (match (#[trigger] config.channels@[i]).1 {
        ServerConfigChannel::Category { children, .. } => children@.map_values(
            |id: ServerConfigChannelId| server.channels[id@],
        ).filter(
            |cid: ChannelId|
                live_channel(channels, cid).parent != Some(
                    server.channels[config.channels@[i].0@],
                ),
        ) == Seq::<ChannelId>::empty(),
        _ => true,
    }) by {
        assert(category_settled(
            config.channels@[i].1,
            server,
            channels,
            server.channels[config.channels@[i].0@],
        ));
        match config.channels@[i].1 {
            ServerConfigChannel::Category { children, .. } => {
                let mapped = children@.map_values(
                    |id: ServerConfigChannelId| server.channels[id@],
                );
                lemma_filter_all_false(
                    mapped,
                    |cid: ChannelId|
                        live_channel(channels, cid).parent != Some(
                            server.channels[config.channels@[i].0@],
                        ),
                );
            },
            _ => {},
        }
    }
}

/// The place roles a member must shed when travelling: every cached mapping
/// whose logical id begins with "place", other than the destination role,
/// that the member currently holds.
pub fn place_roles_to_remove(
    server: &DBServer,
    member_roles: &Vec<RoleId>,
    keep: RoleId,
) -> (r: Vec<RoleId>)
    ensures
        r@ == server.roles@.filter(
            |p: (ServerConfigRoleId, RoleId)|
                crate::util::is_prefix("place"@, p.0@) && p.1 != keep && member_roles@.contains(
                    p.1,
                ),
        ).map_values(|p: (ServerConfigRoleId, RoleId)| p.1),
{
    let ghost pred = |p: (ServerConfigRoleId, RoleId)|
        crate::util::is_prefix("place"@, p.0@) && p.1 != keep && member_roles@.contains(p.1);
    let ghost proj = |p: (ServerConfigRoleId, RoleId)| p.1;
    let mut out: Vec<RoleId> = Vec::new();
    let mut i: usize = 0;
    proof {
        reveal(Seq::filter);
        assert(server.roles@.subrange(0, 0).filter(pred).map_values(proj) =~= Seq::<
            RoleId,
        >::empty());
    }
    while i < server.roles.len()
        invariant
            i <= server.roles@.len(),
            out@ == server.roles@.subrange(0, i as int).filter(pred).map_values(proj),
            pred == (|p: (ServerConfigRoleId, RoleId)|
                crate::util::is_prefix("place"@, p.0@) && p.1 != keep && member_roles@.contains(
                    p.1,
                )),
            proj == (|p: (ServerConfigRoleId, RoleId)| p.1),
        decreases server.roles@.len() - i,
    {
        let ghost prefix = server.roles@.subrange(0, i as int);
        let p = &server.roles[i];
        if crate::util::str_starts_with(p.0.0.as_str(), "place") && p.1.0 != keep.0
            && role_id_vec_contains(member_roles, p.1) {
            out.push(p.1);
        }
        proof {
            assert(server.roles@.subrange(0, i + 1) =~= prefix.push(server.roles@[i as int]));
            lemma_filter_push(prefix, server.roles@[i as int], pred);
            assert(prefix.push(server.roles@[i as int]).filter(pred).map_values(proj)
                =~= if pred(server.roles@[i as int]) {
                prefix.filter(pred).map_values(proj).push(server.roles@[i as int].1)
            } else {
                prefix.filter(pred).map_values(proj)
            });
        }
        i = i + 1;
    }
    proof {
        assert(server.roles@.subrange(0, server.roles@.len() as int) =~= server.roles@);
    }
    out
}

impl crate::config::ServerConfigPermissionOverwrite {
    /// Resolves this single override against the cached role mappings.
    pub fn as_overwrite(&self, server: &DBServer) -> (r: Overwrite)
        requires
            server.wf(),
            server@.roles.contains_key(self.role@),
        ensures
            r == (Overwrite {
                kind: OverwriteKind::Role,
                target: server@.roles[self.role@].0,
                allow: self.allow,
                deny: self.deny,
            }),
    {
        let rid = match assoc_get(&server.roles, &self.role) {
            Some(rid) => *rid,
            None => {
                proof {
                    assert(false);
                }
                RoleId(0)
            },
        };
        Overwrite { kind: OverwriteKind::Role, target: rid.0, allow: self.allow, deny: self.deny }
    }
}

} // verus!
