//! The declarative server specification: logical identifiers, the permission
//! and channel model, and the builder that produces the desired tree of roles,
//! channels and categories for a guild.
//!
//! A logical id is a stable, spec-defined name; the server record maps it to
//! the transport's opaque remote identifier.
use crate::assoc::{assoc_insert, assoc_map, unique_keys, AssocKey};
use crate::items::Colour;
use vstd::prelude::*;
use vstd::string::StringExecFns;

verus! {

broadcast use vstd::string::group_string_axioms;

/// The full permission mask the transport defines (the union of every flag).
pub const PERMISSIONS_ALL: u64 = 0x0007_7FFF_FFFF_FFFF;

/// The transport's view-channel permission bit.
pub const PERMISSION_VIEW_CHANNEL: u64 = 0x400;

/// A permission bitset, as the chat transport encodes it.
#[derive(Clone, Copy, PartialEq, Eq, Structural, Debug)]
pub struct Permissions(pub u64);

impl Permissions {
    /// Every permission the transport defines.
    pub fn all() -> (r: Permissions)
        ensures
            r.0 == PERMISSIONS_ALL,
    {
        Permissions(PERMISSIONS_ALL)
    }

    /// No permissions.
    pub fn empty() -> (r: Permissions)
        ensures
            r.0 == 0,
    {
        Permissions(0)
    }

    /// The bits of `self` with the bits of `other` cleared.
    pub fn difference(self, other: Permissions) -> (r: Permissions)
        ensures
            r.0 == self.0 & !other.0,
    {
        Permissions(self.0 & !other.0)
    }
}

impl Default for Permissions {
    /// The default permission set is empty.
    fn default() -> (r: Permissions)
        ensures
            r.0 == 0,
    {
        Permissions(0)
    }
}

/// The kind of a configured or live channel.
#[derive(Clone, Copy, PartialEq, Eq, Structural, Debug)]
pub enum ChannelKind {
    Text,
    News,
    Voice,
    Category,
    Other,
}

/// The logical name of a configured channel.
#[derive(Clone, Debug, PartialEq, Eq, Hash)]
pub struct ServerConfigChannelId(pub String);

/// The logical name of a configured role.
#[derive(Clone, Debug, PartialEq, Eq, Hash)]
pub struct ServerConfigRoleId(pub String);

impl ServerConfigChannelId {
    /// A verified copy (field for field) of this id.
    pub fn duplicate(&self) -> (r: Self)
        ensures
            r == *self,
    {
        ServerConfigChannelId(self.0.clone())
    }
}

impl ServerConfigRoleId {
    /// A verified copy (field for field) of this id.
    pub fn duplicate(&self) -> (r: Self)
        ensures
            r == *self,
    {
        ServerConfigRoleId(self.0.clone())
    }
}

impl View for ServerConfigChannelId {
    type V = Seq<char>;

    open spec fn view(&self) -> Seq<char> {
        self.0@
    }
}

impl View for ServerConfigRoleId {
    type V = Seq<char>;

    open spec fn view(&self) -> Seq<char> {
        self.0@
    }
}

impl AssocKey for ServerConfigChannelId {
    type Abs = Seq<char>;

    open spec fn abs(&self) -> Seq<char> {
        self.0@
    }

    fn key_eq(&self, other: &Self) -> (r: bool)
        ensures
            r == (self.abs() == other.abs()),
    {
        self.0 == other.0
    }
}

impl AssocKey for ServerConfigRoleId {
    type Abs = Seq<char>;

    open spec fn abs(&self) -> Seq<char> {
        self.0@
    }

    fn key_eq(&self, other: &Self) -> (r: bool)
        ensures
            r == (self.abs() == other.abs()),
    {
        self.0 == other.0
    }
}

/// Builds a logical channel id from its name.
pub fn channel(id: &str) -> (r: ServerConfigChannelId)
    ensures
        r.0@ == id@,
{
    ServerConfigChannelId(id.to_owned())
}

/// Builds a logical role id from its name.
pub fn role(id: &str) -> (r: ServerConfigRoleId)
    ensures
        r.0@ == id@,
{
    ServerConfigRoleId(id.to_owned())
}

/// A desired role: display name, colour and permission bitset.
pub struct ServerConfigRole {
    pub name: String,
    pub color: Colour,
    pub permissions: Permissions,
}

/// A per-role permission override on a channel.
#[derive(Clone)]
pub struct ServerConfigPermissionOverwrite {
    pub allow: Permissions,
    pub deny: Permissions,
    pub role: ServerConfigRoleId,
}

/// A channel's permissions: a guild-wide base plus named per-role overrides.
#[derive(Clone)]
pub struct ServerConfigPermissions {
    pub overrides: Vec<ServerConfigPermissionOverwrite>,
    pub base: Permissions,
}

/// A text-like channel: name, topic and permissions.
pub struct ServerConfigTextLike {
    pub name: String,
    pub description: String,
    pub permissions: ServerConfigPermissions,
}

/// A desired channel, by kind.
pub enum ServerConfigChannel {
    Text(ServerConfigTextLike),
    Rules(ServerConfigTextLike),
    News(ServerConfigTextLike),
    Voice { name: String, permissions: ServerConfigPermissions },
    Category { name: String, children: Vec<ServerConfigChannelId> },
}

impl ServerConfigChannel {
    pub open spec fn spec_kind(&self) -> ChannelKind {
        match self {
            ServerConfigChannel::Text(..) => ChannelKind::Text,
            ServerConfigChannel::Rules(..) => ChannelKind::Text,
            ServerConfigChannel::News(..) => ChannelKind::News,
            ServerConfigChannel::Voice { .. } => ChannelKind::Voice,
            ServerConfigChannel::Category { .. } => ChannelKind::Category,
        }
    }

    /// The transport channel kind this configured channel is created as.
    pub fn kind(&self) -> (r: ChannelKind)
        ensures
            r == self.spec_kind(),
    {
        match self {
            ServerConfigChannel::Text(..) => ChannelKind::Text,
            ServerConfigChannel::Rules(..) => ChannelKind::Text,
            ServerConfigChannel::News(..) => ChannelKind::News,
            ServerConfigChannel::Voice { .. } => ChannelKind::Voice,
            ServerConfigChannel::Category { .. } => ChannelKind::Category,
        }
    }
}

/// Every role an override names exists in the role map.
pub open spec fn perms_ok(
    p: ServerConfigPermissions,
    roles: Map<Seq<char>, ServerConfigRole>,
) -> bool {
    forall|i: int|
        0 <= i < p.overrides@.len() ==> roles.contains_key((#[trigger] p.overrides@[i]).role@)
}

/// A configured channel only references roles and child channels that exist.
pub open spec fn channel_ok(
    c: ServerConfigChannel,
    channels: Map<Seq<char>, ServerConfigChannel>,
    roles: Map<Seq<char>, ServerConfigRole>,
) -> bool {
    match c {
        ServerConfigChannel::Text(tl) => perms_ok(tl.permissions, roles),
        ServerConfigChannel::Rules(tl) => perms_ok(tl.permissions, roles),
        ServerConfigChannel::News(tl) => perms_ok(tl.permissions, roles),
        ServerConfigChannel::Voice { permissions, .. } => perms_ok(permissions, roles),
        ServerConfigChannel::Category { children, .. } => forall|i: int|
            0 <= i < children@.len() ==> channels.contains_key((#[trigger] children@[i])@),
    }
}

/// The desired structure of a guild: roles in a declared display order, and
/// channels and categories with a declared top-level order.
pub struct ServerConfig {
    pub children: Vec<ServerConfigChannelId>,
    pub channels: Vec<(ServerConfigChannelId, ServerConfigChannel)>,
    pub roles: Vec<(ServerConfigRoleId, ServerConfigRole)>,
    pub role_order: Vec<ServerConfigRoleId>,
}

impl ServerConfig {
    /// The channel map this configuration stands for.
    pub open spec fn spec_channels(&self) -> Map<Seq<char>, ServerConfigChannel> {
        assoc_map(self.channels@)
    }

    /// The role map this configuration stands for.
    pub open spec fn spec_roles(&self) -> Map<Seq<char>, ServerConfigRole> {
        assoc_map(self.roles@)
    }

    /// Internal consistency: keys are unique, the declared orders only name
    /// entries of the maps, and every reference inside a channel resolves.
    pub open spec fn wf(&self) -> bool {
        &&& unique_keys(self.channels@)
        &&& unique_keys(self.roles@)
        &&& forall|i: int|
            0 <= i < self.role_order@.len() ==> self.spec_roles().contains_key(
                (#[trigger] self.role_order@[i])@,
            )
        &&& forall|i: int|
            0 <= i < self.children@.len() ==> self.spec_channels().contains_key(
                (#[trigger] self.children@[i])@,
            )
        &&& forall|id: Seq<char>|
            self.spec_channels().contains_key(id) ==> channel_ok(
                #[trigger] self.spec_channels()[id],
                self.spec_channels(),
                self.spec_roles(),
            )
    }

    /// An empty configuration.
    pub fn new() -> (r: ServerConfig)
        ensures
            r.wf(),
            r.children@ == Seq::<ServerConfigChannelId>::empty(),
            r.role_order@ == Seq::<ServerConfigRoleId>::empty(),
            r.spec_channels() == Map::<Seq<char>, ServerConfigChannel>::empty(),
            r.spec_roles() == Map::<Seq<char>, ServerConfigRole>::empty(),
            r.roles@.len() == 0,
            r.channels@.len() == 0,
    {
        ServerConfig {
            children: Vec::new(),
            channels: Vec::new(),
            roles: Vec::new(),
            role_order: Vec::new(),
        }
    }

    /// Looks a configured channel up by its logical id.
    pub fn channel_get(&self, id: &ServerConfigChannelId) -> (r: Option<&ServerConfigChannel>)
        requires
            self.wf(),
        ensures
            match r {
                Some(c) => self.spec_channels().contains_key(id@) && *c
                    == self.spec_channels().index(id@),
                None => !self.spec_channels().contains_key(id@),
            },
    {
        crate::assoc::assoc_get(&self.channels, id)
    }

    /// Looks a configured role up by its logical id.
    pub fn role_get(&self, id: &ServerConfigRoleId) -> (r: Option<&ServerConfigRole>)
        requires
            self.wf(),
        ensures
            match r {
                Some(c) => self.spec_roles().contains_key(id@) && *c == self.spec_roles()[id@],
                None => !self.spec_roles().contains_key(id@),
            },
    {
        crate::assoc::assoc_get(&self.roles, id)
    }

    /// Declares a role and appends it to the display order, as the builder's
    /// single way to add roles.
    pub fn add_role(&mut self, id: ServerConfigRoleId, r: ServerConfigRole)
        requires
            old(self).wf(),
        ensures
            final(self).wf(),
            final(self).spec_roles() == old(self).spec_roles().insert(id@, r),
            final(self).spec_channels() == old(self).spec_channels(),
            final(self).children@ == old(self).children@,
            final(self).role_order@ == old(self).role_order@.push(id),
            final(self).channels@ == old(self).channels@,
            !old(self).spec_roles().contains_key(id@) ==> final(self).roles@.len() == old(
                self,
            ).roles@.len() + 1,
    {
        let ghost pre = *self;
        let id2 = id.duplicate();
        assoc_insert(&mut self.roles, id, r);
        self.role_order.push(id2);
        proof {
            assert(self.role_order@.drop_last() =~= pre.role_order@);
            assert forall|cid: Seq<char>| self.spec_channels().contains_key(cid) implies channel_ok(
                self.spec_channels()[cid],
                self.spec_channels(),
                self.spec_roles(),
            ) by {
                assert(channel_ok(pre.spec_channels()[cid], pre.spec_channels(), pre.spec_roles()));
            }
        }
    }

    /// Declares a channel. Any channels or roles it references must already
    /// be declared.
    pub fn add_channel(&mut self, id: ServerConfigChannelId, c: ServerConfigChannel)
        requires
            old(self).wf(),
            channel_ok(c, old(self).spec_channels(), old(self).spec_roles()),
        ensures
            final(self).wf(),
            final(self).spec_channels() == old(self).spec_channels().insert(id@, c),
            final(self).spec_roles() == old(self).spec_roles(),
            final(self).children@ == old(self).children@,
            final(self).role_order@ == old(self).role_order@,
            final(self).roles@ == old(self).roles@,
            !old(self).spec_channels().contains_key(id@) ==> final(self).channels@.len() == old(
                self,
            ).channels@.len() + 1,
    {
        let ghost pre = *self;
        let ghost cc = c;
        assoc_insert(&mut self.channels, id, c);
        proof {
            assert forall|cid: Seq<char>| self.spec_channels().contains_key(cid) implies channel_ok(
                self.spec_channels()[cid],
                self.spec_channels(),
                self.spec_roles(),
            ) by {
                if cid == id@ {
                    assert(channel_ok(cc, pre.spec_channels(), pre.spec_roles()));
                } else {
                    assert(channel_ok(
                        pre.spec_channels()[cid],
                        pre.spec_channels(),
                        pre.spec_roles(),
                    ));
                }
            }
        }
    }

    /// Appends an already-declared channel to the top-level display order.
    pub fn add_child(&mut self, id: ServerConfigChannelId)
        requires
            old(self).wf(),
            old(self).spec_channels().contains_key(id@),
        ensures
            final(self).wf(),
            final(self).spec_channels() == old(self).spec_channels(),
            final(self).spec_roles() == old(self).spec_roles(),
            final(self).children@ == old(self).children@.push(id),
            final(self).role_order@ == old(self).role_order@,
            final(self).roles@ == old(self).roles@,
            final(self).channels@ == old(self).channels@,
    {
        let ghost pre = *self;
        self.children.push(id);
        proof {
            assert(self.children@.drop_last() =~= pre.children@);
        }
    }
}

/// Concatenates two pieces into one owned string.
fn join2(a: &str, b: &str) -> (r: String)
    ensures
        r@ == a@ + b@,
{
    a.to_owned().concat(b)
}

/// Concatenates three pieces into one owned string.
fn join3(a: &str, b: &str, c: &str) -> (r: String)
    ensures
        r@ == a@ + b@ + c@,
{
    a.to_owned().concat(b).concat(c)
}

/// A global chat channel's payload: a text channel with the given name, the
/// standard topic, an empty base permission set and no overrides.
pub open spec fn global_chat_ok(c: ServerConfigChannel, name: Seq<char>) -> bool {
    match c {
        ServerConfigChannel::Text(tl) => {
            &&& tl.name@ == name
            &&& tl.description@ == "A global chat"@
            &&& tl.permissions.base.0 == 0
            &&& tl.permissions.overrides@.len() == 0
        },
        _ => false,
    }
}

/// The permission set of a place-bound channel: an empty base (nothing,
/// including visibility, granted by default) with a single override allowing
/// the place's role to view it.
pub open spec fn place_perms_ok(p: ServerConfigPermissions, place_id: Seq<char>) -> bool {
    &&& p.base.0 == 0
    &&& p.overrides@.len() == 1
    &&& p.overrides@[0].role@ == "place/"@ + place_id
    &&& p.overrides@[0].allow.0 == PERMISSION_VIEW_CHANNEL
    &&& p.overrides@[0].deny.0 == 0
}

/// A place's text channel payload.
pub open spec fn place_text_ok(c: ServerConfigChannel, place_id: Seq<char>) -> bool {
    match c {
        ServerConfigChannel::Text(tl) => {
            &&& tl.name@ == place_id + "-text"@
            &&& tl.description@ == "A place in Alternate Reality"@
            &&& place_perms_ok(tl.permissions, place_id)
        },
        _ => false,
    }
}

/// A place's voice channel payload.
pub open spec fn place_voice_ok(c: ServerConfigChannel, place_id: Seq<char>) -> bool {
    match c {
        ServerConfigChannel::Voice { name, permissions } => {
            &&& name@ == place_id + "-vc"@
            &&& place_perms_ok(permissions, place_id)
        },
        _ => false,
    }
}

/// A category's payload: its display name and the logical names of its
/// children, in declared order.
pub open spec fn category_ok(
    c: ServerConfigChannel,
    name: Seq<char>,
    children: Seq<Seq<char>>,
) -> bool {
    match c {
        ServerConfigChannel::Category { name: n, children: ch } => {
            &&& n@ == name
            &&& ch@.map_values(|id: ServerConfigChannelId| id@) == children
        },
        _ => false,
    }
}

/// A place's role payload: the marked display name, black colour, and no
/// permissions of its own.
pub open spec fn place_role_ok(role: ServerConfigRole, place_name: Seq<char>) -> bool {
    &&& role.name@ == "\u{1F4CD} "@ + place_name
    &&& role.color == Colour(0x000000)
    &&& role.permissions.0 == 0
}

/// The permission set of a place-bound channel: invisible by default, visible
/// to holders of the place's role.
fn place_visibility(place_role: &ServerConfigRoleId) -> (r: ServerConfigPermissions)
    ensures
        r.base.0 == 0,
        r.overrides@.len() == 1,
        r.overrides@[0].role@ == place_role@,
        r.overrides@[0].allow.0 == PERMISSION_VIEW_CHANNEL,
        r.overrides@[0].deny.0 == 0,
{
    let mut overrides: Vec<ServerConfigPermissionOverwrite> = Vec::new();
    overrides.push(
        ServerConfigPermissionOverwrite {
            role: place_role.duplicate(),
            allow: Permissions(PERMISSION_VIEW_CHANNEL),
            deny: Permissions::empty(),
        },
    );
    proof {
        assert(0u64 & !0x400u64 == 0u64) by (bit_vector);
    }
    ServerConfigPermissions {
        overrides,
        base: Permissions::default().difference(Permissions(PERMISSION_VIEW_CHANNEL)),
    }
}

/// The open-to-everyone permission set of the global chat channels.
fn open_permissions() -> (r: ServerConfigPermissions)
    ensures
        r.base.0 == 0,
        r.overrides@.len() == 0,
{
    ServerConfigPermissions { overrides: Vec::new(), base: Permissions::default() }
}

/// Declares one place: its role, its text and voice channels behind that
/// role, and the category that groups them (appended to the top-level order).
fn add_place(config: &mut ServerConfig, place_id: &str, place_name: &str)
    requires
        old(config).wf(),
        !old(config).spec_roles().contains_key("place/"@ + place_id@),
        !old(config).spec_channels().contains_key("places/"@ + place_id@),
        !old(config).spec_channels().contains_key("places/"@ + place_id@ + "/text"@),
        !old(config).spec_channels().contains_key("places/"@ + place_id@ + "/vc"@),
    ensures
        final(config).roles@.len() == old(config).roles@.len() + 1,
        final(config).channels@.len() == old(config).channels@.len() + 3,
        final(config).wf(),
        final(config).role_order@.len() == old(config).role_order@.len() + 1,
        final(config).role_order@ == old(config).role_order@.push(
            final(config).role_order@.last(),
        ),
        final(config).role_order@.last()@ == "place/"@ + place_id@,
        final(config).children@ == old(config).children@.push(final(config).children@.last()),
        final(config).children@.last()@ == "places/"@ + place_id@,
        final(config).spec_roles() == old(config).spec_roles().insert(
            "place/"@ + place_id@,
            final(config).spec_roles().index("place/"@ + place_id@),
        ),
        place_role_ok(final(config).spec_roles().index("place/"@ + place_id@), place_name@),
        final(config).spec_channels() == old(config).spec_channels().insert(
            "places/"@ + place_id@ + "/text"@,
            final(config).spec_channels().index("places/"@ + place_id@ + "/text"@),
        ).insert(
            "places/"@ + place_id@ + "/vc"@,
            final(config).spec_channels().index("places/"@ + place_id@ + "/vc"@),
        ).insert(
            "places/"@ + place_id@,
            final(config).spec_channels().index("places/"@ + place_id@),
        ),
        place_text_ok(
            final(config).spec_channels().index("places/"@ + place_id@ + "/text"@),
            place_id@,
        ),
        place_voice_ok(
            final(config).spec_channels().index("places/"@ + place_id@ + "/vc"@),
            place_id@,
        ),
        category_ok(
            final(config).spec_channels().index("places/"@ + place_id@),
            "~ "@ + place_name@ + " ~"@,
            seq!["places/"@ + place_id@ + "/text"@, "places/"@ + place_id@ + "/vc"@],
        ),
{
    proof {
        reveal_strlit("places/");
        reveal_strlit("/text");
        reveal_strlit("/vc");
        assert(("places/"@ + place_id@ + "/text"@).len() == 12 + place_id@.len());
        assert(("places/"@ + place_id@ + "/vc"@).len() == 10 + place_id@.len());
        assert(("places/"@ + place_id@).len() == 7 + place_id@.len());
    }
    let role_id = ServerConfigRoleId(join2("place/", place_id));
    config.add_role(
        role_id.duplicate(),
        ServerConfigRole {
            name: join2("\u{1F4CD} ", place_name),
            color: Colour(0x000000),
            permissions: Permissions::empty(),
        },
    );
    let text_id = ServerConfigChannelId(join3("places/", place_id, "/text"));
    let vc_id = ServerConfigChannelId(join3("places/", place_id, "/vc"));
    let cat_id = ServerConfigChannelId(join2("places/", place_id));
    config.add_channel(
        text_id.duplicate(),
        ServerConfigChannel::Text(
            ServerConfigTextLike {
                name: join2(place_id, "-text"),
                description: "A place in Alternate Reality".to_owned(),
                permissions: place_visibility(&role_id),
            },
        ),
    );
    config.add_channel(
        vc_id.duplicate(),
        ServerConfigChannel::Voice {
            name: join2(place_id, "-vc"),
            permissions: place_visibility(&role_id),
        },
    );
    let mut kids: Vec<ServerConfigChannelId> = Vec::new();
    let ghost text_key = text_id@;
    let ghost vc_key = vc_id@;
    kids.push(text_id);
    kids.push(vc_id);
    proof {
        assert(kids@.map_values(|id: ServerConfigChannelId| id@) =~= seq![text_key, vc_key]);
    }
    config.add_channel(
        cat_id.duplicate(),
        ServerConfigChannel::Category { name: join3("~ ", place_name, " ~"), children: kids },
    );
    config.add_child(cat_id);
}

impl crate::db::Database {
    /// The declarative server specification: a static template, the same for
    /// every guild — two staff roles, one role per place, a global chat
    /// category and one category per place.
    pub fn get_config(&self, _guild: &crate::ids::GuildId) -> (r: ServerConfig)
        ensures
            r.wf(),
            r.roles@.len() == 4,
            r.channels@.len() == 11,
            r.role_order@.len() == 4,
            r.role_order@[0]@ == "admin"@,
            r.role_order@[1]@ == "operator"@,
            r.role_order@[2]@ == "place/"@ + "forest"@,
            r.role_order@[3]@ == "place/"@ + "deep-forest"@,
            r.children@.len() == 3,
            r.children@[0]@ == "chats"@,
            r.children@[1]@ == "places/"@ + "forest"@,
            r.children@[2]@ == "places/"@ + "deep-forest"@,
            r.spec_roles().contains_key("admin"@),
            r.spec_roles().index("admin"@).name@ == "Admin"@,
            r.spec_roles().index("admin"@).permissions.0 == PERMISSIONS_ALL,
            r.spec_roles().index("admin"@).color == Colour(0xFF0000),
            r.spec_roles().contains_key("operator"@),
            r.spec_roles().index("operator"@).name@ == "Operator"@,
            r.spec_roles().index("operator"@).permissions.0 == PERMISSIONS_ALL,
            r.spec_roles().index("operator"@).color == Colour(0x00FFFF),
            r.spec_roles().contains_key("place/"@ + "forest"@),
            place_role_ok(r.spec_roles().index("place/"@ + "forest"@), "The Forest"@),
            r.spec_roles().contains_key("place/"@ + "deep-forest"@),
            place_role_ok(r.spec_roles().index("place/"@ + "deep-forest"@), "The Deep Forest"@),
            r.spec_channels().contains_key("chats"@),
            category_ok(
                r.spec_channels().index("chats"@),
                "~ EVERYWHERE ~"@,
                seq![
                    "chats/global-1"@,
                    "chats/global-2"@,
                    "chats/global-3"@,
                    "chats/global-4"@,
                ],
            ),
            r.spec_channels().contains_key("chats/global-1"@),
            global_chat_ok(r.spec_channels().index("chats/global-1"@), "global-chat-1"@),
            r.spec_channels().contains_key("chats/global-2"@),
            global_chat_ok(r.spec_channels().index("chats/global-2"@), "global-chat-2"@),
            r.spec_channels().contains_key("chats/global-3"@),
            global_chat_ok(r.spec_channels().index("chats/global-3"@), "global-chat-3"@),
            r.spec_channels().contains_key("chats/global-4"@),
            global_chat_ok(r.spec_channels().index("chats/global-4"@), "global-chat-4"@),
            r.spec_channels().contains_key("places/"@ + "forest"@),
            category_ok(
                r.spec_channels().index("places/"@ + "forest"@),
                "~ "@ + "The Forest"@ + " ~"@,
                seq!["places/"@ + "forest"@ + "/text"@, "places/"@ + "forest"@ + "/vc"@],
            ),
            r.spec_channels().contains_key("places/"@ + "forest"@ + "/text"@),
            place_text_ok(r.spec_channels().index("places/"@ + "forest"@ + "/text"@), "forest"@),
            r.spec_channels().contains_key("places/"@ + "forest"@ + "/vc"@),
            place_voice_ok(r.spec_channels().index("places/"@ + "forest"@ + "/vc"@), "forest"@),
            r.spec_channels().contains_key("places/"@ + "deep-forest"@),
            category_ok(
                r.spec_channels().index("places/"@ + "deep-forest"@),
                "~ "@ + "The Deep Forest"@ + " ~"@,
                seq![
                    "places/"@ + "deep-forest"@ + "/text"@,
                    "places/"@ + "deep-forest"@ + "/vc"@,
                ],
            ),
            r.spec_channels().contains_key("places/"@ + "deep-forest"@ + "/text"@),
            place_text_ok(
                r.spec_channels().index("places/"@ + "deep-forest"@ + "/text"@),
                "deep-forest"@,
            ),
            r.spec_channels().contains_key("places/"@ + "deep-forest"@ + "/vc"@),
            place_voice_ok(
                r.spec_channels().index("places/"@ + "deep-forest"@ + "/vc"@),
                "deep-forest"@,
            ),
    {
        proof {
            reveal_strlit("admin");
            reveal_strlit("operator");
            reveal_strlit("place/");
            reveal_strlit("places/");
            reveal_strlit("chats");
            reveal_strlit("forest");
            reveal_strlit("deep-forest");
            reveal_strlit("/text");
            reveal_strlit("/vc");
            assert("admin"@.len() == 5);
            assert("operator"@.len() == 8);
            assert("place/"@.len() == 6);
            assert("places/"@.len() == 7);
            assert("chats"@.len() == 5);
            assert("forest"@.len() == 6);
            assert("deep-forest"@.len() == 11);
            assert("/text"@.len() == 5);
            assert("/vc"@.len() == 3);
            reveal_strlit("chats/global-1");
            reveal_strlit("chats/global-2");
            reveal_strlit("chats/global-3");
            reveal_strlit("chats/global-4");
            assert("chats/global-1"@.len() == 14);
            assert("chats/global-2"@.len() == 14);
            assert("chats/global-3"@.len() == 14);
            assert("chats/global-4"@.len() == 14);
            assert("chats/global-1"@[13] != "chats/global-2"@[13]);
            assert("chats/global-1"@[13] != "chats/global-3"@[13]);
            assert("chats/global-1"@[13] != "chats/global-4"@[13]);
            assert("chats/global-2"@[13] != "chats/global-3"@[13]);
            assert("chats/global-2"@[13] != "chats/global-4"@[13]);
            assert("chats/global-3"@[13] != "chats/global-4"@[13]);
            assert(("places/"@ + "deep-forest"@)[7] != ("places/"@ + "forest"@ + "/text"@)[7]);
        }
        let mut config = ServerConfig::new();
        config.add_role(
            role("admin"),
            ServerConfigRole {
                name: "Admin".to_owned(),
                permissions: Permissions::all(),
                color: Colour(0xFF0000),
            },
        );
        config.add_role(
            role("operator"),
            ServerConfigRole {
                name: "Operator".to_owned(),
                permissions: Permissions::all(),
                color: Colour(0x00FFFF),
            },
        );
        let g1 = channel("chats/global-1");
        let g2 = channel("chats/global-2");
        let g3 = channel("chats/global-3");
        let g4 = channel("chats/global-4");
        config.add_channel(
            g1.duplicate(),
            ServerConfigChannel::Text(
                ServerConfigTextLike {
                    name: "global-chat-1".to_owned(),
                    description: "A global chat".to_owned(),
                    permissions: open_permissions(),
                },
            ),
        );
        config.add_channel(
            g2.duplicate(),
            ServerConfigChannel::Text(
                ServerConfigTextLike {
                    name: "global-chat-2".to_owned(),
                    description: "A global chat".to_owned(),
                    permissions: open_permissions(),
                },
            ),
        );
        config.add_channel(
            g3.duplicate(),
            ServerConfigChannel::Text(
                ServerConfigTextLike {
                    name: "global-chat-3".to_owned(),
                    description: "A global chat".to_owned(),
                    permissions: open_permissions(),
                },
            ),
        );
        config.add_channel(
            g4.duplicate(),
            ServerConfigChannel::Text(
                ServerConfigTextLike {
                    name: "global-chat-4".to_owned(),
                    description: "A global chat".to_owned(),
                    permissions: open_permissions(),
                },
            ),
        );
        let mut kids: Vec<ServerConfigChannelId> = Vec::new();
        kids.push(g1);
        kids.push(g2);
        kids.push(g3);
        kids.push(g4);
        proof {
            assert(kids@.map_values(|id: ServerConfigChannelId| id@) =~= seq![
                "chats/global-1"@,
                "chats/global-2"@,
                "chats/global-3"@,
                "chats/global-4"@,
            ]);
        }
        let chats = channel("chats");
        config.add_channel(
            chats.duplicate(),
            ServerConfigChannel::Category { name: "~ EVERYWHERE ~".to_owned(), children: kids },
        );
        config.add_child(chats);
        add_place(&mut config, "forest", "The Forest");
        proof {
            assert(("place/"@ + "deep-forest"@).len() == 17);
            assert(("place/"@ + "forest"@).len() == 12);
            assert(("places/"@ + "forest"@).len() == 13);
            assert(("places/"@ + "forest"@ + "/text"@).len() == 18);
            assert(("places/"@ + "forest"@ + "/vc"@).len() == 16);
            assert(("places/"@ + "deep-forest"@).len() == 18);
            assert(("places/"@ + "deep-forest"@ + "/text"@).len() == 23);
            assert(("places/"@ + "deep-forest"@ + "/vc"@).len() == 21);
            assert("places/"@ + "deep-forest"@ !== "places/"@ + "forest"@ + "/text"@);
        }
        add_place(&mut config, "deep-forest", "The Deep Forest");
        proof {
            assert(config.role_order@ =~= seq![
                config.role_order@[0],
                config.role_order@[1],
                config.role_order@[2],
                config.role_order@[3],
            ]);
            assert(config.children@ =~= seq![
                config.children@[0],
                config.children@[1],
                config.children@[2],
            ]);
        }
        config
    }
}

} // verus!
