use botcore::config::{ChannelKind, Permissions, ServerConfig, ServerConfigChannel,
    ServerConfigChannelId, ServerConfigRoleId, PERMISSIONS_ALL};
use botcore::db::Database;
use botcore::ids::{ChannelId, GuildId, RoleId};
use botcore::places::Place;
use botcore::reconcile::{channel_edits, channels_to_create, channels_to_delete, children_remote,
    overrides, overwrites_match_exec, place_roles_to_remove, reorder_plan, reparent_plan,
    role_edits, role_moves, roles_to_create, roles_to_delete, stale_channel_mappings,
    stale_role_mappings, Overwrite, OverwriteKind, RemoteChannel, RemoteRole};
use botcore::state::DBServer;

fn test_config() -> ServerConfig {
    Database::new().get_config(&GuildId(1))
}

/// A server record mapping every configured role and channel to fresh ids.
fn full_mapping(config: &ServerConfig) -> DBServer {
    let mut server = DBServer { channels: Vec::new(), roles: Vec::new() };
    for (k, (id, _)) in config.roles.iter().enumerate() {
        server.roles.push((id.clone(), RoleId(100 + k as u64)));
    }
    for (k, (id, _)) in config.channels.iter().enumerate() {
        server.channels.push((id.clone(), ChannelId(200 + k as u64)));
    }
    server
}

/// Live roles that match the configuration exactly, positioned just below the
/// ceiling in declaration order.
fn matching_roles(config: &ServerConfig, server: &DBServer, my_pos: u64) -> Vec<RemoteRole> {
    let mut live = Vec::new();
    for (k, (_, cfg)) in config.roles.iter().enumerate() {
        live.push(RemoteRole {
            id: server.roles[k].1,
            name: cfg.name.clone(),
            color: cfg.color,
            permissions: cfg.permissions,
            position: my_pos - 1 - k as u64,
        });
    }
    live
}

fn config_channel_name(c: &ServerConfigChannel) -> String {
    match c {
        ServerConfigChannel::Text(tl) => tl.name.clone(),
        ServerConfigChannel::Rules(tl) => tl.name.clone(),
        ServerConfigChannel::News(tl) => tl.name.clone(),
        ServerConfigChannel::Voice { name, .. } => name.clone(),
        ServerConfigChannel::Category { name, .. } => name.clone(),
    }
}

fn remote_of(server: &DBServer, id: &ServerConfigChannelId) -> ChannelId {
    server.channels.iter().find(|p| &p.0 == id).expect("mapped").1
}

/// Live channels that match the configuration exactly: names, topics,
/// resolved overwrites, parents, and strictly increasing positions.
fn matching_channels(
    config: &ServerConfig,
    server: &DBServer,
    guild: &GuildId,
) -> Vec<RemoteChannel> {
    let mut live = Vec::new();
    for (k, (id, cfg)) in config.channels.iter().enumerate() {
        let topic = match cfg {
            ServerConfigChannel::Text(tl)
            | ServerConfigChannel::Rules(tl)
            | ServerConfigChannel::News(tl) => Some(tl.description.clone()),
            _ => None,
        };
        let ows = match cfg {
            ServerConfigChannel::Text(tl)
            | ServerConfigChannel::Rules(tl)
            | ServerConfigChannel::News(tl) => overrides(guild, server, &tl.permissions),
            ServerConfigChannel::Voice { permissions, .. } => overrides(guild, server, permissions),
            ServerConfigChannel::Category { .. } => Vec::new(),
        };
        let parent = config.channels.iter().find_map(|(cat_id, cat)| match cat {
            ServerConfigChannel::Category { children, .. } if children.contains(id) => {
                Some(remote_of(server, cat_id))
            }
            _ => None,
        });
        live.push(RemoteChannel {
            id: server.channels[k].1,
            name: config_channel_name(cfg),
            kind: cfg.kind(),
            topic,
            parent,
            position: k as u64,
            overwrites: ows,
        });
    }
    live
}

#[test]
fn fresh_run_creates_every_role_and_channel() {
    let config = test_config();
    let server = DBServer { channels: Vec::new(), roles: Vec::new() };
    let creates = roles_to_create(&config, &server, &Vec::new());
    assert_eq!(creates.len(), 4);
    assert_eq!(creates[0].0, "admin");
    assert_eq!(creates[1].0, "operator");
    assert_eq!(creates[2].0, "place/forest");
    assert_eq!(creates[3].0, "place/deep-forest");
    let chan_creates = channels_to_create(&config, &server, &Vec::new());
    assert_eq!(chan_creates.len(), 11);
    assert_eq!(chan_creates[0].0, "chats/global-1");
}

#[test]
fn stale_cached_mapping_triggers_recreation() {
    // A cached remote id that is no longer live counts as a missing mapping.
    let config = test_config();
    let server = full_mapping(&config);
    let mut live = matching_roles(&config, &server, 10);
    live.remove(1);
    let creates = roles_to_create(&config, &server, &live);
    assert_eq!(creates.len(), 1);
    assert_eq!(creates[0].0, "operator");
}

#[test]
fn wrong_kind_counts_as_missing_channel() {
    let config = test_config();
    let server = full_mapping(&config);
    let guild = GuildId(1);
    let mut live = matching_channels(&config, &server, &guild);
    live[0].kind = ChannelKind::Voice;
    let creates = channels_to_create(&config, &server, &live);
    assert_eq!(creates.len(), 1);
    assert_eq!(creates[0], config.channels[0].0);
}

#[test]
fn converged_state_plans_no_operations() {
    // Idempotent reconciliation: with the remote matching the configuration,
    // a second run plans zero creates, deletes, edits, moves or reorders.
    let config = test_config();
    let guild = GuildId(1);
    let my_pos = 10;
    let server = full_mapping(&config);
    let live_roles = matching_roles(&config, &server, my_pos);
    let live_channels = matching_channels(&config, &server, &guild);

    assert!(roles_to_create(&config, &server, &live_roles).is_empty());
    assert!(roles_to_delete(&config, &server, &live_roles, my_pos).is_empty());
    assert!(role_edits(&config, &server, &live_roles).is_empty());
    assert!(role_moves(&config.role_order, &server, &live_roles, my_pos).is_empty());
    assert!(channels_to_create(&config, &server, &live_channels).is_empty());
    assert!(channel_edits(&config, &server, &live_channels, &guild).is_empty());
    assert!(channels_to_delete(&config, &server, &live_channels).is_empty());
    let top = children_remote(&config.children, &server);
    assert!(reorder_plan(&top, &live_channels).is_none());
    for (id, cfg) in &config.channels {
        if let ServerConfigChannel::Category { children, .. } = cfg {
            let cat_remote = remote_of(&server, id);
            assert!(reparent_plan(cat_remote, children, &server, &live_channels).is_empty());
            let kids = children_remote(children, &server);
            assert!(reorder_plan(&kids, &live_channels).is_none());
        }
    }
}

#[test]
fn drifted_role_gets_one_edit_with_all_fields() {
    let config = test_config();
    let my_pos = 10;
    let server = full_mapping(&config);
    let mut live = matching_roles(&config, &server, my_pos);
    live[0].name = "Renamed".to_string();
    let edits = role_edits(&config, &server, &live);
    assert_eq!(edits.len(), 1);
    assert_eq!(edits[0].0, live[0].id);
    assert_eq!(edits[0].1.name, "Admin");
    assert_eq!(edits[0].1.permissions.0, PERMISSIONS_ALL);
}

#[test]
fn unused_roles_deleted_only_above_ceiling() {
    let config = test_config();
    let my_pos = 10;
    let server = full_mapping(&config);
    let mut live = matching_roles(&config, &server, my_pos);
    live.push(RemoteRole {
        id: RoleId(900),
        name: "low stray".to_string(),
        color: botcore::items::Colour(0),
        permissions: Permissions(0),
        position: 5,
    });
    live.push(RemoteRole {
        id: RoleId(901),
        name: "high stray".to_string(),
        color: botcore::items::Colour(0),
        permissions: Permissions(0),
        position: 15,
    });
    let deletes = roles_to_delete(&config, &server, &live, my_pos);
    assert_eq!(deletes, vec![RoleId(901)]);
}

#[test]
fn role_moves_respect_authority_ceiling() {
    // Authority-respecting ordering: no move targets or reads a position at
    // or above the ceiling.
    let config = test_config();
    let my_pos = 10;
    let server = full_mapping(&config);
    let mut live = matching_roles(&config, &server, my_pos);
    live[0].position = 3; // wrong spot, below the ceiling: gets a move
    live[1].position = 12; // at/above the ceiling: skipped
    let moves = role_moves(&config.role_order, &server, &live, my_pos);
    for (rid, target) in &moves {
        assert!(*target < my_pos);
        let current = live.iter().find(|r| r.id == *rid).unwrap().position;
        assert!(current < my_pos);
    }
    assert_eq!(moves.len(), 1);
    assert_eq!(moves[0], (live[0].id, 9));
}

#[test]
fn ceiling_of_zero_emits_no_moves() {
    let config = test_config();
    let server = full_mapping(&config);
    let live = matching_roles(&config, &server, 10);
    assert!(role_moves(&config.role_order, &server, &live, 0).is_empty());
}

#[test]
fn dirty_channel_gets_full_edit() {
    let config = test_config();
    let guild = GuildId(1);
    let server = full_mapping(&config);
    let mut live = matching_channels(&config, &server, &guild);
    live[0].topic = Some("something else".to_string());
    let edits = channel_edits(&config, &server, &live, &guild);
    assert_eq!(edits.len(), 1);
    assert_eq!(edits[0].0, live[0].id);
    assert_eq!(edits[0].1.name, "global-chat-1");
    assert_eq!(edits[0].1.kind, ChannelKind::Text);
    assert_eq!(edits[0].1.topic.as_deref(), Some("A global chat"));
    assert!(edits[0].1.overwrites.is_some());
}

#[test]
fn channel_pruning_is_unconditional() {
    let config = test_config();
    let guild = GuildId(1);
    let server = full_mapping(&config);
    let mut live = matching_channels(&config, &server, &guild);
    live.push(RemoteChannel {
        id: ChannelId(999),
        name: "stray".to_string(),
        kind: ChannelKind::Text,
        topic: None,
        parent: None,
        position: 0,
        overwrites: Vec::new(),
    });
    let deletes = channels_to_delete(&config, &server, &live);
    assert_eq!(deletes, vec![ChannelId(999)]);
}

#[test]
fn reorder_only_when_out_of_order() {
    let mk = |id: u64, pos: u64| RemoteChannel {
        id: ChannelId(id),
        name: "c".to_string(),
        kind: ChannelKind::Text,
        topic: None,
        parent: None,
        position: pos,
        overwrites: Vec::new(),
    };
    let live = vec![mk(1, 3), mk(2, 5), mk(3, 9)];
    let children = vec![ChannelId(1), ChannelId(2), ChannelId(3)];
    assert!(reorder_plan(&children, &live).is_none());
    let live = vec![mk(1, 3), mk(2, 2), mk(3, 9)];
    let plan = reorder_plan(&children, &live).expect("out of order");
    assert_eq!(plan, vec![(ChannelId(1), 1), (ChannelId(2), 2), (ChannelId(3), 3)]);
}

#[test]
fn reparent_lists_only_misparented_children() {
    let config = test_config();
    let guild = GuildId(1);
    let server = full_mapping(&config);
    let mut live = matching_channels(&config, &server, &guild);
    live[0].parent = None;
    let (chats_id, children) = config
        .channels
        .iter()
        .find_map(|(id, c)| match c {
            ServerConfigChannel::Category { name, children } if name == "~ EVERYWHERE ~" => {
                Some((id.clone(), children.clone()))
            }
            _ => None,
        })
        .expect("chats category");
    let cat_remote = remote_of(&server, &chats_id);
    let plan = reparent_plan(cat_remote, &children, &server, &live);
    assert_eq!(plan, vec![live[0].id]);
}

#[test]
fn stale_mappings_listed_for_forget_events() {
    let config = test_config();
    let server = full_mapping(&config);
    let ids = stale_role_mappings(&server, server.roles[2].1);
    assert_eq!(ids.len(), 1);
    assert_eq!(ids[0].0, "place/forest");
    let none = stale_role_mappings(&server, RoleId(12345));
    assert!(none.is_empty());
    let cids = stale_channel_mappings(&server, server.channels[0].1);
    assert_eq!(cids.len(), 1);
    assert_eq!(cids[0], config.channels[0].0);
}

#[test]
fn overwrites_match_is_order_independent() {
    let a = Overwrite { kind: OverwriteKind::Role, target: 1, allow: Permissions(1), deny: Permissions(0) };
    let b = Overwrite { kind: OverwriteKind::Role, target: 2, allow: Permissions(2), deny: Permissions(0) };
    assert!(overwrites_match_exec(&vec![a, b], &vec![b, a]));
    assert!(!overwrites_match_exec(&vec![a, b], &vec![a, a]));
    assert!(!overwrites_match_exec(&vec![a], &vec![a, a]));
    let m = Overwrite { kind: OverwriteKind::Member, target: 1, allow: Permissions(1), deny: Permissions(0) };
    assert!(!overwrites_match_exec(&vec![a], &vec![m]));
}

#[test]
fn resolved_overrides_append_guild_base() {
    let config = test_config();
    let guild = GuildId(77);
    let server = full_mapping(&config);
    // The forest text channel carries one place override plus the base.
    let tl_perms = config
        .channels
        .iter()
        .find_map(|(id, c)| match c {
            ServerConfigChannel::Text(tl) if id.0 == "places/forest/text" => {
                Some(tl.permissions.clone())
            }
            _ => None,
        })
        .expect("forest text channel");
    let ows = overrides(&guild, &server, &tl_perms);
    assert_eq!(ows.len(), 2);
    assert_eq!(ows[0].kind, OverwriteKind::Role);
    assert_eq!(ows[0].target, server.roles[2].1 .0);
    assert_eq!(ows[0].allow.0, 0x400);
    assert_eq!(ows[1].target, 77);
    assert_eq!(ows[1].allow.0, 0);
}

#[test]
fn single_override_resolves_through_mapping() {
    let config = test_config();
    let server = full_mapping(&config);
    let ow = config
        .channels
        .iter()
        .find_map(|(_, c)| match c {
            ServerConfigChannel::Voice { permissions, .. } => Some(permissions.overrides[0].clone()),
            _ => None,
        })
        .expect("voice channel with an override");
    let resolved = ow.as_overwrite(&server);
    assert_eq!(resolved.kind, OverwriteKind::Role);
    assert_eq!(resolved.target, server.roles[2].1 .0);
    assert_eq!(resolved.allow.0, 0x400);
    assert_eq!(resolved.deny.0, 0);
}

#[test]
fn place_roles_to_remove_spares_destination() {
    let config = test_config();
    let server = full_mapping(&config);
    let forest = server.roles[2].1;
    let deep = server.roles[3].1;
    let admin = server.roles[0].1;
    // Member holds the admin role and both place roles; travelling to the
    // forest sheds only the other place role.
    let held = vec![admin, forest, deep];
    let removed = place_roles_to_remove(&server, &held, forest);
    assert_eq!(removed, vec![deep]);
}

#[test]
fn config_declares_expected_shape() {
    let config = test_config();
    let order: Vec<&str> = config.role_order.iter().map(|r| r.0.as_str()).collect();
    assert_eq!(order, vec!["admin", "operator", "place/forest", "place/deep-forest"]);
    let children: Vec<&str> = config.children.iter().map(|c| c.0.as_str()).collect();
    assert_eq!(children, vec!["chats", "places/forest", "places/deep-forest"]);
    assert_eq!(config.channels.len(), 11);
    let admin = config
        .role_get(&ServerConfigRoleId("admin".to_string()))
        .expect("admin role");
    assert_eq!(admin.name, "Admin");
    assert_eq!(admin.permissions.0, PERMISSIONS_ALL);
    assert_eq!(admin.color.0, 0xFF0000);
    let chats = config
        .channel_get(&ServerConfigChannelId("chats".to_string()))
        .expect("chats category");
    assert_eq!(chats.kind(), ChannelKind::Category);
    match chats {
        ServerConfigChannel::Category { name, children } => {
            assert_eq!(name, "~ EVERYWHERE ~");
            assert_eq!(children.len(), 4);
            assert_eq!(children[0].0, "chats/global-1");
        }
        _ => panic!("chats must be a category"),
    }
    assert_eq!(config.roles.len(), 4);
}

#[test]
fn config_pins_channel_and_role_payloads() {
    let config = test_config();
    match config
        .channel_get(&ServerConfigChannelId("chats/global-2".to_string()))
        .expect("global chat")
    {
        ServerConfigChannel::Text(tl) => {
            assert_eq!(tl.name, "global-chat-2");
            assert_eq!(tl.description, "A global chat");
            assert_eq!(tl.permissions.base.0, 0);
            assert!(tl.permissions.overrides.is_empty());
        }
        _ => panic!("global chats are text channels"),
    }
    match config
        .channel_get(&ServerConfigChannelId("places/deep-forest/text".to_string()))
        .expect("place text channel")
    {
        ServerConfigChannel::Text(tl) => {
            assert_eq!(tl.name, "deep-forest-text");
            assert_eq!(tl.description, "A place in Alternate Reality");
            assert_eq!(tl.permissions.base.0, 0);
            assert_eq!(tl.permissions.overrides.len(), 1);
            assert_eq!(tl.permissions.overrides[0].role.0, "place/deep-forest");
            assert_eq!(tl.permissions.overrides[0].allow.0, 0x400);
            assert_eq!(tl.permissions.overrides[0].deny.0, 0);
        }
        _ => panic!("place text channels are text channels"),
    }
    match config
        .channel_get(&ServerConfigChannelId("places/forest/vc".to_string()))
        .expect("place voice channel")
    {
        ServerConfigChannel::Voice { name, permissions } => {
            assert_eq!(name, "forest-vc");
            assert_eq!(permissions.overrides.len(), 1);
            assert_eq!(permissions.overrides[0].role.0, "place/forest");
        }
        _ => panic!("place vc channels are voice channels"),
    }
    match config
        .channel_get(&ServerConfigChannelId("places/forest".to_string()))
        .expect("place category")
    {
        ServerConfigChannel::Category { name, children } => {
            assert_eq!(name, "~ The Forest ~");
            let kids: Vec<&str> = children.iter().map(|c| c.0.as_str()).collect();
            assert_eq!(kids, vec!["places/forest/text", "places/forest/vc"]);
        }
        _ => panic!("places are categories"),
    }
    let place_role = config
        .role_get(&ServerConfigRoleId("place/forest".to_string()))
        .expect("place role");
    assert_eq!(place_role.name, "\u{1F4CD} The Forest");
    assert_eq!(place_role.color.0, 0);
    assert_eq!(place_role.permissions.0, 0);
}

#[test]
fn place_ids_are_slugs() {
    assert_eq!(Place::Forest.id(), "the-forest");
    assert_eq!(Place::Capital.id(), "the-capital");
    assert_eq!(Place::HomeVivi.id(), "vivi-s-tower");
    assert_eq!(Place::HomeZyex.id(), "zyex-s-home");
    assert_eq!(Place::DevTest.id(), "development-zone");
    assert_eq!(Place::Forest.name(), "The Forest");
}
