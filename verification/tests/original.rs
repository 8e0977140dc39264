use pengport_adapter_minecraft::manifest::origin_of;
use pengport_adapter_minecraft::parser::{parse_line, PlayerEvent};
use pengport_adapter_minecraft::players::PlayerSet;
use pengport_adapter_minecraft::rcon::parse_list_response;
use pengport_adapter_minecraft::secret::SecretString;
use pengport_adapter_minecraft::service_state::ServiceState;
use pengport_adapter_minecraft::state::McState;
use pengport_adapter_minecraft::status::ServiceEvent;

#[test]
fn secret_debug_masks() {
    let s = SecretString::new("super-secret".into());
    assert_eq!(s.debug_masked(), "\"***\"");
    assert_eq!(s.expose(), "super-secret");
}

#[test]
fn config_secret_debug_masks() {
    let s = SecretString::new("super-secret".into());
    assert_eq!(s.debug_masked(), "\"***\"");
    assert_eq!(s.expose(), "super-secret");
}

#[test]
fn to_status_present_mirrors_set() {
    let mut s = ServiceState::new();
    s.online = true;
    s.present.insert("alice".to_string());
    s.present.insert("bob".to_string());
    let status = s.to_status();
    assert_eq!(status.present.len(), 2);
    let ids: Vec<&str> = status.present.iter().map(|p| p.id.as_str()).collect();
    assert!(ids.contains(&"alice"));
    assert!(ids.contains(&"bob"));
    assert!(status.present.iter().all(|p| p.label.is_none()));
}

#[test]
fn join_and_leave_emit_status_changed() {
    let mut s = ServiceState::new();
    let events = s.record_join("alice");
    let mut it = events.into_iter();
    match it.next().unwrap() {
        ServiceEvent::StatusChanged(st) => assert!(!st.metrics.is_empty()),
        other => panic!("expected status_changed first, got {other:?}"),
    }
    match it.next().unwrap() {
        ServiceEvent::Notification(n) => assert!(n.title.contains("alice")),
        other => panic!("expected notification, got {other:?}"),
    }
}

#[test]
fn state_join_and_leave_emit_status_changed() {
    let mut s = McState::new();
    let events = s.record_join("alice");
    let mut it = events.into_iter();
    match it.next().unwrap() {
        ServiceEvent::StatusChanged(st) => {
            assert!(!st.metrics.is_empty());
        }
        other => panic!("expected status_changed first, got {other:?}"),
    }
    match it.next().unwrap() {
        ServiceEvent::Notification(n) => assert!(n.title.contains("alice")),
        other => panic!("expected notification, got {other:?}"),
    }
}

#[test]
fn sync_marks_online() {
    let mut s = ServiceState::new();
    let mut auth = PlayerSet::new();
    auth.insert("bob".to_string());
    let events = s.resync(auth, Some(4));
    match events.into_iter().next().unwrap() {
        ServiceEvent::StatusChanged(st) => assert!(st.online),
        _ => panic!(),
    }
}

#[test]
fn rcon_sync_marks_online() {
    let mut s = McState::new();
    let mut auth = PlayerSet::new();
    auth.insert("bob".to_string());
    let events = s.resync(auth, Some(4));
    match events.into_iter().next().unwrap() {
        ServiceEvent::StatusChanged(st) => {
            assert!(st.online);
        }
        _ => panic!(),
    }
}

#[test]
fn origin_of_https_url() {
    assert_eq!(
        origin_of("https://cdn.example.com/modded/pack.toml"),
        Some("https://cdn.example.com".to_string())
    );
}

#[test]
fn origin_of_with_port() {
    assert_eq!(
        origin_of("https://cdn.example.com:8443/modded/pack.toml"),
        Some("https://cdn.example.com:8443".to_string())
    );
}

#[test]
fn origin_of_no_scheme() {
    assert_eq!(origin_of("cdn.example.com/path"), None);
}

#[test]
fn parses_fabric_join() {
    let line = "[20:41:22] [Server thread/INFO] [minecraft/DedicatedServer]: pengport joined the game";
    assert_eq!(parse_line(line), Some(PlayerEvent::Join("pengport".into())));
}

#[test]
fn parses_fabric_leave() {
    let line = "[20:42:55] [Server thread/INFO] [minecraft/DedicatedServer]: pengport left the game";
    assert_eq!(parse_line(line), Some(PlayerEvent::Leave("pengport".into())));
}

#[test]
fn parses_forge_join() {
    let line = "[00:52:14] [Server thread/INFO] [net.minecraft.server.MinecraftServer]: Alice123 joined the game";
    assert_eq!(parse_line(line), Some(PlayerEvent::Join("Alice123".into())));
}

#[test]
fn ignores_generic_lines() {
    assert_eq!(parse_line(""), None);
    assert_eq!(parse_line("[INFO]: Starting minecraft server"), None);
}

#[test]
fn rejects_too_long_name() {
    let line = "[INFO]: ThisNameIsTooLongForMinecraft joined the game";
    assert_eq!(parse_line(line), None);
}

#[test]
fn handles_ansi_prefix() {
    let line = "> \u{001b}[K[20:41:22] [Server thread/INFO]: pengport joined the game";
    assert_eq!(parse_line(line), Some(PlayerEvent::Join("pengport".into())));
}

#[test]
fn parses_populated_list() {
    let resp = "There are 2 of a max of 4 players online: alice, bob";
    let (count, max, players) = parse_list_response(resp).unwrap();
    assert_eq!(count, 2);
    assert_eq!(max, 4);
    assert!(players.contains("alice"));
    assert!(players.contains("bob"));
}

#[test]
fn parses_empty_list() {
    let resp = "There are 0 of a max of 4 players online:";
    let (_, max, players) = parse_list_response(resp).unwrap();
    assert_eq!(max, 4);
    assert!(players.is_empty());
}

#[test]
fn parses_forge_1_12_format() {
    let resp = "There are 0/4 players online:";
    let (count, max, players) = parse_list_response(resp).unwrap();
    assert_eq!(count, 0);
    assert_eq!(max, 4);
    assert!(players.is_empty());
}

#[test]
fn rejects_noise() {
    assert!(parse_list_response("unrelated text").is_none());
}
