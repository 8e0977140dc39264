use std::collections::BTreeSet;

use pengport_adapter_minecraft::config::{AppConfig, ConfigError, EnvVars, NumberVar, RequiredVar};
use pengport_adapter_minecraft::docker_tail::{after_follow, since_secs};
use pengport_adapter_minecraft::log_tail::{take_lines, tail_step, FileStamp, TailMark, TailStep};
use pengport_adapter_minecraft::manifest::{build_manifest, origin_of, resolve_base_url};
use pengport_adapter_minecraft::parser::{parse_line, PlayerEvent};
use pengport_adapter_minecraft::players::PlayerSet;
use pengport_adapter_minecraft::rcon::{after_poll, parse_list_response, RconAction};
use pengport_adapter_minecraft::routes::{ct_token_eq, events_authorized, TokenQuery};
use pengport_adapter_minecraft::secret::SecretString;
use pengport_adapter_minecraft::service_state::ServiceState;
use pengport_adapter_minecraft::state::McState;
use pengport_adapter_minecraft::status::{event_name, ServiceEvent};

fn set_of(names: &[&str]) -> PlayerSet {
    let mut s = PlayerSet::new();
    for n in names {
        s.insert(n.to_string());
    }
    s
}

fn titles(events: &[ServiceEvent]) -> Vec<String> {
    events
        .iter()
        .filter_map(|e| match e {
            ServiceEvent::Notification(n) => Some(n.title.clone()),
            _ => None,
        })
        .collect()
}

fn vars() -> EnvVars {
    EnvVars {
        bind: None,
        events_token: None,
        mc_id: Some("modded-mc".into()),
        mc_name: Some("알파펭".into()),
        mc_description: None,
        mc_icon_url: None,
        mc_log_dir: Some("/mc-logs".into()),
        rcon_address: Some("ms-mode:25575".into()),
        rcon_password: Some("pw".into()),
        mc_host: Some("play.example.com".into()),
        mc_port: None,
        mc_version: Some("1.21.1".into()),
        mc_loader: Some("fabric".into()),
        mc_loader_version: Some("0.18.4".into()),
        mc_display_name: None,
        mc_java_major: None,
        packwiz_url: None,
    }
}

#[test]
fn player_set_keeps_string_order_without_repeats() {
    let mut s = PlayerSet::new();
    assert!(s.insert("bob".to_string()));
    assert!(s.insert("Émile".to_string()));
    assert!(s.insert("alice".to_string()));
    assert!(s.insert("Zed".to_string()));
    assert!(!s.insert("alice".to_string()));
    let expected: Vec<String> = ["bob", "Émile", "alice", "Zed"]
        .iter()
        .map(|x| x.to_string())
        .collect::<BTreeSet<String>>()
        .into_iter()
        .collect();
    assert_eq!(s.to_vec(), expected);
    assert_eq!(s.len(), 4);
    assert!(s.remove("bob"));
    assert!(!s.remove("bob"));
    assert!(!s.contains("bob"));
    assert_eq!(s.to_vec(), vec!["Zed".to_string(), "alice".to_string(), "Émile".to_string()]);
    s.clear();
    assert!(s.is_empty());
}

#[test]
fn join_twice_announces_once() {
    let mut s = ServiceState::new();
    assert_eq!(s.record_join("alice").len(), 2);
    assert_eq!(s.record_join("alice").len(), 0);
    assert_eq!(s.present.to_vec(), vec!["alice".to_string()]);
}

#[test]
fn leave_undoes_join() {
    let mut s = ServiceState::new();
    s.record_join("bob");
    s.record_join("alice");
    let events = s.record_leave("alice");
    assert_eq!(titles(&events), vec!["alice 님이 퇴장했습니다".to_string()]);
    assert_eq!(s.present.to_vec(), vec!["bob".to_string()]);
    assert_eq!(s.record_leave("alice").len(), 0);
}

#[test]
fn join_notice_title() {
    let mut s = McState::new();
    let events = s.record_join("alice");
    assert_eq!(titles(&events), vec!["alice 님이 접속했습니다".to_string()]);
    assert_eq!(event_name(&events[0]), "status_changed");
    assert_eq!(event_name(&events[1]), "notification");
}

#[test]
fn resync_announces_arrivals_then_departures_in_name_order() {
    let mut s = ServiceState::new();
    s.resync(set_of(&["alice", "bob", "dave"]), Some(10));
    let events = s.resync(set_of(&["carol", "bob", "erin"]), None);
    assert_eq!(events.len(), 5);
    match &events[0] {
        ServiceEvent::StatusChanged(st) => {
            assert!(st.online);
            assert_eq!(st.metrics[0].value.max, 10);
            assert_eq!(st.metrics[0].value.online, 3);
            assert_eq!(st.metrics[0].value.names, vec!["bob", "carol", "erin"]);
            assert_eq!(st.metrics[0].id, "players");
            assert_eq!(st.metrics[0].label, "접속자");
        }
        other => panic!("expected status_changed, got {other:?}"),
    }
    assert_eq!(
        titles(&events),
        vec![
            "carol 님이 접속했습니다".to_string(),
            "erin 님이 접속했습니다".to_string(),
            "alice 님이 퇴장했습니다".to_string(),
            "dave 님이 퇴장했습니다".to_string(),
        ]
    );
}

#[test]
fn resync_with_same_presence_is_silent() {
    let mut s = McState::new();
    assert_eq!(s.resync(set_of(&["bob"]), Some(4)).len(), 2);
    assert_eq!(s.resync(set_of(&["bob"]), Some(4)).len(), 0);
    assert_eq!(s.max_players, 4);
    s.resync(set_of(&["bob"]), None);
    assert_eq!(s.max_players, 4);
}

#[test]
fn offline_clears_presence_once() {
    let mut s = ServiceState::new();
    s.resync(set_of(&["bob"]), Some(4));
    let events = s.record_offline();
    assert_eq!(events.len(), 1);
    assert!(!s.online);
    assert!(s.present.is_empty());
    assert_eq!(s.max, Some(4));
    assert_eq!(s.record_offline().len(), 0);
}

#[test]
fn mc_status_has_no_presence_list() {
    let mut s = McState::new();
    s.record_join("alice");
    let st = s.to_status();
    assert!(st.present.is_empty());
    assert_eq!(st.metrics[0].value.names, vec!["alice"]);
    assert!(!st.online);
    assert!(st.badges.is_empty());
    assert!(st.last_updated.is_none());
}

#[test]
fn joins_win_over_leaves() {
    let line = "bob left the game, then alice joined the game";
    assert_eq!(parse_line(line), Some(PlayerEvent::Join("alice".into())));
}

#[test]
fn name_needs_a_word_boundary() {
    assert_eq!(parse_line("éalice joined the game"), None);
    assert_eq!(parse_line("é alice joined the game"), Some(PlayerEvent::Join("alice".into())));
    assert_eq!(parse_line("alice joined the games"), None);
    assert_eq!(parse_line("alice joined the game."), Some(PlayerEvent::Join("alice".into())));
}

#[test]
fn unicode_white_space_separates_the_name() {
    assert_eq!(
        parse_line("alice\u{3000}joined the game"),
        Some(PlayerEvent::Join("alice".into()))
    );
    assert_eq!(parse_line("alicejoined the game"), None);
}

#[test]
fn name_length_limit() {
    assert_eq!(
        parse_line("abcdefghijklmnop left the game"),
        Some(PlayerEvent::Leave("abcdefghijklmnop".into()))
    );
    assert_eq!(parse_line("abcdefghijklmnopq left the game"), None);
}

#[test]
fn list_with_unicode_digit_is_refused() {
    assert!(parse_list_response("There are ٣ of a max of 4 players online:").is_none());
}

#[test]
fn list_count_overflow_is_refused() {
    assert!(parse_list_response("There are 4294967296 of a max of 4 players online:").is_none());
    let (count, _, _) = parse_list_response("There are 4294967295/4 players online:").unwrap();
    assert_eq!(count, 4294967295);
}

#[test]
fn list_names_are_trimmed_and_deduplicated() {
    let (count, max, players) =
        parse_list_response("  There are 3 of a max of 10 players online: bob, , alice ,bob,carol  ").unwrap();
    assert_eq!((count, max), (3, 10));
    assert_eq!(players.to_vec(), vec!["alice", "bob", "carol"]);
}

#[test]
fn list_names_stop_at_line_end() {
    let (_, _, players) =
        parse_list_response("There are 2 of a max of 4 players online:\nalice\nbob").unwrap();
    assert_eq!(players.to_vec(), vec!["alice"]);
}

#[test]
fn list_found_after_noise() {
    let (count, max, players) =
        parse_list_response("noise There are 1/20 players online alice").unwrap();
    assert_eq!((count, max), (1, 20));
    assert_eq!(players.to_vec(), vec!["alice"]);
}

#[test]
fn config_defaults() {
    let cfg = AppConfig::from_vars(vars()).ok().unwrap();
    assert_eq!(cfg.bind, "0.0.0.0:8080");
    assert_eq!(cfg.mc_port, 25565);
    assert!(cfg.events_token.is_none());
    assert_eq!(cfg.log_dir, "/mc-logs");
    assert_eq!(cfg.rcon_password.expose(), "pw");
    assert_eq!(cfg.mc_java_major, None);
}

#[test]
fn config_numbers() {
    let mut v = vars();
    v.mc_port = Some("+8080".into());
    v.mc_java_major = Some("21".into());
    v.bind = Some("127.0.0.1:9000".into());
    v.events_token = Some("tok".into());
    let cfg = AppConfig::from_vars(v).ok().unwrap();
    assert_eq!(cfg.mc_port, 8080);
    assert_eq!(cfg.mc_java_major, Some(21));
    assert_eq!(cfg.bind, "127.0.0.1:9000");
    assert_eq!(cfg.events_token.unwrap().expose(), "tok");
}

#[test]
fn config_errors() {
    let cases: Vec<(fn(&mut EnvVars), ConfigError)> = vec![
        (|v| v.mc_id = None, ConfigError::Missing(RequiredVar::McId)),
        (|v| v.mc_name = None, ConfigError::Missing(RequiredVar::McName)),
        (|v| v.mc_log_dir = None, ConfigError::Missing(RequiredVar::McLogDir)),
        (|v| v.rcon_address = None, ConfigError::Missing(RequiredVar::RconAddress)),
        (|v| v.rcon_password = None, ConfigError::Missing(RequiredVar::RconPassword)),
        (|v| v.mc_host = None, ConfigError::Missing(RequiredVar::McHost)),
        (|v| v.mc_port = Some("65536".into()), ConfigError::Invalid(NumberVar::McPort)),
        (|v| v.mc_version = None, ConfigError::Missing(RequiredVar::McVersion)),
        (|v| v.mc_loader = None, ConfigError::Missing(RequiredVar::McLoader)),
        (|v| v.mc_loader_version = None, ConfigError::Missing(RequiredVar::McLoaderVersion)),
        (|v| v.mc_java_major = Some("abc".into()), ConfigError::Invalid(NumberVar::McJavaMajor)),
    ];
    for (change, expected) in cases {
        let mut v = vars();
        change(&mut v);
        match AppConfig::from_vars(v) {
            Err(e) => assert_eq!(e, expected),
            Ok(_) => panic!("expected {expected:?}"),
        }
    }
    let mut v = vars();
    v.mc_id = None;
    v.mc_port = Some("x".into());
    assert_eq!(AppConfig::from_vars(v).err(), Some(ConfigError::Missing(RequiredVar::McId)));
    assert_eq!(ConfigError::Missing(RequiredVar::McId).message(), "MC_ID 누락");
    assert_eq!(ConfigError::Invalid(NumberVar::McPort).message(), "MC_PORT 파싱 실패");
}

#[test]
fn manifest_contents() {
    let mut v = vars();
    v.packwiz_url = Some("https://cdn.example.com/modded/pack.toml".into());
    v.mc_java_major = Some("21".into());
    let cfg = AppConfig::from_vars(v).ok().unwrap();
    let m = build_manifest(&cfg, "https://play.example.com/services/modded-mc//");
    assert_eq!(m.endpoints.status, "https://play.example.com/services/modded-mc/pengport/status");
    assert_eq!(
        m.endpoints.events.as_deref(),
        Some("https://play.example.com/services/modded-mc/pengport/events")
    );
    assert_eq!(m.permissions.external_urls, vec!["https://cdn.example.com/*".to_string()]);
    assert_eq!(m.actions.len(), 1);
    let a = &m.actions[0];
    assert_eq!(a.id, "play");
    assert_eq!(a.args.config.display_name, "알파펭");
    assert_eq!(a.args.config.port, 25565);
    assert_eq!(a.args.config.java_major, Some(21));
    assert_eq!(a.args.app, "prism-launcher");
    assert_eq!(m.id, "modded-mc");
    assert_eq!(m.schema_version, 1);
}

#[test]
fn manifest_without_modpack_has_no_external_urls() {
    let mut v = vars();
    v.packwiz_url = Some("cdn.example.com/pack.toml".into());
    v.mc_display_name = Some("Alpha".into());
    let cfg = AppConfig::from_vars(v).ok().unwrap();
    let m = build_manifest(&cfg, "http://0.0.0.0:8080");
    assert!(m.permissions.external_urls.is_empty());
    assert_eq!(m.actions[0].args.config.display_name, "Alpha");
    assert_eq!(m.endpoints.status, "http://0.0.0.0:8080/pengport/status");
}

#[test]
fn origin_edge_cases() {
    assert_eq!(origin_of("https:///path"), None);
    assert_eq!(origin_of("https://"), None);
    assert_eq!(origin_of("ftp://host"), Some("ftp://host".to_string()));
    assert_eq!(origin_of("a://b://c/d"), Some("a://b:".to_string()));
}

#[test]
fn base_url_choice() {
    assert_eq!(resolve_base_url(None, "0.0.0.0:8080"), "http://0.0.0.0:8080");
    assert_eq!(resolve_base_url(Some("https://x".into()), "0.0.0.0:8080"), "https://x");
}

#[test]
fn events_token_check() {
    let expected = Some(SecretString::new("s3cret".into()));
    assert!(events_authorized(&TokenQuery { token: None }, &None));
    assert!(events_authorized(&TokenQuery { token: Some("s3cret".into()) }, &expected));
    assert!(!events_authorized(&TokenQuery { token: Some("s3creT".into()) }, &expected));
    assert!(!events_authorized(&TokenQuery { token: None }, &expected));
    assert!(!ct_token_eq(b"abc", b"abcd"));
    assert!(ct_token_eq(b"abc", b"abc"));
}

#[test]
fn secret_display_masks() {
    let s = SecretString::new("hunter2".into());
    assert_eq!(s.display_masked(), "***");
}

#[test]
fn lines_are_split_and_rest_kept() {
    let mut buf = b"a\r\nbc\n\npartial".to_vec();
    let lines = take_lines(&mut buf);
    assert_eq!(lines, vec![b"a".to_vec(), b"bc".to_vec(), Vec::new()]);
    assert_eq!(buf, b"partial".to_vec());
    let mut none = b"no newline".to_vec();
    assert!(take_lines(&mut none).is_empty());
    assert_eq!(none, b"no newline".to_vec());
}

#[test]
fn tail_reopen_decisions() {
    let mark = Some(TailMark { inode: 7, pos: 100 });
    assert_eq!(tail_step(&None, &Some(FileStamp { inode: 7, size: 0 })), TailStep::OpenAtStart);
    assert_eq!(tail_step(&mark, &Some(FileStamp { inode: 8, size: 500 })), TailStep::OpenAtStart);
    assert_eq!(tail_step(&mark, &Some(FileStamp { inode: 7, size: 50 })), TailStep::OpenAtStart);
    assert_eq!(tail_step(&mark, &Some(FileStamp { inode: 7, size: 100 })), TailStep::Keep);
    assert_eq!(tail_step(&mark, &None), TailStep::Keep);
    assert_eq!(tail_step(&None, &None), TailStep::Keep);
}

#[test]
fn docker_follow_timing() {
    assert_eq!(since_secs(1000), 965);
    assert_eq!(since_secs(10), 0);
    assert_eq!(after_follow(true, 32), (1, 1));
    assert_eq!(after_follow(false, 1), (1, 2));
    assert_eq!(after_follow(false, 32), (32, 60));
    assert_eq!(after_follow(false, 60), (60, 60));
}

#[test]
fn rcon_poll_decisions() {
    match after_poll(Some((1, 4, set_of(&["a"]))), 0, 10) {
        RconAction::Resync { players, max } => {
            assert_eq!(max, 4);
            assert_eq!(players.to_vec(), vec!["a"]);
        }
        other => panic!("expected resync, got {other:?}"),
    }
    assert!(matches!(after_poll(None, 10, 10), RconAction::MarkOffline));
    assert!(matches!(after_poll(None, 9, 10), RconAction::Wait));
}

#[test]
fn loader_version_needed_except_for_vanilla() {
    let mut v = vars();
    v.mc_loader_version = None;
    v.mc_java_major = Some("abc".into());
    assert_eq!(
        AppConfig::from_vars(v).err(),
        Some(ConfigError::Missing(RequiredVar::McLoaderVersion))
    );
    let mut v = vars();
    v.mc_loader = Some("vanilla".into());
    v.mc_loader_version = None;
    let cfg = AppConfig::from_vars(v).ok().unwrap();
    assert_eq!(cfg.mc_loader, "vanilla");
    assert!(cfg.mc_loader_version.is_none());
    let mut v = vars();
    v.mc_loader = Some("Vanilla".into());
    v.mc_loader_version = None;
    assert!(AppConfig::from_vars(v).is_err());
}

#[test]
fn empty_events_token_means_no_token() {
    let mut v = vars();
    v.events_token = Some(String::new());
    let cfg = AppConfig::from_vars(v).ok().unwrap();
    assert!(cfg.events_token.is_none());
    assert!(events_authorized(&TokenQuery { token: Some("anything".into()) }, &cfg.events_token));
    assert!(events_authorized(&TokenQuery { token: None }, &cfg.events_token));
}
