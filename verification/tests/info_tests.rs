use std::collections::HashMap;

use hyprkool::command::{Command, InfoCommand};
use hyprkool::config::{Config, GridDims};
use hyprkool::events::{get_plugin_socket_path, get_socket_dir, get_socket_path, Animation, KEvent};
use hyprkool::info::{
    select_icon, sort_names, str_le, InfoCommandContext, KInfoEvent, MonitorStatus,
};
use hyprkool::ipc::{classify, DispatchShape, Message};
use hyprkool::state::{MonitorInfo, QueryData, State, WindowData};

fn test_config(activities: &[&str], w: i32, h: i32) -> Config {
    Config {
        activities: activities.iter().map(|a| a.to_string()).collect(),
        workspaces: GridDims(w, h),
        named_focii: HashMap::new(),
        daemon: Default::default(),
        icon_theme: None,
        window_icon_try_min_size: None,
    }
}

fn monitor(id: i64, name: &str, focused: bool, active: &str) -> MonitorInfo {
    MonitorInfo {
        id,
        name: name.to_string(),
        focused,
        disabled: false,
        active_workspace_id: id + 10,
        active_workspace_name: active.to_string(),
        special_workspace_id: 0,
        x: 0,
        y: 0,
    }
}

#[test]
fn animation_codes_match_the_plugin_protocol() {
    assert_eq!(Animation::NoAnim.code(), 0);
    assert_eq!(Animation::Left.code(), 1);
    assert_eq!(Animation::Right.code(), 2);
    assert_eq!(Animation::Up.code(), 3);
    assert_eq!(Animation::Down.code(), 4);
    assert_eq!(Animation::Fade.code(), 5);
}

#[test]
fn socket_paths_derive_from_the_signature() {
    assert_eq!(get_socket_dir("sig"), "/tmp/hyprkool/sig");
    assert_eq!(get_socket_path("sig"), "/tmp/hyprkool/sig/kool.sock");
    assert_eq!(get_plugin_socket_path("sig"), "/tmp/hyprkool/sig/plugin.sock");
}

#[test]
fn classify_dispatch_shapes() {
    assert!(matches!(classify(Message::Command(Command::DaemonQuit)), DispatchShape::Quit));
    assert!(matches!(
        classify(Message::Command(Command::Info { command: InfoCommand::Submap, monitor: true })),
        DispatchShape::StreamInfo { monitor: true, .. }
    ));
    assert!(matches!(
        classify(Message::Command(Command::Daemon)),
        DispatchShape::OneShot(Command::Daemon)
    ));
    assert!(matches!(classify(Message::IpcOk), DispatchShape::Invalid));
    assert!(matches!(classify(Message::IpcErr("e".to_string())), DispatchShape::Invalid));
}

#[test]
fn info_command_relevance() {
    let submap = KInfoEvent::Submap(hyprkool::info::SubmapStatus { submap: "x".to_string() });
    let mons = KInfoEvent::Monitors(Vec::<MonitorStatus>::new());
    assert!(InfoCommand::Submap.relevant(&submap));
    assert!(!InfoCommand::Submap.relevant(&mons));
    let mai = InfoCommand::MonitorsAllInfo { window_icon_try_min_size: None, window_icon_theme: None };
    assert!(mai.relevant(&mons));
    assert!(!mai.relevant(&submap));
    assert!(matches!(mai.fired_event(), Some(KEvent::MonitorInfoRequested)));
    assert!(InfoCommand::Submap.fired_event().is_none());
}

#[test]
fn sorting_names_is_lexicographic() {
    let v = vec!["pear".to_string(), "apple".to_string(), "apple".to_string(), "Banana".to_string()];
    let sorted = sort_names(v);
    assert_eq!(sorted, vec!["Banana", "apple", "apple", "pear"]);
    assert!(str_le("a", "b"));
    assert!(str_le("a", "ab"));
    assert!(!str_le("ab", "a"));
    assert!(str_le("", ""));
}

#[test]
fn select_icon_prefers_smallest_at_least_wanted() {
    // 48 is the smallest size of at least 32
    assert_eq!(select_icon(&vec![16u16, 48, 64], 32), Some(1));
    // nothing reaches 128: the largest candidate wins as fallback
    assert_eq!(select_icon(&vec![16u16, 48, 64], 128), Some(2));
    assert_eq!(select_icon(&vec![], 0), None);
    // first of equally good candidates wins
    assert_eq!(select_icon(&vec![48u16, 48], 32), Some(0));
}

#[test]
fn icon_cache_remembers_lookups() {
    let mut ctx = InfoCommandContext { config: test_config(&["work"], 2, 2), icons: Vec::new() };
    let (theme, size) = ctx.resolve_icon_request(&None, &None);
    assert_eq!(theme, None);
    assert_eq!(size, 0);
    assert!(ctx.icon_lookup(&theme, size, "kitty").is_none());
    ctx.icon_store(
        hyprkool::info::IconKey { theme: theme.clone(), size, class: "kitty".to_string() },
        Some("/icons/kitty.svg".to_string()),
    );
    assert_eq!(
        ctx.icon_lookup(&theme, size, "kitty"),
        Some(Some("/icons/kitty.svg".to_string()))
    );
}

#[test]
fn icon_request_falls_back_to_configuration() {
    let mut config = test_config(&["work"], 2, 2);
    config.icon_theme = Some("Adwaita".to_string());
    config.window_icon_try_min_size = Some(24);
    let ctx = InfoCommandContext { config, icons: Vec::new() };
    let (theme, size) = ctx.resolve_icon_request(&None, &None);
    assert_eq!(theme, Some("Adwaita".to_string()));
    assert_eq!(size, 24);
    let (theme, size) = ctx.resolve_icon_request(&Some("Papirus".to_string()), &Some(48));
    assert_eq!(theme, Some("Papirus".to_string()));
    assert_eq!(size, 48);
}

#[test]
fn gather_info_builds_the_full_grid() {
    let config = test_config(&["work", "home"], 2, 2);
    let monitors = vec![monitor(0, "eDP-1", true, "work:(1 2)")];
    let mut s = State::new(config, &monitors);
    s.execute(Command::SetNamedFocus { name: "b".to_string() }, &QueryData {
        cursor: None,
        active_window: None,
        clients: None,
    })
    .unwrap();
    s.execute(Command::SetNamedFocus { name: "a".to_string() }, &QueryData {
        cursor: None,
        active_window: None,
        clients: None,
    })
    .unwrap();
    let clients = vec![WindowData {
        address: "0x1".to_string(),
        workspace_id: 10,
        workspace_name: "work:(1 2)".to_string(),
        title: "shell".to_string(),
        class: "kitty".to_string(),
        initial_title: "shell".to_string(),
        focus_history_id: 0,
        fullscreen_beyond_max: false,
    }];
    let info = s.gather_info(&clients);
    assert_eq!(info.len(), 1);
    let m = &info[0];
    assert_eq!(m.name, "eDP-1");
    assert_eq!(m.id, 0);
    assert!(m.focused);
    assert_eq!(m.activities.len(), 2);
    let work = &m.activities[0];
    assert_eq!(work.name, "work");
    assert!(work.focused);
    assert!(!m.activities[1].focused);
    assert_eq!(work.workspaces.len(), 2);
    assert_eq!(work.workspaces[0].len(), 2);
    let cell = &work.workspaces[1][0];
    assert_eq!(cell.name, "work:(1 2)");
    assert!(cell.focused);
    assert_eq!(cell.windows.len(), 1);
    assert_eq!(cell.windows[0].class, "kitty");
    assert!(cell.windows[0].focused);
    // both marks point at the focused workspace, listed sorted
    assert_eq!(cell.named_focus, vec!["a", "b"]);
    let other = &work.workspaces[0][0];
    assert!(!other.focused);
    assert!(other.windows.is_empty());
    assert!(other.named_focus.is_empty());
}

#[test]
fn update_broadcasts_submap_event() {
    let config = test_config(&["work"], 2, 2);
    let monitors = vec![monitor(0, "eDP-1", true, "work:(1 1)")];
    let mut s = State::new(config, &monitors);
    let q = QueryData { cursor: None, active_window: None, clients: None };
    let up = s
        .update_broadcasts(KEvent::Submap { name: "resize".to_string() }, &q)
        .unwrap();
    assert!(up.actions.is_empty());
    assert_eq!(up.broadcasts.len(), 1);
    match &up.broadcasts[0] {
        KInfoEvent::Submap(st) => assert_eq!(st.submap, "resize"),
        _ => panic!("expected a submap push"),
    }
}

#[test]
fn update_broadcasts_monitor_snapshot() {
    let config = test_config(&["work"], 2, 2);
    let monitors = vec![monitor(0, "eDP-1", true, "work:(1 1)")];
    let mut s = State::new(config, &monitors);
    let q = QueryData { cursor: None, active_window: None, clients: Some(Vec::new()) };
    let up = s.update_broadcasts(KEvent::WindowChange, &q).unwrap();
    assert!(up.actions.is_empty());
    match &up.broadcasts[0] {
        KInfoEvent::Monitors(g) => assert_eq!(g.len(), 1),
        _ => panic!("expected a monitor push"),
    }
}

#[test]
fn update_without_clients_fails() {
    let config = test_config(&["work"], 2, 2);
    let monitors = vec![monitor(0, "eDP-1", true, "work:(1 1)")];
    let mut s = State::new(config, &monitors);
    let q = QueryData { cursor: None, active_window: None, clients: None };
    assert!(s.update_broadcasts(KEvent::WindowChange, &q).is_err());
}

#[test]
fn monitor_change_refocuses_the_last_active_window() {
    let config = {
        let mut c = test_config(&["work"], 2, 2);
        c.daemon.focus_last_window_on_monitor_change = true;
        c
    };
    let monitors = vec![monitor(0, "eDP-1", true, "work:(1 1)")];
    let mut s = State::new(config, &monitors);
    let mk = |addr: &str, hist: i32| WindowData {
        address: addr.to_string(),
        workspace_id: 10,
        workspace_name: "work:(1 1)".to_string(),
        title: "t".to_string(),
        class: "c".to_string(),
        initial_title: "t".to_string(),
        focus_history_id: hist,
        fullscreen_beyond_max: false,
    };
    let q = QueryData {
        cursor: Some(hyprkool::state::CursorPos { x: 3, y: 4 }),
        active_window: None,
        clients: Some(vec![mk("0xa", 2), mk("0xb", 1), mk("0xc", 5)]),
    };
    let up = s
        .update_broadcasts(
            KEvent::MonitorChange { name: "eDP-1".to_string(), workspace: None },
            &q,
        )
        .unwrap();
    assert_eq!(up.actions.len(), 2);
    assert_eq!(
        up.actions[0],
        hyprkool::state::Action::FocusWindowByAddress { address: "0xb".to_string() }
    );
    assert_eq!(up.actions[1], hyprkool::state::Action::MoveCursor { x: 3, y: 4 });
    assert_eq!(up.broadcasts.len(), 1);
}

#[test]
fn submap_push_needs_no_focused_monitor() {
    let config = test_config(&["work"], 2, 2);
    let monitors = vec![monitor(0, "eDP-1", false, "work:(1 1)")];
    let mut s = State::new(config, &monitors);
    let q = QueryData { cursor: None, active_window: None, clients: None };
    let up = s
        .update_broadcasts(KEvent::Submap { name: "resize".to_string() }, &q)
        .unwrap();
    assert_eq!(up.broadcasts.len(), 1);
}
