use std::collections::HashMap;

use hyprkool::command::Command;
use hyprkool::config::{Config, GridDims};
use hyprkool::events::Animation;
use hyprkool::grid::KWorkspace;
use hyprkool::state::{Action, CursorPos, KError, MonitorInfo, QueryData, State, WindowData};

fn test_config(activities: &[&str], w: i32, h: i32) -> Config {
    Config {
        activities: activities.iter().map(|a| a.to_string()).collect(),
        workspaces: GridDims(w, h),
        named_focii: HashMap::new(),
        daemon: Default::default(),
        icon_theme: None,
        window_icon_try_min_size: None,
    }
}

fn monitor(id: i64, name: &str, focused: bool, active: &str) -> MonitorInfo {
    MonitorInfo {
        id,
        name: name.to_string(),
        focused,
        disabled: false,
        active_workspace_id: id + 10,
        active_workspace_name: active.to_string(),
        special_workspace_id: 0,
        x: 0,
        y: 0,
    }
}

fn no_queries() -> QueryData {
    QueryData { cursor: None, active_window: None, clients: None }
}

fn one_monitor_state(active: &str) -> State {
    let config = test_config(&["work", "home"], 3, 3);
    let monitors = vec![monitor(0, "eDP-1", true, active)];
    State::new(config, &monitors)
}

#[test]
fn move_right_plans_translated_workspace() {
    let mut s = one_monitor_state("work:(2 1)");
    let plan = s
        .execute(Command::MoveRight { cycle: true, move_window: false }, &no_queries())
        .unwrap();
    assert!(!plan.fire_info_event);
    assert_eq!(plan.actions[0], Action::SetAnim { anim: Animation::Right });
    assert_eq!(
        plan.actions[1],
        Action::FocusWorkspace { arg: "name:work:(3 1)".to_string() }
    );
}

#[test]
fn move_left_wraps_around() {
    let mut s = one_monitor_state("work:(1 1)");
    let plan = s
        .execute(Command::MoveLeft { cycle: true, move_window: false }, &no_queries())
        .unwrap();
    assert_eq!(
        plan.actions[1],
        Action::FocusWorkspace { arg: "name:work:(3 1)".to_string() }
    );
}

#[test]
fn move_on_foreign_workspace_is_rejected() {
    let mut s = one_monitor_state("scratch");
    let r = s.execute(Command::MoveUp { cycle: false, move_window: false }, &no_queries());
    assert_eq!(r.unwrap_err(), KError::NotInKoolWorkspace);
}

#[test]
fn move_window_without_window_query_fails() {
    let mut s = one_monitor_state("work:(1 1)");
    let r = s.execute(Command::MoveDown { cycle: true, move_window: true }, &no_queries());
    assert_eq!(r.unwrap_err(), KError::QueryFailed);
}

#[test]
fn switch_to_activity_without_memory_keeps_position() {
    let mut s = one_monitor_state("work:(2 1)");
    let plan = s
        .execute(
            Command::SwitchToActivity { name: "home".to_string(), move_window: false },
            &no_queries(),
        )
        .unwrap();
    assert_eq!(plan.actions[0], Action::SetAnim { anim: Animation::Fade });
    assert_eq!(
        plan.actions[1],
        Action::FocusWorkspace { arg: "name:home:(2 1)".to_string() }
    );
}

#[test]
fn switch_to_activity_with_memory_restores_it() {
    let mut s = one_monitor_state("work:(2 1)");
    s.monitors[0].activities[1].last_workspace = Some(KWorkspace { x: 1, y: 3 });
    let plan = s
        .execute(
            Command::SwitchToActivity { name: "home".to_string(), move_window: false },
            &no_queries(),
        )
        .unwrap();
    assert_eq!(
        plan.actions[1],
        Action::FocusWorkspace { arg: "name:home:(1 3)".to_string() }
    );
}

#[test]
fn leaving_a_workspace_remembers_it() {
    let mut s = one_monitor_state("work:(2 1)");
    s.execute(
        Command::SwitchToActivity { name: "home".to_string(), move_window: false },
        &no_queries(),
    )
    .unwrap();
    assert_eq!(s.monitors[0].activities[0].last_workspace, Some(KWorkspace { x: 2, y: 1 }));
}

#[test]
fn next_activity_cycles_in_order() {
    let mut s = one_monitor_state("home:(1 1)");
    let plan = s
        .execute(Command::NextActivity { cycle: true, move_window: false }, &no_queries())
        .unwrap();
    assert_eq!(
        plan.actions[1],
        Action::FocusWorkspace { arg: "name:work:(1 1)".to_string() }
    );
}

#[test]
fn prev_activity_wraps_to_last() {
    let mut s = one_monitor_state("work:(1 1)");
    let plan = s
        .execute(Command::PrevActivity { cycle: true, move_window: false }, &no_queries())
        .unwrap();
    assert_eq!(
        plan.actions[1],
        Action::FocusWorkspace { arg: "name:home:(1 1)".to_string() }
    );
}

#[test]
fn named_focus_set_then_switch_returns_to_same_workspace() {
    let mut s = one_monitor_state("work:(2 1)");
    let plan = s
        .execute(Command::SetNamedFocus { name: "mark".to_string() }, &no_queries())
        .unwrap();
    assert!(plan.fire_info_event);
    assert!(plan.actions.is_empty());

    // the user wanders off; the compositor reports a new workspace
    let mut away = monitor(0, "eDP-1", true, "home:(3 3)");
    away.active_workspace_id = 10;
    s.update_monitors(&vec![away]);

    let plan = s
        .execute(
            Command::SwitchNamedFocus { name: "mark".to_string(), move_window: false },
            &no_queries(),
        )
        .unwrap();
    assert_eq!(plan.actions[0], Action::SetAnim { anim: Animation::Fade });
    assert_eq!(
        plan.actions.last().unwrap(),
        &Action::FocusWorkspace { arg: "name:work:(2 1)".to_string() }
    );
}

#[test]
fn setting_named_focus_twice_clears_it() {
    let mut s = one_monitor_state("work:(2 1)");
    s.execute(Command::SetNamedFocus { name: "mark".to_string() }, &no_queries()).unwrap();
    s.execute(Command::SetNamedFocus { name: "mark".to_string() }, &no_queries()).unwrap();
    let r = s.execute(
        Command::SwitchNamedFocus { name: "mark".to_string(), move_window: false },
        &no_queries(),
    );
    assert_eq!(r.unwrap_err(), KError::NoSuchNamedFocus);
}

#[test]
fn unknown_named_focus_is_an_error() {
    let mut s = one_monitor_state("work:(2 1)");
    let r = s.execute(
        Command::SwitchNamedFocus { name: "nope".to_string(), move_window: false },
        &no_queries(),
    );
    assert_eq!(r.unwrap_err(), KError::NoSuchNamedFocus);
}

#[test]
fn daemon_commands_cannot_run_against_state() {
    let mut s = one_monitor_state("work:(1 1)");
    let r = s.execute(Command::DaemonQuit, &no_queries());
    assert_eq!(r.unwrap_err(), KError::CannotRunHere);
    assert_eq!(KError::CannotRunHere.message(), "Can't run this command here");
}

#[test]
fn swap_validations() {
    let mut s = one_monitor_state("work:(1 1)");
    let r = s.execute(
        Command::SwapMonitorsActiveWorkspace {
            monitor_1: Some("a".to_string()),
            monitor_2: None,
            move_window: false,
        },
        &no_queries(),
    );
    assert_eq!(r.unwrap_err(), KError::MonitorNamesRequired);
    let r = s.execute(
        Command::SwapMonitorsActiveWorkspace { monitor_1: None, monitor_2: None, move_window: false },
        &no_queries(),
    );
    assert_eq!(r.unwrap_err(), KError::NotTwoMonitors);
    assert_eq!(
        KError::NotTwoMonitors.message(),
        "you don't have exactly 2 monitors. you must pass names of both monitors"
    );
}

#[test]
fn swap_two_monitors_moves_focused_to_other_workspace() {
    let config = test_config(&["work"], 2, 2);
    let monitors = vec![
        monitor(0, "eDP-1", true, "work:(1 1)"),
        monitor(1, "HDMI-1", false, "work:(2 2)"),
    ];
    let mut s = State::new(config, &monitors);
    let plan = s
        .execute(
            Command::SwapMonitorsActiveWorkspace {
                monitor_1: None,
                monitor_2: None,
                move_window: false,
            },
            &no_queries(),
        )
        .unwrap();
    assert_eq!(
        plan.actions.last().unwrap(),
        &Action::FocusWorkspace { arg: "name:work:(2 2)".to_string() }
    );
}

#[test]
fn switch_to_missing_monitor_is_an_error() {
    let mut s = one_monitor_state("work:(1 1)");
    let r = s.execute(
        Command::SwitchToMonitor { name: "HDMI-9".to_string(), move_window: false },
        &no_queries(),
    );
    assert_eq!(r.unwrap_err(), KError::MonitorNotFound);
}

#[test]
fn toggle_special_without_window_is_a_bare_toggle() {
    let mut s = one_monitor_state("work:(1 1)");
    let plan = s
        .execute(
            Command::ToggleSpecialWorkspace {
                name: "term".to_string(),
                move_window: false,
                silent: false,
            },
            &no_queries(),
        )
        .unwrap();
    assert_eq!(plan.actions.len(), 2);
    assert_eq!(plan.actions[1], Action::ToggleSpecial { name: "term".to_string() });
}

#[test]
fn toggle_special_pushes_window_onto_special() {
    let mut s = one_monitor_state("work:(1 1)");
    let w = WindowData {
        address: "0xabc".to_string(),
        workspace_id: 10,
        workspace_name: "work:(1 1)".to_string(),
        title: "t".to_string(),
        class: "c".to_string(),
        initial_title: "t".to_string(),
        focus_history_id: 0,
        fullscreen_beyond_max: false,
    };
    let q = QueryData { cursor: None, active_window: Some(Some(w)), clients: None };
    let plan = s
        .execute(
            Command::ToggleSpecialWorkspace {
                name: "term".to_string(),
                move_window: true,
                silent: false,
            },
            &q,
        )
        .unwrap();
    assert_eq!(plan.actions[1], Action::MoveWindowToSpecial { name: "term".to_string() });
    assert_eq!(plan.actions[2], Action::ToggleSpecial { name: "term".to_string() });
}

#[test]
fn focus_window_plans_one_action_per_match() {
    let mut s = one_monitor_state("work:(1 1)");
    let mk = |addr: &str| WindowData {
        address: addr.to_string(),
        workspace_id: 10,
        workspace_name: "work:(1 1)".to_string(),
        title: "t".to_string(),
        class: "c".to_string(),
        initial_title: "t".to_string(),
        focus_history_id: 1,
        fullscreen_beyond_max: false,
    };
    let q = QueryData {
        cursor: None,
        active_window: None,
        clients: Some(vec![mk("0x1"), mk("0x2"), mk("0x1")]),
    };
    let plan = s
        .execute(Command::FocusWindow { address: "0x1".to_string() }, &q)
        .unwrap();
    assert_eq!(plan.actions.len(), 2);
    assert_eq!(plan.actions[0], Action::FocusWindowByAddress { address: "0x1".to_string() });
}

#[test]
fn update_monitors_adds_removes_and_updates() {
    let config = test_config(&["work"], 2, 2);
    let monitors = vec![monitor(0, "eDP-1", true, "work:(1 1)")];
    let mut s = State::new(config, &monitors);
    s.monitors[0].activities[0].last_workspace = Some(KWorkspace { x: 2, y: 2 });

    let fresh = vec![
        monitor(0, "eDP-1", true, "work:(2 1)"),
        monitor(1, "HDMI-1", false, "work:(1 2)"),
    ];
    s.update_monitors(&fresh);
    assert_eq!(s.monitors.len(), 2);
    assert_eq!(s.monitors[0].monitor.active_workspace_name, "work:(2 1)");
    // activity memory of the kept monitor survives the refresh
    assert_eq!(s.monitors[0].activities[0].last_workspace, Some(KWorkspace { x: 2, y: 2 }));
    assert_eq!(s.monitors[1].monitor.name, "HDMI-1");
    assert!(s.monitors[1].activities[0].last_workspace.is_none());

    let fresh = vec![monitor(1, "HDMI-1", true, "work:(1 2)")];
    s.update_monitors(&fresh);
    assert_eq!(s.monitors.len(), 1);
    assert_eq!(s.monitors[0].monitor.name, "HDMI-1");
}

#[test]
fn new_monitor_gets_first_unoccupied_cell() {
    let config = test_config(&["work", "home"], 2, 2);
    let monitors = vec![
        monitor(0, "eDP-1", true, "work:(1 1)"),
        monitor(1, "HDMI-1", false, "somewhere"),
    ];
    let mut s = State::new(config, &monitors);
    let q = QueryData {
        cursor: Some(CursorPos { x: 7, y: 9 }),
        active_window: None,
        clients: None,
    };
    let acts = s.move_monitor_to_valid_activity("HDMI-1", false, &q).unwrap();
    // the new monitor is unfocused, so it is focused first, then sent
    // to the first free cell: work:(2 1), not eDP-1's work:(1 1)
    assert_eq!(acts[0], Action::FocusMonitorById { id: 1 });
    assert_eq!(acts[1], Action::FocusWorkspace { arg: "name:work:(2 1)".to_string() });
    assert_eq!(acts[2], Action::FocusMonitorByName { name: "eDP-1".to_string() });
    assert_eq!(acts[3], Action::MoveCursor { x: 7, y: 9 });
}

#[test]
fn monitor_already_on_activity_is_left_alone() {
    let config = test_config(&["work"], 2, 2);
    let monitors = vec![
        monitor(0, "eDP-1", true, "work:(1 1)"),
        monitor(1, "HDMI-1", false, "work:(2 1)"),
    ];
    let mut s = State::new(config, &monitors);
    let q = QueryData {
        cursor: Some(CursorPos { x: 0, y: 0 }),
        active_window: None,
        clients: None,
    };
    let acts = s.move_monitor_to_valid_activity("HDMI-1", false, &q).unwrap();
    assert!(acts.is_empty());
}

#[test]
fn tick_crossing_left_edge_wraps_and_repositions_cursor() {
    let mut s = one_monitor_state("work:(1 1)");
    s.config.daemon.mouse.edge_width = 0;
    s.config.daemon.mouse.edge_margin = 2;
    let q = QueryData {
        cursor: Some(CursorPos { x: 0, y: 50 }),
        active_window: Some(None),
        clients: None,
    };
    let acts = s.tick(&q, 100, 100).unwrap();
    assert_eq!(acts[0], Action::SetAnim { anim: Animation::Left });
    assert_eq!(acts[1], Action::FocusWorkspace { arg: "name:work:(3 1)".to_string() });
    assert_eq!(acts.last().unwrap(), &Action::MoveCursor { x: 98, y: 50 });
}

#[test]
fn tick_away_from_edges_does_nothing() {
    let mut s = one_monitor_state("work:(1 1)");
    let q = QueryData {
        cursor: Some(CursorPos { x: 50, y: 50 }),
        active_window: Some(None),
        clients: None,
    };
    let acts = s.tick(&q, 100, 100).unwrap();
    assert!(acts.is_empty());
}

#[test]
fn tick_disabled_does_nothing() {
    let mut s = one_monitor_state("work:(1 1)");
    s.config.daemon.mouse.switch_workspace_on_edge = false;
    let acts = s.tick(&no_queries(), 100, 100).unwrap();
    assert!(acts.is_empty());
}

#[test]
fn tick_fullscreen_blocks_the_move() {
    let mut s = one_monitor_state("work:(1 1)");
    let w = WindowData {
        address: "0x1".to_string(),
        workspace_id: 10,
        workspace_name: "work:(1 1)".to_string(),
        title: "t".to_string(),
        class: "c".to_string(),
        initial_title: "t".to_string(),
        focus_history_id: 0,
        fullscreen_beyond_max: true,
    };
    let q = QueryData {
        cursor: Some(CursorPos { x: 0, y: 50 }),
        active_window: Some(Some(w)),
        clients: None,
    };
    let acts = s.tick(&q, 100, 100).unwrap();
    assert!(acts.is_empty());
}

#[test]
fn next_monitor_cycles_to_the_other_monitor() {
    let config = test_config(&["work"], 2, 2);
    let monitors = vec![
        monitor(0, "eDP-1", true, "work:(1 1)"),
        monitor(1, "HDMI-1", false, "work:(2 2)"),
    ];
    let mut s = State::new(config, &monitors);
    let plan = s
        .execute(Command::NextMonitor { cycle: true, move_window: false }, &no_queries())
        .unwrap();
    assert_eq!(plan.actions[0], Action::SetAnim { anim: Animation::Fade });
    assert_eq!(plan.actions[1], Action::FocusMonitorByName { name: "HDMI-1".to_string() });
    // cycling backwards wraps to the same target
    let plan = s
        .execute(Command::PrevMonitor { cycle: true, move_window: false }, &no_queries())
        .unwrap();
    assert_eq!(plan.actions[1], Action::FocusMonitorByName { name: "HDMI-1".to_string() });
}

#[test]
fn switch_to_monitor_focuses_it() {
    let config = test_config(&["work"], 2, 2);
    let monitors = vec![
        monitor(0, "eDP-1", true, "work:(1 1)"),
        monitor(1, "HDMI-1", false, "work:(2 2)"),
    ];
    let mut s = State::new(config, &monitors);
    let plan = s
        .execute(
            Command::SwitchToMonitor { name: "HDMI-1".to_string(), move_window: false },
            &no_queries(),
        )
        .unwrap();
    assert_eq!(plan.actions.len(), 1);
    assert_eq!(plan.actions[0], Action::FocusMonitorByName { name: "HDMI-1".to_string() });
}

#[test]
fn swap_with_identical_names_is_a_no_op() {
    let mut s = one_monitor_state("work:(1 1)");
    let plan = s
        .execute(
            Command::SwapMonitorsActiveWorkspace {
                monitor_1: Some("eDP-1".to_string()),
                monitor_2: Some("eDP-1".to_string()),
                move_window: false,
            },
            &no_queries(),
        )
        .unwrap();
    assert!(plan.actions.is_empty());
}

#[test]
fn error_messages_match_their_variants() {
    assert_eq!(KError::NotInKoolWorkspace.message(), "not in a hyprkool workspace");
    assert_eq!(KError::NoMonitorFocused.message(), "no monitor focused :|");
    assert_eq!(KError::NoActiveWindow.message(), "No active window");
    assert_eq!(
        KError::MonitorNotFound.message(),
        "monitor with provided name does not exist"
    );
    assert_eq!(KError::NoSuchNamedFocus.message(), "no workspace set to the provided name");
    assert_eq!(
        KError::MonitorNamesRequired.message(),
        "you need to pass either no or both monitor names"
    );
}

#[test]
fn config_dims_are_validated() {
    let good = test_config(&["work"], 2, 2);
    assert!(good.dims_ok());
    let bad = test_config(&["work"], 0, 2);
    assert!(!bad.dims_ok());
    let defaulted = Config::default();
    assert!(defaulted.dims_ok());
    assert_eq!(defaulted.activities, vec!["default"]);
}

#[test]
fn first_time_activity_is_created_on_switch() {
    let mut s = one_monitor_state("work:(2 1)");
    let plan = s
        .execute(
            Command::SwitchToActivity { name: "code".to_string(), move_window: false },
            &no_queries(),
        )
        .unwrap();
    // the new activity has no memory: the current position carries over
    assert_eq!(
        plan.actions[1],
        Action::FocusWorkspace { arg: "name:code:(2 1)".to_string() }
    );
    // the activity is now tracked, on the list and on the monitor
    assert_eq!(s.config.activities, vec!["work", "home", "code"]);
    assert_eq!(s.monitors[0].activities.len(), 3);
    assert_eq!(s.monitors[0].activities[2].name, "code");
    assert!(s.monitors[0].activities[2].last_workspace.is_none());
}

#[test]
fn created_activity_remembers_positions() {
    let mut s = one_monitor_state("work:(2 1)");
    s.execute(
        Command::SwitchToActivity { name: "code".to_string(), move_window: false },
        &no_queries(),
    )
    .unwrap();
    // the compositor reports the monitor on the new activity, away
    // from the seed cell
    s.update_monitors(&vec![monitor(0, "eDP-1", true, "code:(3 3)")]);
    // switching away remembers the position under the new activity
    s.execute(
        Command::SwitchToActivity { name: "work".to_string(), move_window: false },
        &no_queries(),
    )
    .unwrap();
    assert_eq!(s.monitors[0].activities[2].last_workspace, Some(KWorkspace { x: 3, y: 3 }));
    // and returning restores it
    s.update_monitors(&vec![monitor(0, "eDP-1", true, "work:(2 1)")]);
    let plan = s
        .execute(
            Command::SwitchToActivity { name: "code".to_string(), move_window: false },
            &no_queries(),
        )
        .unwrap();
    assert_eq!(
        plan.actions[1],
        Action::FocusWorkspace { arg: "name:code:(3 3)".to_string() }
    );
}

#[test]
fn named_focus_is_not_stored_on_a_foreign_workspace() {
    let mut s = one_monitor_state("scratch");
    let r = s.execute(Command::SetNamedFocus { name: "mark".to_string() }, &no_queries());
    assert_eq!(r.unwrap_err(), KError::NotInKoolWorkspace);
    assert!(s.harpoon_map.entries.is_empty());
}

#[test]
fn bare_toggle_needs_no_focused_monitor() {
    let config = test_config(&["work"], 2, 2);
    let monitors = vec![monitor(0, "eDP-1", false, "work:(1 1)")];
    let mut s = State::new(config, &monitors);
    let plan = s
        .execute(
            Command::ToggleSpecialWorkspace {
                name: "term".to_string(),
                move_window: false,
                silent: false,
            },
            &no_queries(),
        )
        .unwrap();
    assert_eq!(plan.actions.len(), 2);
}

#[test]
fn disabled_tick_needs_no_focused_monitor() {
    let config = test_config(&["work"], 2, 2);
    let monitors = vec![monitor(0, "eDP-1", false, "work:(1 1)")];
    let mut s = State::new(config, &monitors);
    s.config.daemon.mouse.switch_workspace_on_edge = false;
    let acts = s.tick(&no_queries(), 100, 100).unwrap();
    assert!(acts.is_empty());
}
