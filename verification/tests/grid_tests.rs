use hyprkool::digits::{fmt_i32, fmt_u32, parse_i32};
use hyprkool::grid::{translate, KActivity, KWorkspace};

#[test]
fn format_simple_name() {
    let ws = KWorkspace { x: 2, y: 1 };
    assert_eq!(ws.name("work"), "work:(2 1)");
}

#[test]
fn round_trip_name() {
    let ws = KWorkspace { x: 2, y: 1 };
    let name = ws.name("work");
    assert_eq!(KWorkspace::from_ws_name(&name), Some(ws));
    let a = KActivity::from_ws_name(&name).unwrap();
    assert_eq!(a.name, "work");
    assert!(a.last_workspace.is_none());
}

#[test]
fn round_trip_negative_coordinates() {
    let ws = KWorkspace { x: -7, y: 42 };
    let name = ws.name("odd");
    assert_eq!(name, "odd:(-7 42)");
    assert_eq!(KWorkspace::from_ws_name(&name), Some(ws));
}

#[test]
fn round_trip_extreme_coordinates() {
    let ws = KWorkspace { x: i32::MIN, y: i32::MAX };
    let name = ws.name("edge");
    assert_eq!(KWorkspace::from_ws_name(&name), Some(ws));
}

#[test]
fn overview_suffix_is_ignored() {
    assert_eq!(
        KWorkspace::from_ws_name("work:(2 1):overview"),
        Some(KWorkspace { x: 2, y: 1 })
    );
    assert_eq!(KActivity::from_ws_name("work:(2 1):overview").unwrap().name, "work");
}

#[test]
fn foreign_names_parse_to_none() {
    assert!(KWorkspace::from_ws_name("scratch").is_none());
    assert!(KWorkspace::from_ws_name("a:(x y)").is_none());
    assert!(KWorkspace::from_ws_name("a:(1 2").is_none());
    assert!(KWorkspace::from_ws_name("a:1 2)").is_none());
    assert!(KWorkspace::from_ws_name("a:()").is_none());
    assert!(KWorkspace::from_ws_name("a:(12)").is_none());
    assert!(KActivity::from_ws_name("scratch").is_none());
}

#[test]
fn overflowing_coordinate_parses_to_none() {
    assert!(KWorkspace::from_ws_name("a:(99999999999 1)").is_none());
    assert!(KWorkspace::from_ws_name("a:(2147483648 1)").is_none());
    assert!(KWorkspace::from_ws_name("a:(-2147483648 1)").is_some());
}

#[test]
fn parse_i32_matches_std() {
    for s in ["", "+", "-", "12", "+12", "-12", "0012", "2147483647", "2147483648",
        "-2147483648", "-2147483649", "1a", " 1", "1 "] {
        assert_eq!(parse_i32(s), s.parse::<i32>().ok(), "input {:?}", s);
    }
}

#[test]
fn fmt_matches_std() {
    for v in [0i32, 5, -5, 120, i32::MIN, i32::MAX] {
        assert_eq!(fmt_i32(v), v.to_string());
    }
    assert_eq!(fmt_u32(0), "0");
    assert_eq!(fmt_u32(4294967295), "4294967295");
}

#[test]
fn wrap_left_from_first_column() {
    let r = translate(KWorkspace { x: 1, y: 1 }, true, -1, 0, 3, 3);
    assert_eq!(r, KWorkspace { x: 3, y: 1 });
}

#[test]
fn clamp_left_from_first_column_stays() {
    let r = translate(KWorkspace { x: 1, y: 1 }, false, -1, 0, 3, 3);
    assert_eq!(r, KWorkspace { x: 1, y: 1 });
}

#[test]
fn wrap_full_cycle_returns_to_start() {
    let start = KWorkspace { x: 2, y: 3 };
    let mut p = start;
    for _ in 0..3 {
        p = translate(p, true, 1, 0, 3, 4);
    }
    assert_eq!(p, start);
    let mut p = start;
    for _ in 0..4 {
        p = translate(p, true, 0, -1, 3, 4);
    }
    assert_eq!(p, start);
}

#[test]
fn one_step_then_back_returns_to_start() {
    let start = KWorkspace { x: 2, y: 2 };
    let there = translate(start, true, 1, 0, 3, 3);
    assert_eq!(translate(there, true, -1, 0, 3, 3), start);
    let there = translate(start, false, 1, 0, 3, 3);
    assert_eq!(translate(there, false, -1, 0, 3, 3), start);
}

#[test]
fn clamped_step_loses_the_start() {
    // from the edge, a clamped step forward stays put, so stepping
    // back afterwards lands one short of the start
    let start = KWorkspace { x: 3, y: 1 };
    let there = translate(start, false, 1, 0, 3, 3);
    assert_eq!(there, start);
    assert_eq!(translate(there, false, -1, 0, 3, 3), KWorkspace { x: 2, y: 1 });
}
