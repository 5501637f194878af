//! Tests of the placement engine: compaction, float mode, drag-time
//! conflict resolution, and the best-position search.

use nodus_engine::find_best_position;
use nodus_engine::optimize_layout;
use nodus_engine::resolve_conflicts;
use nodus_engine::GridConfig;
use nodus_engine::OccupiedGrid;
use nodus_engine::Position;
use nodus_engine::Widget;
use nodus_engine::MAX_SEARCH_ROWS;

fn widget(id: &str, x: i32, y: i32, w: i32, h: i32, locked: bool) -> Widget {
    Widget {
        id: id.to_string(),
        position: Position { x, y, w, h },
        locked,
        is_dragged: false,
        original_position: None,
    }
}

fn config(columns: i32, float: bool) -> GridConfig {
    GridConfig { columns, gap: 0, float, static_grid: false }
}

#[test]
fn compacts_single_widget_to_top() {
    let widgets = vec![widget("a", 0, 5, 4, 2, false)];
    let out = optimize_layout(&widgets, &config(12, false));
    assert_eq!(out.len(), 1);
    assert_eq!(out[0].id, "a");
    assert_eq!(out[0].position, Position { x: 0, y: 0, w: 4, h: 2 });
}

#[test]
fn locked_widget_blocks_compaction() {
    let widgets = vec![
        widget("lock", 0, 0, 4, 2, true),
        widget("b", 0, 5, 4, 2, false),
    ];
    let out = optimize_layout(&widgets, &config(12, false));
    assert_eq!(out.len(), 2);
    let lock = out.iter().find(|w| w.id == "lock").unwrap();
    let b = out.iter().find(|w| w.id == "b").unwrap();
    assert_eq!(lock.position, Position { x: 0, y: 0, w: 4, h: 2 });
    assert_eq!(b.position, Position { x: 0, y: 2, w: 4, h: 2 });
}

#[test]
fn float_mode_clamps_x_keeps_y() {
    let widgets = vec![widget("c", 5, 3, 4, 2, false)];
    let out = optimize_layout(&widgets, &config(6, true));
    assert_eq!(out.len(), 1);
    assert_eq!(out[0].position, Position { x: 2, y: 3, w: 4, h: 2 });
}

#[test]
fn float_mode_raises_negative_coordinates() {
    let widgets = vec![widget("n", -3, -7, 2, 2, false)];
    let out = optimize_layout(&widgets, &config(8, true));
    assert_eq!(out[0].position, Position { x: 0, y: 0, w: 2, h: 2 });
}

#[test]
fn float_mode_leaves_locked_widgets_alone() {
    let widgets = vec![widget("l", -3, -7, 2, 2, true)];
    let out = optimize_layout(&widgets, &config(8, true));
    assert_eq!(out[0].position, Position { x: -3, y: -7, w: 2, h: 2 });
}

#[test]
fn drag_pushes_overlapping_widget_below() {
    let widgets = vec![
        widget("d", 0, 0, 4, 2, false),
        widget("e", 0, 0, 4, 2, false),
    ];
    let out = resolve_conflicts(&widgets, &config(12, false), "d".to_string());
    assert_eq!(out.len(), 2);
    assert_eq!(out[0].id, "d");
    assert_eq!(out[0].position, Position { x: 0, y: 0, w: 4, h: 2 });
    assert!(out[0].is_dragged);
    assert_eq!(out[1].id, "e");
    assert_eq!(out[1].position, Position { x: 0, y: 2, w: 4, h: 2 });
}

#[test]
fn best_position_first_free_slot_in_row() {
    let widgets = vec![widget("w", 0, 0, 4, 2, false)];
    let new_widget = widget("new", 0, 0, 4, 2, false);
    let pos = find_best_position(&widgets, &new_widget, &config(8, false));
    assert_eq!(pos, Position { x: 4, y: 0, w: 4, h: 2 });
}

#[test]
fn best_position_on_empty_grid_is_origin() {
    let widgets: Vec<Widget> = Vec::new();
    let new_widget = widget("new", 3, 7, 2, 2, false);
    let pos = find_best_position(&widgets, &new_widget, &config(12, false));
    assert_eq!(pos, Position { x: 0, y: 0, w: 2, h: 2 });
}

#[test]
fn best_position_falls_back_when_nothing_fits() {
    let widgets: Vec<Widget> = Vec::new();
    let new_widget = widget("wide", 0, 0, 2, 1, false);
    let pos = find_best_position(&widgets, &new_widget, &config(1, false));
    assert_eq!(pos, Position { x: 0, y: MAX_SEARCH_ROWS, w: 2, h: 1 });
}

#[test]
fn missing_drag_id_falls_back_to_optimize() {
    let widgets = vec![
        widget("a", 0, 5, 4, 2, false),
        widget("b", 4, 3, 4, 2, false),
    ];
    let cfg = config(12, false);
    let resolved = resolve_conflicts(&widgets, &cfg, "nonexistent".to_string());
    let optimized = optimize_layout(&widgets, &cfg);
    assert_eq!(resolved.len(), optimized.len());
    for (r, o) in resolved.iter().zip(optimized.iter()) {
        assert_eq!(r.id, o.id);
        assert_eq!(r.position, o.position);
        assert_eq!(r.locked, o.locked);
    }
}

#[test]
fn optimize_positions_are_stable_under_second_pass() {
    let widgets = vec![
        widget("a", 0, 5, 4, 2, false),
        widget("b", 4, 1, 4, 2, false),
        widget("c", 0, 9, 6, 1, false),
        widget("l", 4, 4, 2, 2, true),
    ];
    let cfg = config(12, false);
    let once = optimize_layout(&widgets, &cfg);
    let twice = optimize_layout(&once, &cfg);
    assert_eq!(once.len(), twice.len());
    for w in &once {
        let again = twice.iter().find(|v| v.id == w.id).unwrap();
        assert_eq!(again.position, w.position, "widget {} moved on second pass", w.id);
    }
}

#[test]
fn optimize_output_has_no_overlaps() {
    let widgets = vec![
        widget("a", 0, 6, 4, 2, false),
        widget("b", 4, 6, 4, 2, false),
        widget("c", 0, 3, 8, 2, false),
        widget("l", 2, 0, 4, 2, true),
    ];
    let out = optimize_layout(&widgets, &config(12, false));
    for i in 0..out.len() {
        for j in 0..out.len() {
            if i != j {
                let a = &out[i].position;
                let b = &out[j].position;
                let apart = a.x >= b.x + b.w
                    || a.x + a.w <= b.x
                    || a.y >= b.y + b.h
                    || a.y + a.h <= b.y;
                assert!(apart, "{} overlaps {}", out[i].id, out[j].id);
            }
        }
    }
}

#[test]
fn compaction_sorts_by_row_then_column() {
    let widgets = vec![
        widget("right", 6, 0, 2, 1, false),
        widget("low", 0, 4, 2, 1, false),
        widget("left", 0, 0, 2, 1, false),
    ];
    let out = optimize_layout(&widgets, &config(12, false));
    let ids: Vec<&str> = out.iter().map(|w| w.id.as_str()).collect();
    assert_eq!(ids, vec!["left", "right", "low"]);
}

#[test]
fn resolver_keeps_input_order_and_locked_positions() {
    let widgets = vec![
        widget("e", 0, 4, 4, 2, false),
        widget("lock", 4, 0, 4, 2, true),
        widget("d", 0, 0, 4, 2, false),
    ];
    let out = resolve_conflicts(&widgets, &config(12, false), "d".to_string());
    let ids: Vec<&str> = out.iter().map(|w| w.id.as_str()).collect();
    assert_eq!(ids, vec!["e", "lock", "d"]);
    assert_eq!(out[1].position, Position { x: 4, y: 0, w: 4, h: 2 });
    assert_eq!(out[2].position, Position { x: 0, y: 0, w: 4, h: 2 });
    // e does not overlap the dragged widget, so it settles below it.
    assert_eq!(out[0].position, Position { x: 0, y: 2, w: 4, h: 2 });
}

#[test]
fn push_never_pulls_a_widget_up() {
    let widgets = vec![
        widget("d", 0, 4, 4, 4, false),
        widget("far", 0, 20, 4, 2, false),
    ];
    let out = resolve_conflicts(&widgets, &config(12, false), "d".to_string());
    let far = out.iter().find(|w| w.id == "far").unwrap();
    // "far" does not overlap the dragged widget; compaction settles it
    // just below the dragged footprint, never above its pushed row.
    assert_eq!(far.position, Position { x: 0, y: 8, w: 4, h: 2 });
}

#[test]
fn collision_predicate_truth_table() {
    let a = Position { x: 0, y: 0, w: 4, h: 2 };
    let touching = Position { x: 4, y: 0, w: 4, h: 2 };
    let overlapping = Position { x: 3, y: 1, w: 4, h: 2 };
    let below = Position { x: 0, y: 2, w: 4, h: 2 };
    assert!(!nodus_engine::blocks_collide(&a, &touching));
    assert!(nodus_engine::blocks_collide(&a, &overlapping));
    assert!(!nodus_engine::blocks_collide(&a, &below));
    assert!(nodus_engine::blocks_collide(&a, &a));
}

#[test]
fn occupancy_tracker_place_and_register() {
    let mut grid = OccupiedGrid::new(8);
    let p = Position { x: 0, y: 0, w: 4, h: 2 };
    assert!(grid.can_place_at(&p));
    grid.register_occupied(&p);
    assert!(!grid.can_place_at(&p));
    // Registering twice is harmless.
    grid.register_occupied(&p);
    let beside = Position { x: 4, y: 0, w: 4, h: 2 };
    assert!(grid.can_place_at(&beside));
    let out_of_bounds = Position { x: 6, y: 0, w: 4, h: 2 };
    assert!(!grid.can_place_at(&out_of_bounds));
    let negative = Position { x: -1, y: 0, w: 2, h: 2 };
    assert!(!grid.can_place_at(&negative));
}

#[test]
fn find_highest_position_stops_at_obstacle() {
    let mut grid = OccupiedGrid::new(12);
    grid.register_occupied(&Position { x: 0, y: 0, w: 4, h: 2 });
    let pulled = grid.find_highest_position(Position { x: 0, y: 7, w: 4, h: 2 });
    assert_eq!(pulled, Position { x: 0, y: 2, w: 4, h: 2 });
    let clear = grid.find_highest_position(Position { x: 4, y: 7, w: 4, h: 2 });
    assert_eq!(clear, Position { x: 4, y: 0, w: 4, h: 2 });
}

#[test]
fn optimize_empty_list_is_empty() {
    let widgets: Vec<Widget> = Vec::new();
    let out = optimize_layout(&widgets, &config(12, false));
    assert!(out.is_empty());
}
