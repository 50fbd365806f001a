use gcode_viewer::gcode_parser::{resolve_words, AxisWord, GCodeParser};
use gcode_viewer::gcode_render::SegmentRange;

fn w(letter: char, value: f32) -> AxisWord<f32> {
    AxisWord { letter, value }
}

fn seg(start_vertex: u32, end_vertex: u32, start_index: u32) -> SegmentRange {
    SegmentRange { start_vertex, end_vertex, start_index }
}

/// Applies a move, extruding or travelling as `extrudes` says.
fn step(p: &mut GCodeParser<f32>, words: &[AxisWord<f32>], extrudes: bool) {
    assert!(p.has_room_for_move(extrudes));
    p.move_command(&words.to_vec(), extrudes, false);
}

#[test]
fn new_parser_is_at_origin_with_nothing_loaded() {
    let p: GCodeParser<f32> = GCodeParser::default();
    assert!(p.render_data.points.is_empty());
    assert!(p.render_data.segment_ranges.is_empty());
    assert_eq!(p.render_data.vertex_count, 0);
    assert_eq!(p.render_data.index_count, 0);
    assert_eq!(p.current_pos(), [0.0, 0.0, 0.0]);
    assert_eq!(p.extruder_pos(), 0.0);
    assert_eq!(p.current_point(), 0);
    assert_eq!(p.current_segment(), seg(0, 0, 0));
    assert!(!p.end_line());
}

#[test]
fn machine_axes_map_to_render_axes() {
    let (cmd, pos) = resolve_words(&vec![w('X', 1.0), w('Y', 2.0), w('Z', 3.0)], 0.0, [9.0, 9.0, 9.0]);
    assert_eq!((cmd.x, cmd.y, cmd.z, cmd.e, cmd.f), (1.0, 2.0, 3.0, 0.0, 0.0));
    assert_eq!(pos, [1.0, 3.0, 2.0]);
}

#[test]
fn absent_axes_keep_position_and_read_as_zero() {
    let (cmd, pos) = resolve_words(&vec![w('E', 0.5), w('F', 1500.0)], 0.0, [4.0, 5.0, 6.0]);
    assert_eq!((cmd.x, cmd.y, cmd.z, cmd.e, cmd.f), (0.0, 0.0, 0.0, 0.5, 1500.0));
    assert_eq!(pos, [4.0, 5.0, 6.0]);
}

#[test]
fn last_word_for_an_axis_wins_and_unknown_letters_are_ignored() {
    let (cmd, pos) = resolve_words(&vec![w('X', 1.0), w('S', 7.0), w('X', 2.0), w('x', 3.0)], 0.0, [0.0; 3]);
    assert_eq!(cmd.x, 2.0);
    assert_eq!(pos, [2.0, 0.0, 0.0]);
}

#[test]
fn each_move_adds_a_point_at_the_new_position() {
    let mut p: GCodeParser<f32> = GCodeParser::default();
    step(&mut p, &[w('X', 1.0), w('Y', 2.0)], false);
    step(&mut p, &[w('Z', 0.3)], true);
    let pts: Vec<[f32; 3]> = p.render_data.points.iter().map(|q| q.p).collect();
    assert_eq!(pts, vec![[1.0, 0.0, 2.0], [1.0, 0.3, 2.0]]);
    assert!(p.render_data.points.iter().all(|q| q._padding == 0.0));
    assert_eq!(p.render_data.vertex_count, 8);
    assert_eq!(p.current_point(), 2);
}

#[test]
fn travel_moves_close_segments_and_extruding_moves_add_indices() {
    let mut p: GCodeParser<f32> = GCodeParser::default();
    step(&mut p, &[w('X', 1.0)], false); // point 0: travel
    step(&mut p, &[w('X', 2.0)], true); // point 1
    step(&mut p, &[w('X', 3.0)], true); // point 2
    step(&mut p, &[w('X', 4.0)], false); // point 3: travel
    step(&mut p, &[w('X', 5.0)], true); // point 4
    assert_eq!(p.render_data.segment_ranges, vec![seg(0, 0, 0), seg(0, 3, 0)]);
    assert_eq!(p.current_segment(), seg(3, 0, 12));
    assert_eq!(p.render_data.index_count, 18);
    assert_eq!(p.render_data.vertex_count, 20);
    assert!(!p.end_line());
}

#[test]
fn counts_stay_consistent_over_a_long_run() {
    let mut p: GCodeParser<f32> = GCodeParser::default();
    let mut travels = 0u32;
    for i in 0..100u32 {
        let extrudes = i % 7 != 0;
        if !extrudes {
            travels += 1;
        }
        step(&mut p, &[w('X', i as f32)], extrudes);
        let n = p.render_data.points.len() as u32;
        assert_eq!(p.render_data.vertex_count, 4 * n);
        assert_eq!(p.current_point(), n);
        assert_eq!(p.render_data.segment_ranges.len() as u32, travels);
        assert_eq!(p.render_data.index_count, 6 * (n - travels));
    }
}

#[test]
fn segments_lie_end_to_end() {
    let mut p: GCodeParser<f32> = GCodeParser::default();
    let pattern = [true, true, false, true, false, false, true, true, true, false, true];
    for (i, e) in pattern.iter().enumerate() {
        step(&mut p, &[w('Y', i as f32)], *e);
    }
    let mut chain = p.render_data.segment_ranges.clone();
    chain.push(p.current_segment());
    assert_eq!(chain[0].start_vertex, 0);
    assert_eq!(chain[0].start_index, 0);
    for k in 0..p.render_data.segment_ranges.len() {
        let closed = chain[k];
        assert_eq!(chain[k + 1].start_vertex, closed.end_vertex);
        assert_eq!(chain[k + 1].start_index, 6 * (closed.end_vertex + 1 - (k as u32 + 1)));
        assert!(closed.start_vertex <= closed.end_vertex);
        assert!(chain[k].start_index <= chain[k + 1].start_index);
    }
    assert_eq!(
        p.render_data.segment_ranges,
        vec![seg(0, 2, 0), seg(2, 4, 12), seg(4, 5, 18), seg(5, 9, 18)]
    );
    assert_eq!(p.current_segment(), seg(9, 0, 36));
    assert!(p.current_segment().start_index <= p.render_data.index_count);
}

#[test]
fn travel_move_ends_the_line() {
    let mut p: GCodeParser<f32> = GCodeParser::default();
    step(&mut p, &[], false);
    assert!(p.end_line());
    step(&mut p, &[], true);
    assert!(!p.end_line());
}

#[test]
fn extruder_position_follows_advancing_moves_only() {
    let mut p: GCodeParser<f32> = GCodeParser::default();
    p.move_command(&vec![w('E', 1.5)], true, true);
    assert_eq!(p.extruder_pos(), 1.5);
    p.move_command(&vec![w('E', 0.5)], true, false);
    assert_eq!(p.extruder_pos(), 1.5);
    p.move_command(&vec![w('X', 1.0)], true, true);
    assert_eq!(p.extruder_pos(), 0.0);
}

#[test]
fn resolve_move_uses_the_parser_zero() {
    let p: GCodeParser<f32> = GCodeParser::default();
    let cmd = p.resolve_move(&vec![w('Y', 4.0)]);
    assert_eq!((cmd.x, cmd.y, cmd.z, cmd.e, cmd.f), (0.0, 4.0, 0.0, 0.0, 0.0));
}

#[test]
fn begin_load_drops_render_data_but_keeps_position() {
    let mut p: GCodeParser<f32> = GCodeParser::default();
    step(&mut p, &[w('X', 3.0), w('Y', 4.0)], false);
    step(&mut p, &[w('Z', 1.0)], true);
    p.begin_load();
    assert!(p.render_data.points.is_empty());
    assert!(p.render_data.segment_ranges.is_empty());
    assert_eq!(p.render_data.vertex_count, 0);
    assert_eq!(p.render_data.index_count, 0);
    assert_eq!(p.current_point(), 0);
    assert_eq!(p.current_pos(), [3.0, 1.0, 4.0]);
    assert_eq!(p.current_segment(), seg(0, 0, 0));
}

#[test]
fn reload_keeps_the_open_segment_of_the_previous_file() {
    let mut p: GCodeParser<f32> = GCodeParser::default();
    step(&mut p, &[], true);
    step(&mut p, &[], false);
    step(&mut p, &[], true);
    assert_eq!(p.current_segment(), seg(1, 0, 6));
    p.begin_load();
    step(&mut p, &[], false);
    assert_eq!(p.render_data.segment_ranges, vec![seg(1, 0, 6)]);
}

#[test]
fn room_for_move_is_reported() {
    let p: GCodeParser<f32> = GCodeParser::default();
    assert!(p.has_room_for_move(true));
    assert!(p.has_room_for_move(false));
}

#[test]
fn integer_coordinates_work_too() {
    let mut p: GCodeParser<i64> = GCodeParser::default();
    p.move_command(&vec![AxisWord { letter: 'X', value: 10 }, AxisWord { letter: 'Z', value: 2 }], false, false);
    assert_eq!(p.current_pos(), [10, 2, 0]);
    assert_eq!(p.render_data.points[0].p, [10, 2, 0]);
}

#[test]
fn render_data_getter_shows_the_loaded_geometry() {
    let mut p: GCodeParser<u32> = GCodeParser::default();
    p.move_command(&vec![AxisWord { letter: 'X', value: 10 }, AxisWord { letter: 'Y', value: 20 }], true, false);
    p.move_command(&vec![AxisWord { letter: 'Z', value: 5 }], false, false);
    let data = p.render_data();
    assert_eq!(data.points.len(), 2);
    assert_eq!(data.points[0].p, [10, 0, 20]);
    assert_eq!(data.points[0]._padding, 0);
    assert_eq!(data.points[1].p, [10, 5, 20]);
    assert_eq!(data.vertex_count, 8);
    assert_eq!(data.index_count, 6);
    assert_eq!(data.segment_ranges, vec![seg(0, 1, 0)]);
}
