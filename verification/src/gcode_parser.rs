//! The G-code parser's state machine. Coordinates are values of a type `V`
//! that the parser stores and moves but never computes with: reading a value
//! from text and comparing values is left to the caller, which tells the
//! parser what it decided.

use vstd::prelude::*;
use crate::gcode_render::{GCodeRenderData, Point, SegmentRange};

verus! {

/// One word of a move whose value has been read: its axis letter and value.
#[derive(Clone, Copy, Debug)]
pub struct AxisWord<V> {
    pub letter: char,
    pub value: V,
}

/// The values a move gives each axis (`zero` where the move names none).
#[derive(Clone, Copy, Debug)]
pub struct MoveCommand<V> {
    pub x: V,
    pub y: V,
    pub z: V,
    pub e: V,
    pub f: V,
}

/// The value of the last word of `words` with letter `letter`, or `default`
/// when no word has that letter.
pub open spec fn last_value<V>(words: Seq<AxisWord<V>>, letter: char, default: V) -> V
    decreases words.len(),
{
    if words.len() == 0 {
        default
    } else if words.last().letter == letter {
        words.last().value
    } else {
        last_value(words.drop_last(), letter, default)
    }
}

/// The command that the words of a move give, with `zero` for absent axes.
pub open spec fn command_of<V>(words: Seq<AxisWord<V>>, zero: V) -> MoveCommand<V> {
    MoveCommand {
        x: last_value(words, 'X', zero),
        y: last_value(words, 'Y', zero),
        z: last_value(words, 'Z', zero),
        e: last_value(words, 'E', zero),
        f: last_value(words, 'F', zero),
    }
}

/// The render-space position after a move from `pos`: machine X goes to
/// coordinate 0, machine Z to coordinate 1 (up) and machine Y to coordinate 2;
/// an axis the move does not name keeps its coordinate.
pub open spec fn position_after<V>(words: Seq<AxisWord<V>>, pos: Seq<V>) -> Seq<V> {
    seq![
        last_value(words, 'X', pos[0]),
        last_value(words, 'Z', pos[1]),
        last_value(words, 'Y', pos[2]),
    ]
}

/// Word `i` of `words` has letter `letter` and no later word has it.
pub open spec fn is_last_word_with<V>(words: Seq<AxisWord<V>>, i: int, letter: char) -> bool {
    &&& 0 <= i < words.len()
    &&& words[i].letter == letter
    &&& forall|j: int| i < j < words.len() ==> (#[trigger] words[j]).letter != letter
}

/// No word of `words` has letter `letter`.
pub open spec fn names_no<V>(words: Seq<AxisWord<V>>, letter: char) -> bool {
    forall|j: int| 0 <= j < words.len() ==> (#[trigger] words[j]).letter != letter
}

/// `v` is what `words` give for `letter`: the value of the last word with that
/// letter, or `default` when no word has it. Words with other letters play no
/// part.
pub open spec fn reads_as<V>(words: Seq<AxisWord<V>>, letter: char, default: V, v: V) -> bool {
    &&& names_no(words, letter) ==> v == default
    &&& forall|i: int| #[trigger] is_last_word_with(words, i, letter) ==> v == words[i].value
}

/// The last word with a letter decides its value, and a move without such a
/// word gives the default.
pub proof fn lemma_last_value_reads<V>(words: Seq<AxisWord<V>>, letter: char, default: V)
    ensures
        reads_as(words, letter, default, last_value(words, letter, default)),
    decreases words.len(),
{
    if words.len() > 0 {
        let prev = words.drop_last();
        lemma_last_value_reads(prev, letter, default);
        let n = words.len() - 1;
        if words.last().letter != letter {
            if names_no(words, letter) {
                assert forall|j: int| 0 <= j < prev.len() implies (#[trigger] prev[j]).letter != letter by {
                    assert(prev[j] == words[j]);
                }
            }
            assert forall|i: int| #[trigger] is_last_word_with(words, i, letter) implies last_value(
                words,
                letter,
                default,
            ) == words[i].value by {
                assert(i != n);
                assert(prev[i] == words[i]);
                assert forall|j: int| i < j < prev.len() implies (#[trigger] prev[j]).letter != letter by {
                    assert(prev[j] == words[j]);
                }
                assert(is_last_word_with(prev, i, letter));
            }
        } else {
            assert(!names_no(words, letter)) by {
                assert(words[n].letter == letter);
            }
            assert forall|i: int| #[trigger] is_last_word_with(words, i, letter) implies last_value(
                words,
                letter,
                default,
            ) == words[i].value by {
                if i < n {
                    assert(words[n].letter != letter);
                }
            }
        }
    }
}

/// A move's command takes each axis from the last word with that axis letter,
/// and zero for an axis no word names; the new position takes machine X to
/// coordinate 0, Z to 1 and Y to 2, and keeps a coordinate whose axis no word
/// names. In particular a word never sets another letter's value.
pub proof fn lemma_move_reads_words<V>(words: Seq<AxisWord<V>>, zero: V, pos: Seq<V>)
    ensures
        reads_as(words, 'X', zero, command_of(words, zero).x),
        reads_as(words, 'Y', zero, command_of(words, zero).y),
        reads_as(words, 'Z', zero, command_of(words, zero).z),
        reads_as(words, 'E', zero, command_of(words, zero).e),
        reads_as(words, 'F', zero, command_of(words, zero).f),
        position_after(words, pos).len() == 3,
        reads_as(words, 'X', pos[0], position_after(words, pos)[0]),
        reads_as(words, 'Z', pos[1], position_after(words, pos)[1]),
        reads_as(words, 'Y', pos[2], position_after(words, pos)[2]),
{
    lemma_last_value_reads(words, 'X', zero);
    lemma_last_value_reads(words, 'Y', zero);
    lemma_last_value_reads(words, 'Z', zero);
    lemma_last_value_reads(words, 'E', zero);
    lemma_last_value_reads(words, 'F', zero);
    lemma_last_value_reads(words, 'X', pos[0]);
    lemma_last_value_reads(words, 'Z', pos[1]);
    lemma_last_value_reads(words, 'Y', pos[2]);
}

proof fn lemma_last_value_step<V>(words: Seq<AxisWord<V>>, i: int, letter: char, default: V)
    requires
        0 <= i < words.len(),
    ensures
        last_value(words.take(i + 1), letter, default) == if words[i].letter == letter {
            words[i].value
        } else {
            last_value(words.take(i), letter, default)
        },
{
    assert(words.take(i + 1).drop_last() =~= words.take(i));
}

/// The command that `words` give and the position `pos` moves to.
pub fn resolve_words<V: Copy>(words: &Vec<AxisWord<V>>, zero: V, pos: [V; 3]) -> (r: (
    MoveCommand<V>,
    [V; 3],
))
    ensures
        r.0 == command_of(words@, zero),
        r.1@ == position_after(words@, pos@),
        reads_as(words@, 'X', zero, r.0.x),
        reads_as(words@, 'Y', zero, r.0.y),
        reads_as(words@, 'Z', zero, r.0.z),
        reads_as(words@, 'E', zero, r.0.e),
        reads_as(words@, 'F', zero, r.0.f),
        reads_as(words@, 'X', pos@[0], r.1@[0]),
        reads_as(words@, 'Z', pos@[1], r.1@[1]),
        reads_as(words@, 'Y', pos@[2], r.1@[2]),
{
    let mut x = zero;
    let mut y = zero;
    let mut z = zero;
    let mut e = zero;
    let mut f = zero;
    let mut p0 = pos[0];
    let mut p1 = pos[1];
    let mut p2 = pos[2];
    let mut i: usize = 0;
    assert(words@.take(0) =~= Seq::<AxisWord<V>>::empty());
    while i < words.len()
        invariant
            i <= words@.len(),
            x == last_value(words@.take(i as int), 'X', zero),
            y == last_value(words@.take(i as int), 'Y', zero),
            z == last_value(words@.take(i as int), 'Z', zero),
            e == last_value(words@.take(i as int), 'E', zero),
            f == last_value(words@.take(i as int), 'F', zero),
            p0 == last_value(words@.take(i as int), 'X', pos@[0]),
            p1 == last_value(words@.take(i as int), 'Z', pos@[1]),
            p2 == last_value(words@.take(i as int), 'Y', pos@[2]),
        decreases words@.len() - i,
    {
        let w = words[i];
        proof {
            lemma_last_value_step(words@, i as int, 'X', zero);
            lemma_last_value_step(words@, i as int, 'Y', zero);
            lemma_last_value_step(words@, i as int, 'Z', zero);
            lemma_last_value_step(words@, i as int, 'E', zero);
            lemma_last_value_step(words@, i as int, 'F', zero);
            lemma_last_value_step(words@, i as int, 'X', pos@[0]);
            lemma_last_value_step(words@, i as int, 'Z', pos@[1]);
            lemma_last_value_step(words@, i as int, 'Y', pos@[2]);
        }
        if w.letter == 'X' {
            x = w.value;
            p0 = w.value;
        } else if w.letter == 'Y' {
            y = w.value;
            p2 = w.value;
        } else if w.letter == 'Z' {
            z = w.value;
            p1 = w.value;
        } else if w.letter == 'E' {
            e = w.value;
        } else if w.letter == 'F' {
            f = w.value;
        }
        i = i + 1;
    }
    assert(words@.take(i as int) =~= words@);
    let r = [p0, p1, p2];
    assert(r@ =~= position_after(words@, pos@));
    proof {
        lemma_move_reads_words(words@, zero, pos@);
    }
    (MoveCommand { x, y, z, e, f }, r)
}


/// Reads G-code moves into render data.
///
/// The parser tracks the tool position, the extruder position, and the open
/// segment: the run of extruding moves that started at the last travel move.
/// Each move adds one point (four vertices); an extruding move adds six
/// indices, and a travel move closes the open segment at its own point and
/// opens the next one there.
pub struct GCodeParser<V> {
    raw_file: Vec<u8>,
    pub render_data: GCodeRenderData<V>,
    axis_absolute: bool,
    extruder_absolute: bool,
    current_pos: [V; 3],
    extruder_pos: V,
    end_line: bool,
    current_segment: SegmentRange,
    current_point: u32,
    zero: V,
}

/// What a parser holds, with its render data seen as sequences.
pub struct ParserState<V> {
    pub points: Seq<Point<V>>,
    pub segment_ranges: Seq<SegmentRange>,
    pub vertex_count: u32,
    pub index_count: u32,
    pub axis_absolute: bool,
    pub extruder_absolute: bool,
    pub current_pos: Seq<V>,
    pub extruder_pos: V,
    pub end_line: bool,
    pub current_segment: SegmentRange,
    pub current_point: u32,
    pub zero: V,
}

impl<V> View for GCodeParser<V> {
    type V = ParserState<V>;

    closed spec fn view(&self) -> ParserState<V> {
        ParserState {
            points: self.render_data.points@,
            segment_ranges: self.render_data.segment_ranges@,
            vertex_count: self.render_data.vertex_count,
            index_count: self.render_data.index_count,
            axis_absolute: self.axis_absolute,
            extruder_absolute: self.extruder_absolute,
            current_pos: self.current_pos@,
            extruder_pos: self.extruder_pos,
            end_line: self.end_line,
            current_segment: self.current_segment,
            current_point: self.current_point,
            zero: self.zero,
        }
    }
}

impl<V> ParserState<V> {
    /// No points, segments, vertices or indices.
    pub open spec fn render_data_empty(self) -> bool {
        &&& self.points.len() == 0
        &&& self.segment_ranges.len() == 0
        &&& self.vertex_count == 0
        &&& self.index_count == 0
    }

    /// The counters agree with the points and segments: four vertices per
    /// point, one point per move, and six indices per move that did not close
    /// a segment.
    pub open spec fn counts_consistent(self) -> bool {
        let n = self.points.len();
        let closed = self.segment_ranges.len();
        &&& self.vertex_count == 4 * n
        &&& self.current_point == n
        &&& closed <= n
        &&& self.index_count == 6 * (n - closed)
    }

    /// Segment `k` in order: a closed one for `k` below the number of closed
    /// segments, the open segment for `k` equal to it.
    pub open spec fn chain(self, k: int) -> SegmentRange {
        if k < self.segment_ranges.len() {
            self.segment_ranges[k]
        } else {
            self.current_segment
        }
    }

    /// The segments lie end to end: the first starts at vertex 0 and index 0;
    /// each later one starts at the vertex where the one before it ended, which
    /// is the point of the travel move that closed it; closed segments end at
    /// increasing points that have been read; and a segment that starts at
    /// point `v` after `c` closed segments starts at index `6 * (v + 1 - c)`,
    /// six per extruding move up to and including point `v`.
    pub open spec fn segments_tile(self) -> bool {
        let segs = self.segment_ranges;
        &&& self.chain(0).start_vertex == 0
        &&& self.chain(0).start_index == 0
        &&& self.current_segment.end_vertex == 0
        &&& forall|k: int| 0 <= k < segs.len() ==> (#[trigger] segs[k]).end_vertex < self.points.len()
        &&& forall|k: int|
            0 <= k < segs.len() ==> #[trigger] self.chain(k + 1).start_vertex == segs[k].end_vertex
        &&& forall|k: int|
            0 <= k < segs.len() ==> #[trigger] self.chain(k + 1).start_index == 6 * (
            segs[k].end_vertex + 1 - (k + 1))
        &&& forall|k: int, j: int|
            0 <= k < j < segs.len() ==> (#[trigger] segs[k]).end_vertex < (#[trigger] segs[j]).end_vertex
    }

    /// The counters can take one more move without passing `u32::MAX`.
    pub open spec fn room_for_move(self, extrudes: bool) -> bool {
        &&& self.vertex_count + 4 <= u32::MAX
        &&& self.current_point + 1 <= u32::MAX
        &&& extrudes ==> self.index_count + 6 <= u32::MAX
    }

    /// `after` is this state after a move with words `words`, where the caller
    /// decided whether the move extrudes and whether it advances the extruder.
    ///
    /// The move adds a point at the new position and four vertices. An
    /// extruding move adds six indices. A travel move closes the open segment
    /// at the current point and opens a new one there, at the current index
    /// count. An advancing move sets the extruder position to the move's `E`.
    pub open spec fn moved_to(
        self,
        after: ParserState<V>,
        words: Seq<AxisWord<V>>,
        extrudes: bool,
        advances: bool,
    ) -> bool {
        let cmd = command_of(words, self.zero);
        let pos = position_after(words, self.current_pos);
        &&& after.current_pos == pos
        &&& after.points.len() == self.points.len() + 1
        &&& after.points.drop_last() == self.points
        &&& after.points.last().p@ == pos
        &&& after.points.last()._padding == self.zero
        &&& after.vertex_count == self.vertex_count + 4
        &&& after.index_count == if extrudes {
            self.index_count + 6
        } else {
            self.index_count as int
        }
        &&& after.segment_ranges == if extrudes {
            self.segment_ranges
        } else {
            self.segment_ranges.push(
                SegmentRange {
                    start_vertex: self.current_segment.start_vertex,
                    end_vertex: self.current_point,
                    start_index: self.current_segment.start_index,
                },
            )
        }
        &&& after.current_segment == if extrudes {
            self.current_segment
        } else {
            SegmentRange {
                start_vertex: self.current_point,
                end_vertex: 0,
                start_index: self.index_count,
            }
        }
        &&& after.end_line == !extrudes
        &&& after.current_point == self.current_point + 1
        &&& after.extruder_pos == if advances {
            cmd.e
        } else {
            self.extruder_pos
        }
        &&& after.axis_absolute == self.axis_absolute
        &&& after.extruder_absolute == self.extruder_absolute
        &&& after.zero == self.zero
    }
}

/// A move that advances the extruder sets the extruder position to the value
/// of its last `E` word (zero when it has none), whether or not the move
/// extrudes; a move that does not advance it leaves it unchanged. The tool
/// moves to the values of the move's last X, Y and Z words, each coordinate
/// kept where its axis is not named.
pub proof fn lemma_move_sets_extruder_and_position<V>(
    before: ParserState<V>,
    after: ParserState<V>,
    words: Seq<AxisWord<V>>,
    extrudes: bool,
    advances: bool,
)
    requires
        before.moved_to(after, words, extrudes, advances),
    ensures
        advances ==> reads_as(words, 'E', before.zero, after.extruder_pos),
        !advances ==> after.extruder_pos == before.extruder_pos,
        after.current_pos.len() == 3,
        reads_as(words, 'X', before.current_pos[0], after.current_pos[0]),
        reads_as(words, 'Z', before.current_pos[1], after.current_pos[1]),
        reads_as(words, 'Y', before.current_pos[2], after.current_pos[2]),
{
    lemma_move_reads_words(words, before.zero, before.current_pos);
}

/// Every move keeps the counters consistent with the points and segments.
pub proof fn lemma_move_keeps_counts<V>(
    before: ParserState<V>,
    after: ParserState<V>,
    words: Seq<AxisWord<V>>,
    extrudes: bool,
    advances: bool,
)
    requires
        before.counts_consistent(),
        before.moved_to(after, words, extrudes, advances),
    ensures
        after.counts_consistent(),
{
}

/// Every move keeps the segments lying end to end.
pub proof fn lemma_move_keeps_tiling<V>(
    before: ParserState<V>,
    after: ParserState<V>,
    words: Seq<AxisWord<V>>,
    extrudes: bool,
    advances: bool,
)
    requires
        before.counts_consistent(),
        before.segments_tile(),
        before.moved_to(after, words, extrudes, advances),
    ensures
        after.segments_tile(),
{
    let segs = before.segment_ranges;
    let n = before.points.len();
    if !extrudes {
        let closed = after.segment_ranges;
        assert forall|k: int| 0 <= k < closed.len() implies (#[trigger] closed[k]).end_vertex
            < after.points.len() by {
            if k < segs.len() {
                assert(closed[k] == segs[k]);
            }
        }
        assert forall|k: int| 0 <= k < closed.len() implies #[trigger] after.chain(k + 1).start_vertex
            == closed[k].end_vertex by {
            if k + 1 < segs.len() {
                assert(after.chain(k + 1) == before.chain(k + 1));
            } else if k + 1 == segs.len() {
                assert(after.chain(k + 1) == closed[k + 1]);
                assert(before.chain(k + 1) == before.current_segment);
            } else {
                assert(after.chain(k + 1) == after.current_segment);
                assert(closed[k].end_vertex == before.current_point);
            }
        }
        assert forall|k: int| 0 <= k < closed.len() implies #[trigger] after.chain(k + 1).start_index
            == 6 * (closed[k].end_vertex + 1 - (k + 1)) by {
            if k + 1 < segs.len() {
                assert(after.chain(k + 1) == before.chain(k + 1));
                assert(closed[k] == segs[k]);
            } else if k + 1 == segs.len() {
                assert(after.chain(k + 1) == closed[k + 1]);
                assert(before.chain(k + 1) == before.current_segment);
                assert(closed[k] == segs[k]);
            } else {
                assert(after.chain(k + 1) == after.current_segment);
                assert(closed[k].end_vertex == before.current_point);
            }
        }
        assert forall|k: int, j: int| 0 <= k < j < closed.len() implies (#[trigger] closed[k]).end_vertex
            < (#[trigger] closed[j]).end_vertex by {
            assert(closed[k] == segs[k]);
            if j < segs.len() {
                assert(closed[j] == segs[j]);
            }
        }
        assert(after.chain(0).start_vertex == 0 && after.chain(0).start_index == 0) by {
            if segs.len() > 0 {
                assert(after.chain(0) == before.chain(0));
            }
        }
    } else {
        assert forall|k: int| 0 <= k < segs.len() implies #[trigger] after.chain(k + 1).start_vertex
            == segs[k].end_vertex by {
            assert(after.chain(k + 1) == before.chain(k + 1));
        }
        assert forall|k: int| 0 <= k < segs.len() implies #[trigger] after.chain(k + 1).start_index
            == 6 * (segs[k].end_vertex + 1 - (k + 1)) by {
            assert(after.chain(k + 1) == before.chain(k + 1));
        }
        assert(after.chain(0) == before.chain(0));
    }
}

/// A run of moves that starts with nothing loaded, no point read and the open
/// segment at zero (a new parser, or the first load of one) has consistent
/// counters and segments lying end to end after every move.
pub proof fn lemma_run_keeps_invariants<V>(
    states: Seq<ParserState<V>>,
    words: Seq<Seq<AxisWord<V>>>,
    extrudes: Seq<bool>,
    advances: Seq<bool>,
)
    requires
        states.len() == words.len() + 1,
        extrudes.len() == words.len(),
        advances.len() == words.len(),
        states[0].render_data_empty(),
        states[0].current_point == 0,
        states[0].current_segment == SegmentRange::zero(),
        forall|i: int|
            0 <= i < words.len() ==> #[trigger] states[i].moved_to(
                states[i + 1],
                words[i],
                extrudes[i],
                advances[i],
            ),
    ensures
        forall|i: int| 0 <= i < states.len() ==> (#[trigger] states[i]).counts_consistent(),
        forall|i: int| 0 <= i < states.len() ==> (#[trigger] states[i]).segments_tile(),
    decreases words.len(),
{
    if words.len() == 0 {
        assert(states[0].chain(0) == states[0].current_segment);
    } else {
        let n = words.len() - 1;
        let s2 = states.drop_last();
        assert forall|i: int| 0 <= i < n implies #[trigger] s2[i].moved_to(
            s2[i + 1],
            words.drop_last()[i],
            extrudes.drop_last()[i],
            advances.drop_last()[i],
        ) by {
            assert(states[i].moved_to(states[i + 1], words[i], extrudes[i], advances[i]));
        }
        lemma_run_keeps_invariants(s2, words.drop_last(), extrudes.drop_last(), advances.drop_last());
        assert(s2[n] == states[n]);
        assert(states[n].moved_to(states[n + 1], words[n], extrudes[n], advances[n]));
        lemma_move_keeps_counts(states[n], states[n + 1], words[n], extrudes[n], advances[n]);
        lemma_move_keeps_tiling(states[n], states[n + 1], words[n], extrudes[n], advances[n]);
        assert forall|i: int| 0 <= i < states.len() implies (#[trigger] states[i]).counts_consistent()
            && states[i].segments_tile() by {
            if i <= n {
                assert(states[i] == s2[i]);
            }
        }
    }
}

/// In a consistent, tiled state every segment's vertex and index ranges are
/// in order: a closed segment starts no later than it ends, segment starts
/// never go back in the index buffer, and the open segment starts within the
/// points read and the indices written so far.
pub proof fn lemma_segments_ordered<V>(state: ParserState<V>)
    requires
        state.counts_consistent(),
        state.segments_tile(),
    ensures
        forall|k: int|
            0 <= k < state.segment_ranges.len() ==> #[trigger] state.chain(k).start_vertex
                <= state.segment_ranges[k].end_vertex,
        forall|k: int|
            0 <= k < state.segment_ranges.len() ==> #[trigger] state.chain(k).start_index
                <= state.chain(k + 1).start_index,
        state.current_segment.start_vertex <= state.current_point,
        state.current_segment.start_index <= state.index_count,
{
    let segs = state.segment_ranges;
    assert forall|k: int| 0 <= k < segs.len() implies #[trigger] state.chain(k).start_vertex
        <= segs[k].end_vertex by {
        if k > 0 {
            let j = k - 1;
            assert(state.chain(j + 1).start_vertex == segs[j].end_vertex);
            assert(segs[j].end_vertex < segs[k].end_vertex);
        }
    }
    assert forall|k: int| 0 <= k < segs.len() implies #[trigger] state.chain(k).start_index
        <= state.chain(k + 1).start_index by {
        assert(state.chain(k + 1).start_index == 6 * (segs[k].end_vertex + 1 - (k + 1)));
        if k > 0 {
            let j = k - 1;
            assert(state.chain(j + 1).start_index == 6 * (segs[j].end_vertex + 1 - (j + 1)));
            assert(segs[j].end_vertex < segs[k].end_vertex);
        }
    }
    if segs.len() > 0 {
        let last = segs.len() - 1;
        assert(state.chain(last + 1) == state.current_segment);
        assert(segs[last].end_vertex < state.points.len());
    }
}

impl<V: Copy + Default> GCodeParser<V> {
    /// A parser at the origin with nothing loaded; `zero` is `V::default()`.
    pub fn default() -> (r: Self)
        ensures
            call_ensures(V::default, (), r@.zero),
            r@.render_data_empty(),
            r@.current_pos == seq![r@.zero, r@.zero, r@.zero],
            r@.extruder_pos == r@.zero,
            !r@.axis_absolute,
            !r@.extruder_absolute,
            !r@.end_line,
            r@.current_segment == SegmentRange::zero(),
            r@.current_point == 0,
            r@.counts_consistent(),
            r@.segments_tile(),
    {
        let zero = V::default();
        let r = GCodeParser {
            raw_file: Vec::new(),
            render_data: GCodeRenderData::default(),
            axis_absolute: false,
            extruder_absolute: false,
            current_pos: [zero, zero, zero],
            extruder_pos: zero,
            end_line: false,
            current_segment: SegmentRange { start_vertex: 0, end_vertex: 0, start_index: 0 },
            current_point: 0,
            zero,
        };
        assert(r@.current_pos =~= seq![zero, zero, zero]);
        r
    }
}

impl<V: Copy> GCodeParser<V> {
    /// Starts loading a new file: drops the render data and counts points from
    /// zero again. The tool and extruder positions and the open segment are
    /// kept.
    pub fn begin_load(&mut self)
        ensures
            final(self)@.render_data_empty(),
            final(self)@.current_point == 0,
            final(self)@.current_pos == old(self)@.current_pos,
            final(self)@.extruder_pos == old(self)@.extruder_pos,
            final(self)@.end_line == old(self)@.end_line,
            final(self)@.current_segment == old(self)@.current_segment,
            final(self)@.axis_absolute == old(self)@.axis_absolute,
            final(self)@.extruder_absolute == old(self)@.extruder_absolute,
            final(self)@.zero == old(self)@.zero,
            final(self)@.counts_consistent(),
            old(self)@.current_segment == SegmentRange::zero() ==> final(self)@.segments_tile(),
    {
        self.render_data = GCodeRenderData::default();
        self.current_point = 0;
    }

    /// Whether the counters can take one more move.
    pub fn has_room_for_move(&self, extrudes: bool) -> (b: bool)
        ensures
            b == self@.room_for_move(extrudes),
    {
        self.render_data.vertex_count <= u32::MAX - 4 && self.current_point < u32::MAX && (!extrudes
            || self.render_data.index_count <= u32::MAX - 6)
    }

    /// The command that `words` give, with this parser's zero for absent axes.
    pub fn resolve_move(&self, words: &Vec<AxisWord<V>>) -> (cmd: MoveCommand<V>)
        ensures
            cmd == command_of(words@, self@.zero),
            reads_as(words@, 'X', self@.zero, cmd.x),
            reads_as(words@, 'Y', self@.zero, cmd.y),
            reads_as(words@, 'Z', self@.zero, cmd.z),
            reads_as(words@, 'E', self@.zero, cmd.e),
            reads_as(words@, 'F', self@.zero, cmd.f),
    {
        resolve_words(words, self.zero, self.current_pos).0
    }

    /// Applies one linear move. The caller has decided, from the move's
    /// command and the extruder position, whether the move extrudes (lays
    /// down material along it) and whether it advances the extruder.
    pub fn move_command(&mut self, words: &Vec<AxisWord<V>>, extrudes: bool, extruder_advances: bool)
        requires
            old(self)@.room_for_move(extrudes),
        ensures
            old(self)@.moved_to(final(self)@, words@, extrudes, extruder_advances),
            extruder_advances ==> reads_as(words@, 'E', old(self)@.zero, final(self)@.extruder_pos),
            !extruder_advances ==> final(self)@.extruder_pos == old(self)@.extruder_pos,
            final(self)@.current_pos.len() == 3,
            reads_as(words@, 'X', old(self)@.current_pos[0], final(self)@.current_pos[0]),
            reads_as(words@, 'Z', old(self)@.current_pos[1], final(self)@.current_pos[1]),
            reads_as(words@, 'Y', old(self)@.current_pos[2], final(self)@.current_pos[2]),
            old(self)@.counts_consistent() ==> final(self)@.counts_consistent(),
            old(self)@.counts_consistent() && old(self)@.segments_tile()
                ==> final(self)@.segments_tile(),
    {
        let ghost before = self@;
        let (cmd, pos) = resolve_words(words, self.zero, self.current_pos);
        self.current_pos = pos;
        let point = Point { p: self.current_pos, _padding: self.zero };
        self.render_data.points.push(point);
        self.render_data.vertex_count = self.render_data.vertex_count + 4;
        if extrudes {
            self.render_data.index_count = self.render_data.index_count + 6;
        } else {
            self.current_segment.end_vertex = self.current_point;
            self.render_data.segment_ranges.push(self.current_segment);
            self.current_segment = SegmentRange {
                start_vertex: self.current_point,
                end_vertex: 0,
                start_index: self.render_data.index_count,
            };
        }
        self.end_line = !extrudes;
        self.current_point = self.current_point + 1;
        if extruder_advances {
            self.extruder_pos = cmd.e;
        }
        proof {
            assert(self@.points.drop_last() =~= before.points);
            lemma_move_sets_extruder_and_position(before, self@, words@, extrudes, extruder_advances);
            if before.counts_consistent() {
                lemma_move_keeps_counts(before, self@, words@, extrudes, extruder_advances);
                if before.segments_tile() {
                    lemma_move_keeps_tiling(before, self@, words@, extrudes, extruder_advances);
                }
            }
        }
    }

    /// The render data: the points, the closed segments and both counters.
    pub fn render_data(&self) -> (r: &GCodeRenderData<V>)
        ensures
            r.points@ == self@.points,
            r.segment_ranges@ == self@.segment_ranges,
            r.vertex_count == self@.vertex_count,
            r.index_count == self@.index_count,
    {
        &self.render_data
    }

    /// The extruder position.
    pub fn extruder_pos(&self) -> (e: V)
        ensures
            e == self@.extruder_pos,
    {
        self.extruder_pos
    }

    /// The segment that the next travel move will close.
    pub fn current_segment(&self) -> (s: SegmentRange)
        ensures
            s == self@.current_segment,
    {
        self.current_segment
    }

    /// The number of points read since loading began.
    pub fn current_point(&self) -> (n: u32)
        ensures
            n == self@.current_point,
    {
        self.current_point
    }

    /// Whether the last move closed a segment.
    pub fn end_line(&self) -> (b: bool)
        ensures
            b == self@.end_line,
    {
        self.end_line
    }

    /// The tool position in render space.
    pub fn current_pos(&self) -> (p: [V; 3])
        ensures
            p@ == self@.current_pos,
    {
        self.current_pos
    }
}

} // verus!
