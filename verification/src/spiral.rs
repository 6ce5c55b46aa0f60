//! The integer plan of a spiral glyph: the path starts on the innermost
//! layer at section 0 and, for each symbol, runs along its layer to the
//! symbol's section (when it is elsewhere) and turns outwards by one layer
//! with a nose, the direction of travel swapping at every symbol.

use vstd::prelude::*;

verus! {

/// Number of sections round a spiral.
pub const SPIRAL_SECTIONS: i8 = 28;

/// One command of a spiral path. A layer `k` lies at the innermost radius
/// plus `k` steps; a section `s` at the angle `s` sections round.
#[derive(Clone, Copy, Debug, PartialEq, Eq)]
pub enum SpiralStep {
    /// An arc along layer `layer` to the section `section` (the large one of
    /// the two arcs when `large_arc`).
    Arc { layer: usize, section: i8, large_arc: bool, sweep: bool },
    /// A half turn outwards, ending on layer `layer` at section `section`.
    Nose { layer: usize, section: i8, sweep: bool },
}

/// The section of a symbol's code: its remainder by the number of sections,
/// with the sign of the code (as Rust's `%`).
pub open spec fn spiral_section(code: i8) -> int {
    let n = SPIRAL_SECTIONS as int;
    if code >= 0 {
        (code as int) % n
    } else {
        -((-(code as int)) % n)
    }
}

/// How many sections the path travels from `from` to `to` in the direction
/// of travel (up when clockwise), going once round when `to` lies behind.
pub open spec fn spiral_delta(from: int, to: int, clockwise: bool) -> int {
    if clockwise {
        if from > to { to - from + SPIRAL_SECTIONS } else { to - from }
    } else {
        if from < to { from - to + SPIRAL_SECTIONS } else { from - to }
    }
}

/// The commands that the `j`-th symbol adds: an arc along layer `j` to the
/// symbol's section when the path has to move, the large one when it moves
/// more than half way round; then a nose up to layer `j + 1`.
pub open spec fn spiral_symbol_steps(encoded: Seq<i8>, j: int) -> Seq<SpiralStep> {
    let from = if j == 0 { 0 } else { spiral_section(encoded[j - 1]) };
    let to = spiral_section(encoded[j]);
    let clockwise = j % 2 == 0;
    let delta = spiral_delta(from, to, clockwise);
    let nose = SpiralStep::Nose { layer: (j + 1) as usize, section: to as i8, sweep: !clockwise };
    if delta >= 1 {
        seq![
            SpiralStep::Arc { layer: j as usize, section: to as i8, large_arc: delta > SPIRAL_SECTIONS / 2, sweep: clockwise },
            nose,
        ]
    } else {
        seq![nose]
    }
}

/// The commands of the first `n` symbols.
pub open spec fn spiral_steps(encoded: Seq<i8>, n: nat) -> Seq<SpiralStep>
    decreases n,
{
    if n == 0 {
        Seq::empty()
    } else {
        spiral_steps(encoded, (n - 1) as nat) + spiral_symbol_steps(encoded, n - 1)
    }
}

/// The layer a command ends on.
pub open spec fn step_layer(step: SpiralStep) -> int {
    match step {
        SpiralStep::Arc { layer, .. } => layer as int,
        SpiralStep::Nose { layer, .. } => layer as int,
    }
}

/// A spiral only ever winds outwards: along the path, the layers never
/// decrease; the first `n` symbols reach layer `n` and no further, and each
/// symbol ends on its own nose, one layer above the last.
pub proof fn lemma_spiral_winds_outwards(encoded: Seq<i8>, n: nat)
    requires
        n <= encoded.len(),
        encoded.len() <= usize::MAX,
    ensures
        forall|i: int, j: int|
            0 <= i <= j < spiral_steps(encoded, n).len() ==> step_layer(#[trigger] spiral_steps(encoded, n)[i])
                <= step_layer(#[trigger] spiral_steps(encoded, n)[j]),
        forall|i: int| 0 <= i < spiral_steps(encoded, n).len() ==> step_layer(#[trigger] spiral_steps(encoded, n)[i]) <= n,
        n <= spiral_steps(encoded, n).len() <= 2 * n,
        n > 0 ==> spiral_steps(encoded, n).last() == (SpiralStep::Nose {
            layer: n as usize,
            section: spiral_section(encoded[n - 1]) as i8,
            sweep: (n - 1) % 2 != 0,
        }),
    decreases n,
{
    if n > 0 {
        lemma_spiral_winds_outwards(encoded, (n - 1) as nat);
        let before = spiral_steps(encoded, (n - 1) as nat);
        let group = spiral_symbol_steps(encoded, n - 1);
        let all = spiral_steps(encoded, n);
        assert(all == before + group);
        assert forall|k: int| 0 <= k < group.len() implies n - 1 <= step_layer(#[trigger] group[k]) <= n by {}
        assert forall|i: int, j: int| 0 <= i <= j < all.len() implies step_layer(#[trigger] all[i]) <= step_layer(#[trigger] all[j]) by {
            if j < before.len() {
                assert(all[i] == before[i] && all[j] == before[j]);
            } else if i < before.len() {
                assert(all[i] == before[i] && all[j] == group[j - before.len()]);
            } else {
                assert(all[i] == group[i - before.len()] && all[j] == group[j - before.len()]);
            }
        }
        assert forall|i: int| 0 <= i < all.len() implies step_layer(#[trigger] all[i]) <= n by {
            if i < before.len() {
                assert(all[i] == before[i]);
            } else {
                assert(all[i] == group[i - before.len()]);
            }
        }
    }
}

/// The section of a code (see `spiral_section`).
fn section_of(code: i8) -> (section: i8)
    ensures
        section == spiral_section(code),
        -SPIRAL_SECTIONS < section < SPIRAL_SECTIONS,
{
    let c = code as i16;
    let s: i16 = if c >= 0 { c % 28 } else { -((-c) % 28) };
    s as i8
}

/// The commands of the whole message, symbol after symbol.
fn collect_spiral_steps(encoded: &[i8]) -> (steps: Vec<SpiralStep>)
    ensures
        steps@ == spiral_steps(encoded@, encoded@.len()),
{
    let mut steps: Vec<SpiralStep> = Vec::new();
    let mut section: i8 = 0;
    let mut clockwise = true;
    let mut j: usize = 0;
    while j < encoded.len()
        invariant
            j <= encoded@.len(),
            steps@ == spiral_steps(encoded@, j as nat),
            section == (if j == 0 { 0 } else { spiral_section(encoded@[j - 1]) }),
            clockwise == (j % 2 == 0),
        decreases encoded@.len() - j,
    {
        let previous = section;
        section = section_of(encoded[j]);
        let delta: i8 = if clockwise {
            if previous > section { section - previous + SPIRAL_SECTIONS } else { section - previous }
        } else {
            if previous < section { previous - section + SPIRAL_SECTIONS } else { previous - section }
        };
        if delta >= 1 {
            steps.push(SpiralStep::Arc { layer: j, section, large_arc: delta > SPIRAL_SECTIONS / 2, sweep: clockwise });
        }
        steps.push(SpiralStep::Nose { layer: j + 1, section, sweep: !clockwise });
        assert(steps@ =~= spiral_steps(encoded@, (j + 1) as nat));
        clockwise = !clockwise;
        j = j + 1;
    }
    steps
}

/// Plans the spiral path of an encoded message (see `spiral_steps`).
pub fn spiral_plan(encoded: &[i8]) -> (steps: Vec<SpiralStep>)
    ensures
        steps@ == spiral_steps(encoded@, encoded@.len()),
        codes_nonnegative(encoded@) ==> arcs_follow_moves(encoded@, steps@, encoded@.len() as int),
        codes_nonnegative(encoded@) ==> noses_end_symbols(encoded@, steps@, encoded@.len() as int),
        codes_nonnegative(encoded@) ==> every_symbol_drawn(encoded@, steps@, encoded@.len() as int),
        codes_nonnegative(encoded@) ==> symbols_in_order(encoded@, steps@, encoded@.len() as int),
{
    let steps = collect_spiral_steps(encoded);
    let len = encoded.len();
    proof {
        if codes_nonnegative(encoded@) {
            lemma_spiral_draws_each_move(encoded@, len as nat);
        }
    }
    steps
}


/// The section that a symbol with a non-negative code lands on: its code
/// counted round the 28 sections.
pub open spec fn code_section(code: i8) -> int {
    (code as int) % 28
}

/// Where the path stands before symbol `j`: section 0 before the first
/// symbol, else the previous symbol's section.
pub open spec fn section_before(encoded: Seq<i8>, j: int) -> int {
    if j == 0 { 0 } else { code_section(encoded[j - 1]) }
}

/// How many sections lie between `from` and `to` going round the circle
/// upwards (clockwise) or downwards (anticlockwise): a number in `[0, 28)`.
pub open spec fn sections_travelled(from: int, to: int, clockwise: bool) -> int {
    if clockwise { (to - from) % 28 } else { (from - to) % 28 }
}

/// How far symbol `j` moves along its layer: the odd symbols travel
/// anticlockwise, the even ones clockwise.
pub open spec fn symbol_move(encoded: Seq<i8>, j: int) -> int {
    sections_travelled(section_before(encoded, j), code_section(encoded[j]), j % 2 == 0)
}

/// Every code is non-negative, as every code of the encoder is.
pub open spec fn codes_nonnegative(encoded: Seq<i8>) -> bool {
    forall|k: int| 0 <= k < encoded.len() ==> encoded[k] >= 0
}

/// Each arc of `steps` belongs to a symbol `j` below `n` that moves: it runs
/// along layer `j` to the symbol's section in the symbol's direction, is the
/// large arc exactly when the move exceeds half of the 28 sections, and is
/// followed at once by that symbol's nose.
pub open spec fn arcs_follow_moves(encoded: Seq<i8>, steps: Seq<SpiralStep>, n: int) -> bool {
    forall|i: int|
        0 <= i < steps.len() ==> (#[trigger] steps[i] matches SpiralStep::Arc { layer, section, large_arc, sweep } ==> {
            &&& layer < n
            &&& section == code_section(encoded[layer as int])
            &&& sweep == (layer % 2 == 0)
            &&& symbol_move(encoded, layer as int) >= 1
            &&& (large_arc <==> symbol_move(encoded, layer as int) > 14)
            &&& i + 1 < steps.len()
            &&& steps[i + 1] == (SpiralStep::Nose { layer: (layer + 1) as usize, section, sweep: !sweep })
        })
}

/// Each nose of `steps` ends symbol `layer - 1` (below `n`): it climbs to
/// layer `layer` at that symbol's section, turning against its direction.
pub open spec fn noses_end_symbols(encoded: Seq<i8>, steps: Seq<SpiralStep>, n: int) -> bool {
    forall|i: int|
        0 <= i < steps.len() ==> (#[trigger] steps[i] matches SpiralStep::Nose { layer, section, sweep } ==> {
            &&& 1 <= layer <= n
            &&& section == code_section(encoded[layer - 1])
            &&& sweep == ((layer - 1) % 2 != 0)
        })
}

/// The nose that ends symbol `j`: one layer out, at the symbol's section,
/// turning against the symbol's direction.
pub open spec fn symbol_nose(encoded: Seq<i8>, j: int) -> SpiralStep {
    SpiralStep::Nose { layer: (j + 1) as usize, section: code_section(encoded[j]) as i8, sweep: j % 2 != 0 }
}

/// The arc of symbol `j` along its layer to its section, clockwise for even
/// symbols, the large one exactly when it travels more than 14 sections.
pub open spec fn symbol_arc(encoded: Seq<i8>, j: int) -> SpiralStep {
    SpiralStep::Arc {
        layer: j as usize,
        section: code_section(encoded[j]) as i8,
        large_arc: symbol_move(encoded, j) > 14,
        sweep: j % 2 == 0,
    }
}

/// Every symbol below `n` has its nose in `steps`, and every symbol below
/// `n` that moves (whose section differs from where the path stands) has
/// its arc.
pub open spec fn every_symbol_drawn(encoded: Seq<i8>, steps: Seq<SpiralStep>, n: int) -> bool {
    &&& forall|j: int| 0 <= j < n ==> steps.contains(#[trigger] symbol_nose(encoded, j))
    &&& forall|j: int| 0 <= j < n && symbol_move(encoded, j) >= 1 ==> steps.contains(#[trigger] symbol_arc(encoded, j))
}

/// The step after a nose at index `i` of `steps`: what the next symbol
/// draws first, or nothing after the nose of symbol `n - 1`.
pub open spec fn nose_leads_on(encoded: Seq<i8>, steps: Seq<SpiralStep>, n: int, i: int) -> bool {
    steps[i] matches SpiralStep::Nose { layer, .. } ==> {
        &&& layer < n ==> i + 1 < steps.len() && steps[i + 1] == symbol_start(encoded, layer as int)
        &&& layer == n ==> i + 1 == steps.len()
    }
}

/// What symbol `j` draws first: its arc when it moves, else its nose.
pub open spec fn symbol_start(encoded: Seq<i8>, j: int) -> SpiralStep {
    if symbol_move(encoded, j) >= 1 { symbol_arc(encoded, j) } else { symbol_nose(encoded, j) }
}

/// The symbols are drawn one after the other: `steps` begins with what the
/// first symbol draws first; after the nose of each symbol but the last
/// comes what the next symbol draws first; the nose of symbol `n - 1` ends
/// `steps`.
pub open spec fn symbols_in_order(encoded: Seq<i8>, steps: Seq<SpiralStep>, n: int) -> bool {
    &&& n > 0 ==> steps.len() > 0 && steps[0] == symbol_start(encoded, 0)
    &&& n == 0 ==> steps.len() == 0
    &&& forall|i: int| 0 <= i < steps.len() ==> #[trigger] nose_leads_on(encoded, steps, n, i)
}

/// For a non-negative code, the plan's section and move are the code
/// counted round the circle and the sections travelled to it.
proof fn lemma_symbol_move_matches(encoded: Seq<i8>, j: int)
    requires
        0 <= j < encoded.len(),
        codes_nonnegative(encoded),
    ensures
        spiral_section(encoded[j]) == code_section(encoded[j]),
        0 <= code_section(encoded[j]) < 28,
        0 <= section_before(encoded, j) < 28,
        spiral_delta(if j == 0 { 0 } else { spiral_section(encoded[j - 1]) }, spiral_section(encoded[j]), j % 2 == 0)
            == symbol_move(encoded, j),
        0 <= symbol_move(encoded, j) < 28,
{
    if j > 0 {
        assert(encoded[j - 1] >= 0);
    }
    assert(encoded[j] >= 0);
    let from = section_before(encoded, j);
    let to = code_section(encoded[j]);
    assert(0 <= from < 28 && 0 <= to < 28);
    assert(-28 < to - from < 28);
    if to - from < 0 {
        assert((to - from) % 28 == to - from + 28);
    } else {
        assert((to - from) % 28 == to - from);
    }
    if from - to < 0 {
        assert((from - to) % 28 == from - to + 28);
    } else {
        assert((from - to) % 28 == from - to);
    }
}

/// Each arc and each nose of the plan is the one its symbol calls for.
proof fn lemma_spiral_steps_sound(encoded: Seq<i8>, n: nat)
    requires
        n <= encoded.len(),
        encoded.len() <= usize::MAX,
        codes_nonnegative(encoded),
    ensures
        arcs_follow_moves(encoded, spiral_steps(encoded, n), n as int),
        noses_end_symbols(encoded, spiral_steps(encoded, n), n as int),
    decreases n,
{
    if n > 0 {
        lemma_spiral_steps_sound(encoded, (n - 1) as nat);
        let m = (n - 1) as int;
        lemma_spiral_winds_outwards(encoded, (n - 1) as nat);
        lemma_symbol_move_matches(encoded, m);
        let before = spiral_steps(encoded, (n - 1) as nat);
        let group = spiral_symbol_steps(encoded, m);
        let all = spiral_steps(encoded, n);
        assert(all == before + group);
        let nose = SpiralStep::Nose { layer: n as usize, section: code_section(encoded[m]) as i8, sweep: m % 2 != 0 };
        assert(group.last() == nose);
        assert(all[all.len() - 1] == nose);
        if symbol_move(encoded, m) >= 1 {
            assert(all[before.len() as int] == group[0]);
        }
        assert forall|i: int| 0 <= i < all.len() implies (#[trigger] all[i] matches SpiralStep::Arc { layer, section, large_arc, sweep } ==> {
            &&& layer < n
            &&& section == code_section(encoded[layer as int])
            &&& sweep == (layer % 2 == 0)
            &&& symbol_move(encoded, layer as int) >= 1
            &&& (large_arc <==> symbol_move(encoded, layer as int) > 14)
            &&& i + 1 < all.len()
            &&& all[i + 1] == (SpiralStep::Nose { layer: (layer + 1) as usize, section, sweep: !sweep })
        }) by {
            if i < before.len() {
                assert(all[i] == before[i]);
                if i + 1 < before.len() {
                    assert(all[i + 1] == before[i + 1]);
                } else if all[i] is Arc {
                    assert(before[before.len() - 1] is Nose);
                }
            } else {
                assert(all[i] == group[i - before.len()]);
                if all[i] is Arc {
                    assert(all[i + 1] == group[1]);
                }
            }
        }
        assert forall|i: int| 0 <= i < all.len() implies (#[trigger] all[i] matches SpiralStep::Nose { layer, section, sweep } ==> {
            &&& 1 <= layer <= n
            &&& section == code_section(encoded[layer - 1])
            &&& sweep == ((layer - 1) % 2 != 0)
        }) by {
            if i < before.len() {
                assert(all[i] == before[i]);
            } else {
                assert(all[i] == group[i - before.len()]);
            }
        }
    }
}

/// The plan draws every nose and every arc its symbols call for.
proof fn lemma_spiral_steps_complete(encoded: Seq<i8>, n: nat)
    requires
        n <= encoded.len(),
        encoded.len() <= usize::MAX,
        codes_nonnegative(encoded),
    ensures
        every_symbol_drawn(encoded, spiral_steps(encoded, n), n as int),
    decreases n,
{
    if n > 0 {
        lemma_spiral_steps_complete(encoded, (n - 1) as nat);
        let m = (n - 1) as int;
        lemma_spiral_winds_outwards(encoded, (n - 1) as nat);
        lemma_symbol_move_matches(encoded, m);
        let before = spiral_steps(encoded, (n - 1) as nat);
        let group = spiral_symbol_steps(encoded, m);
        let all = spiral_steps(encoded, n);
        assert(all == before + group);
        let nose = SpiralStep::Nose { layer: n as usize, section: code_section(encoded[m]) as i8, sweep: m % 2 != 0 };
        assert(group.last() == nose);
        assert(all[all.len() - 1] == nose);
        if symbol_move(encoded, m) >= 1 {
            assert(all[before.len() as int] == group[0]);
        }
        assert forall|j: int| 0 <= j < n implies all.contains(#[trigger] symbol_nose(encoded, j)) by {
            if j < m {
                let i = choose|i: int| 0 <= i < before.len() && before[i] == symbol_nose(encoded, j);
                assert(all[i] == before[i]);
            } else {
                assert(all[all.len() - 1] == nose);
            }
        }
        assert forall|j: int| 0 <= j < n && symbol_move(encoded, j) >= 1 implies all.contains(#[trigger] symbol_arc(encoded, j)) by {
            if j < m {
                let i = choose|i: int| 0 <= i < before.len() && before[i] == symbol_arc(encoded, j);
                assert(all[i] == before[i]);
            } else {
                assert(all[before.len() as int] == group[0]);
            }
        }
    }
}

/// The plan draws the symbols one after the other.
proof fn lemma_spiral_steps_in_order(encoded: Seq<i8>, n: nat)
    requires
        n <= encoded.len(),
        encoded.len() <= usize::MAX,
        codes_nonnegative(encoded),
    ensures
        symbols_in_order(encoded, spiral_steps(encoded, n), n as int),
    decreases n,
{
    if n > 0 {
        let m = (n - 1) as int;
        let before = spiral_steps(encoded, (n - 1) as nat);
        let group = spiral_symbol_steps(encoded, m);
        let all = spiral_steps(encoded, n);
        lemma_spiral_steps_in_order(encoded, (n - 1) as nat);
        assert(forall|i: int| 0 <= i < before.len() ==> step_layer(#[trigger] before[i]) <= m) by {
            lemma_spiral_winds_outwards(encoded, (n - 1) as nat);
        }
        assert(m > 0 ==> before.len() > 0 && before.last() == (SpiralStep::Nose {
            layer: m as usize,
            section: spiral_section(encoded[m - 1]) as i8,
            sweep: (m - 1) % 2 != 0,
        })) by {
            lemma_spiral_winds_outwards(encoded, (n - 1) as nat);
        }
        lemma_symbol_move_matches(encoded, m);
        assert(all == before + group);
        assert(group[0] == symbol_start(encoded, m));
        assert(group.last() is Nose && step_layer(group.last()) == n);
        assert(group.len() == 1 || (group.len() == 2 && group[0] is Arc));
        if m == 0 {
            assert(before.len() == 0);
            assert(all[0] == group[0]);
        } else {
            assert(all[0] == before[0]);
        }
        assert forall|i: int| 0 <= i < all.len() implies #[trigger] nose_leads_on(encoded, all, n as int, i) by {
            if i < before.len() {
                assert(nose_leads_on(encoded, before, m, i));
                assert(all[i] == before[i]);
                if before[i] is Nose {
                    assert(step_layer(before[i]) <= m);
                    if i + 1 < before.len() {
                        assert(all[i + 1] == before[i + 1]);
                    } else {
                        assert(before[i] == before.last());
                        assert(all[i + 1] == group[0]);
                    }
                }
            } else {
                assert(all[i] == group[i - before.len()]);
                if all[i] is Nose {
                    assert(i - before.len() == group.len() - 1);
                }
            }
        }
    }
}

/// What the spiral plan draws for the first `n` symbols of a message with
/// non-negative codes: each symbol that moves along its layer (its section
/// differs from where the path stands, section 0 before the first symbol)
/// gets an arc to its section, clockwise for even symbols and anticlockwise
/// for odd ones, the large arc exactly when it travels more than 14 of the 28
/// sections; a symbol that does not move gets none; and each symbol ends
/// with its nose one layer out, right after its arc.
pub proof fn lemma_spiral_draws_each_move(encoded: Seq<i8>, n: nat)
    requires
        n <= encoded.len(),
        encoded.len() <= usize::MAX,
        codes_nonnegative(encoded),
    ensures
        arcs_follow_moves(encoded, spiral_steps(encoded, n), n as int),
        noses_end_symbols(encoded, spiral_steps(encoded, n), n as int),
        every_symbol_drawn(encoded, spiral_steps(encoded, n), n as int),
        symbols_in_order(encoded, spiral_steps(encoded, n), n as int),
{
    lemma_spiral_steps_sound(encoded, n);
    lemma_spiral_steps_complete(encoded, n);
    lemma_spiral_steps_in_order(encoded, n);
}

} // verus!
