//! The integer plan of a fingerprint glyph. The path winds round a ring of
//! sections; every section has a height (the number of layers of path already
//! laid there). Each symbol of the message draws an arc from the previous
//! symbol's section to its own, one layer above what is already there,
//! squeezing transitions between layers into the gaps. This module decides
//! every command of that path, and every change of height, with integers;
//! a path command only names the geometry it uses (a section of the ring,
//! a layer, a half-layer), which the renderer turns into coordinates.

use vstd::prelude::*;
use crate::sections::{
    change_section, neighbour, section_walk, generate_section_list, fill_pass, fill_tight_gaps,
    lemma_section_walk_on_ring,
};

verus! {

/// Number of symbol sections round the ring; each has two half sections.
pub const NB_SECTIONS: i8 = 28;

/// Number of (half) sections of the ring that heights are kept for.
pub const RING_SECTIONS: i8 = 56;

/// A height above which a downward nose is drawn as two small turns joined
/// by a straight line instead of one wide turn.
pub const SPLIT_NOSE_HEIGHT: i64 = 4;

/// A length measured from the centre, or the radius of an arc. With `inner`
/// the radius of the innermost layer and `nose` the distance between layers:
#[derive(Clone, Copy, Debug, PartialEq, Eq)]
pub enum Radius {
    /// `inner + layer * nose`.
    Layer(i64),
    /// `inner + (layer + 1/2) * nose` when the flag is set,
    /// `inner + (layer - 1/2) * nose` otherwise.
    LayerShifted(i64, bool),
    /// `(inner + layer * nose) + nose / 2`.
    LayerPlusHalfNose(i64),
    /// `(inner + layer * nose) - nose`.
    LayerMinusNose(i64),
    /// `nose / 2`.
    HalfNose,
    /// The length of half a section's arc at a layer:
    /// `(unit / 2) * (inner + layer * nose)`, `unit` being the angle of a section.
    HalfSectionChord(i64),
}

/// An angle: `section * unit`, moved by the angular size of half a nose at
/// `layer` (that is `(nose / 2) / (inner + layer * nose)`), forwards when
/// `shift` is 1, backwards when it is -1, not at all when it is 0.
#[derive(Clone, Copy, Debug, PartialEq, Eq)]
pub struct Angle {
    pub section: i64,
    pub shift: i8,
    pub layer: i64,
}

/// One command of the path, its end point given in polar form.
#[derive(Clone, Copy, Debug, PartialEq, Eq)]
pub enum PathStep {
    /// An elliptical arc of the given radius to the point at `distance` from
    /// the centre in the direction `angle`.
    Arc { radius: Radius, large_arc: bool, sweep: bool, angle: Angle, distance: Radius },
    /// A straight line to the point at `distance` in the direction `angle`.
    LineTo { angle: Angle, distance: Radius },
}

/// The angle of a section boundary.
pub open spec fn section_angle(section: int) -> Angle {
    Angle { section: section as i64, shift: 0, layer: 0 }
}

/// The angle of `section`, pulled back against the direction of travel by
/// half a nose at the section's height.
pub open spec fn nosed_angle(heights: Seq<i64>, section: i8, clockwise: bool) -> Angle {
    Angle { section: section as i64, shift: if clockwise { -1i8 } else { 1i8 }, layer: heights[section as int] }
}

/// A small arc (never the large one).
pub open spec fn small_arc(radius: Radius, sweep: bool, angle: Angle, distance: Radius) -> PathStep {
    PathStep::Arc { radius, large_arc: false, sweep, angle, distance }
}

/// The commands that move the path from the height of `section_0` to the
/// height of `section_1` (its neighbour): along the current layer up to the
/// boundary, a half turn, a straight line across the layers, a half turn
/// back, and, when rising, along the new layer to the next boundary.
pub open spec fn height_transition(heights: Seq<i64>, section_0: i8, section_1: i8, clockwise: bool) -> Seq<PathStep> {
    let h0 = heights[section_0 as int];
    let h1 = heights[section_1 as int];
    let is_raising = h0 < h1;
    let sweep = is_raising != clockwise;
    let angle_change: int = if is_raising { 0 } else if !clockwise { 1 } else { -1 };
    let boundary = section_0 - angle_change;
    let turns = seq![
        small_arc(
            Radius::Layer(h0),
            clockwise,
            Angle { section: boundary as i64, shift: if clockwise { -1i8 } else { 1i8 }, layer: h0 },
            Radius::Layer(h0),
        ),
        small_arc(Radius::HalfNose, sweep, section_angle(boundary), Radius::LayerShifted(h0, is_raising)),
        PathStep::LineTo { angle: section_angle(boundary), distance: Radius::LayerShifted(h1, !is_raising) },
        small_arc(
            Radius::HalfNose,
            !sweep,
            Angle { section: boundary as i64, shift: if clockwise { 1i8 } else { -1i8 }, layer: h1 },
            Radius::Layer(h1),
        ),
    ];
    if is_raising {
        turns.push(small_arc(Radius::Layer(h1), clockwise, section_angle(section_1 + 2 * angle_change), Radius::Layer(h1)))
    } else {
        turns
    }
}

/// The commands of a nose that turns down from the layer of `section_0`
/// towards the boundary of `section_1`: one wide turn at low heights, two
/// small turns joined by a straight line above `SPLIT_NOSE_HEIGHT`.
pub open spec fn downward_nose(heights: Seq<i64>, section_0: i8, section_1: i8, clockwise: bool) -> Seq<PathStep> {
    let h0 = heights[section_0 as int];
    if h0 > SPLIT_NOSE_HEIGHT {
        seq![
            small_arc(
                Radius::HalfNose,
                !clockwise,
                Angle { section: section_0 as i64, shift: if clockwise { 1i8 } else { -1i8 }, layer: h0 },
                Radius::Layer(h0),
            ),
            PathStep::LineTo {
                angle: Angle { section: section_1 as i64, shift: if clockwise { -1i8 } else { 1i8 }, layer: h0 },
                distance: Radius::Layer(h0),
            },
            small_arc(Radius::HalfNose, !clockwise, section_angle(section_1 as int), Radius::LayerPlusHalfNose(h0)),
        ]
    } else {
        seq![
            small_arc(
                Radius::HalfSectionChord(h0),
                !clockwise,
                section_angle(section_1 as int),
                Radius::LayerPlusHalfNose(h0),
            ),
        ]
    }
}

/// The nose that ends a symbol's arc, at the section of `symbol` (a symbol
/// section is two ring sections), one layer lower when `is_touching`.
pub open spec fn nose_compressed(heights: Seq<i64>, symbol: i8, clockwise: bool, is_touching: bool) -> PathStep {
    let section = (symbol * 2) as i8;
    let height = heights[section as int];
    small_arc(
        Radius::HalfNose,
        !clockwise,
        nosed_angle(heights, section, clockwise),
        Radius::Layer(if is_touching { (height - 1) as i64 } else { height }),
    )
}

/// Heights are kept for every ring section, and stay far from the limits
/// of `i64`.
pub open spec fn heights_within(heights: Seq<i64>, bound: int) -> bool {
    &&& heights.len() == RING_SECTIONS
    &&& forall|k: int| 0 <= k < heights.len() ==> -bound <= #[trigger] heights[k] <= bound
}

/// A section of the ring.
pub open spec fn on_ring(section: i8) -> bool {
    0 <= section < RING_SECTIONS
}

/// The height transition from `section_0` to `section_1` (see
/// `height_transition`).
fn new_height_transition(heights: &Vec<i64>, section_0: i8, section_1: i8, clockwise: bool) -> (steps: Vec<PathStep>)
    requires
        heights_within(heights@, 0x1_0000_0000),
        on_ring(section_0),
        on_ring(section_1),
    ensures
        steps@ == height_transition(heights@, section_0, section_1, clockwise),
        steps@.len() >= 4,
{
    let h0 = heights[section_0 as usize];
    let h1 = heights[section_1 as usize];
    let is_raising = h0 < h1;
    let sweep = is_raising != clockwise;
    let angle_change: i64 = if is_raising { 0 } else if !clockwise { 1 } else { -1 };
    let boundary: i64 = section_0 as i64 - angle_change;
    let mut steps: Vec<PathStep> = Vec::new();
    steps.push(PathStep::Arc {
        radius: Radius::Layer(h0),
        large_arc: false,
        sweep: clockwise,
        angle: Angle { section: boundary, shift: if clockwise { -1i8 } else { 1i8 }, layer: h0 },
        distance: Radius::Layer(h0),
    });
    steps.push(PathStep::Arc {
        radius: Radius::HalfNose,
        large_arc: false,
        sweep,
        angle: Angle { section: boundary, shift: 0, layer: 0 },
        distance: Radius::LayerShifted(h0, is_raising),
    });
    steps.push(PathStep::LineTo {
        angle: Angle { section: boundary, shift: 0, layer: 0 },
        distance: Radius::LayerShifted(h1, !is_raising),
    });
    steps.push(PathStep::Arc {
        radius: Radius::HalfNose,
        large_arc: false,
        sweep: !sweep,
        angle: Angle { section: boundary, shift: if clockwise { 1i8 } else { -1i8 }, layer: h1 },
        distance: Radius::Layer(h1),
    });
    if is_raising {
        steps.push(PathStep::Arc {
            radius: Radius::Layer(h1),
            large_arc: false,
            sweep: clockwise,
            angle: Angle { section: section_1 as i64 + 2 * angle_change, shift: 0, layer: 0 },
            distance: Radius::Layer(h1),
        });
    }
    assert(steps@ =~= height_transition(heights@, section_0, section_1, clockwise));
    steps
}

/// The downward nose from `section_0` towards `section_1` (see
/// `downward_nose`).
fn new_downward_nose(heights: &Vec<i64>, section_0: i8, section_1: i8, clockwise: bool) -> (steps: Vec<PathStep>)
    requires
        heights_within(heights@, 0x1_0000_0000),
        on_ring(section_0),
        on_ring(section_1),
    ensures
        steps@ == downward_nose(heights@, section_0, section_1, clockwise),
{
    let h0 = heights[section_0 as usize];
    let mut steps: Vec<PathStep> = Vec::new();
    if h0 > SPLIT_NOSE_HEIGHT {
        steps.push(PathStep::Arc {
            radius: Radius::HalfNose,
            large_arc: false,
            sweep: !clockwise,
            angle: Angle { section: section_0 as i64, shift: if clockwise { 1i8 } else { -1i8 }, layer: h0 },
            distance: Radius::Layer(h0),
        });
        steps.push(PathStep::LineTo {
            angle: Angle { section: section_1 as i64, shift: if clockwise { -1i8 } else { 1i8 }, layer: h0 },
            distance: Radius::Layer(h0),
        });
        steps.push(PathStep::Arc {
            radius: Radius::HalfNose,
            large_arc: false,
            sweep: !clockwise,
            angle: Angle { section: section_1 as i64, shift: 0, layer: 0 },
            distance: Radius::LayerPlusHalfNose(h0),
        });
    } else {
        steps.push(PathStep::Arc {
            radius: Radius::HalfSectionChord(h0),
            large_arc: false,
            sweep: !clockwise,
            angle: Angle { section: section_1 as i64, shift: 0, layer: 0 },
            distance: Radius::LayerPlusHalfNose(h0),
        });
    }
    assert(steps@ =~= downward_nose(heights@, section_0, section_1, clockwise));
    steps
}

/// The nose that ends a symbol's arc (see `nose_compressed`).
fn new_nose_compressed(heights: &Vec<i64>, symbol: i8, clockwise: bool, is_touching: bool) -> (step: PathStep)
    requires
        heights_within(heights@, 0x1_0000_0000),
        0 <= symbol < NB_SECTIONS,
    ensures
        step == nose_compressed(heights@, symbol, clockwise, is_touching),
{
    let section = symbol * 2;
    let height = heights[section as usize];
    PathStep::Arc {
        radius: Radius::HalfNose,
        large_arc: false,
        sweep: !clockwise,
        angle: Angle { section: section as i64, shift: if clockwise { -1i8 } else { 1i8 }, layer: height },
        distance: Radius::Layer(if is_touching { height - 1 } else { height }),
    }
}

/// The state of the walk that draws one symbol's arc: the heights, the
/// commands drawn so far, the height increments kept for the end of the
/// walk, whether the arc already ended on a nose that touches the previous
/// layer, and the position in the list of sections walked.
pub struct ArcState {
    pub heights: Seq<i64>,
    pub steps: Seq<PathStep>,
    pub increments: Seq<i64>,
    pub touchy: bool,
    pub i: int,
}

impl ArcState {
    pub open spec fn h(self, s: i8) -> i64 {
        self.heights[s as int]
    }

    pub open spec fn set_height(self, s: i8, v: int) -> ArcState {
        ArcState {
            heights: self.heights.update(s as int, v as i64),
            steps: self.steps,
            increments: self.increments,
            touchy: self.touchy,
            i: self.i,
        }
    }

    pub open spec fn set_increment(self, s: i8, v: int) -> ArcState {
        ArcState {
            heights: self.heights,
            steps: self.steps,
            increments: self.increments.update(s as int, v as i64),
            touchy: self.touchy,
            i: self.i,
        }
    }

    pub open spec fn push(self, p: PathStep) -> ArcState {
        ArcState {
            heights: self.heights,
            steps: self.steps.push(p),
            increments: self.increments,
            touchy: self.touchy,
            i: self.i,
        }
    }

    /// Drops the last command, if there is one.
    pub open spec fn pop(self) -> ArcState {
        ArcState {
            heights: self.heights,
            steps: if self.steps.len() > 0 { self.steps.drop_last() } else { self.steps },
            increments: self.increments,
            touchy: self.touchy,
            i: self.i,
        }
    }

    pub open spec fn append(self, ps: Seq<PathStep>) -> ArcState {
        ArcState {
            heights: self.heights,
            steps: self.steps + ps,
            increments: self.increments,
            touchy: self.touchy,
            i: self.i,
        }
    }

    pub open spec fn touch(self) -> ArcState {
        ArcState {
            heights: self.heights,
            steps: self.steps,
            increments: self.increments,
            touchy: true,
            i: self.i,
        }
    }

    pub open spec fn skip(self, n: int) -> ArcState {
        ArcState {
            heights: self.heights,
            steps: self.steps,
            increments: self.increments,
            touchy: self.touchy,
            i: self.i + n,
        }
    }
}

/// The sections round `s0` in the direction of travel: three ahead and three
/// behind, on the ring of `RING_SECTIONS` sections.
pub struct Around {
    pub s0: i8,
    pub s1: i8,
    pub s2: i8,
    pub s3: i8,
    pub m1: i8,
    pub m2: i8,
    pub m3: i8,
}

pub open spec fn around(s0: i8, clockwise: bool) -> Around {
    let s1 = neighbour(RING_SECTIONS, s0, 1, clockwise);
    let s2 = neighbour(RING_SECTIONS, s1, 1, clockwise);
    let s3 = neighbour(RING_SECTIONS, s2, 1, clockwise);
    let m1 = neighbour(RING_SECTIONS, s0, -1i8, clockwise);
    let m2 = neighbour(RING_SECTIONS, m1, -1i8, clockwise);
    let m3 = neighbour(RING_SECTIONS, m2, -1i8, clockwise);
    Around { s0, s1, s2, s3, m1, m2, m3 }
}

/// A list of commands without its first two.
pub open spec fn trim_front(ps: Seq<PathStep>) -> Seq<PathStep> {
    ps.drop_first().drop_first()
}

/// Climbing out of a pit: the arc ends where the section behind is one layer
/// above the current one, itself below the section ahead. The last two
/// commands give way to a downward nose from the section behind, and the
/// transition up ends on a nosed arc at the new layer.
pub open spec fn branch_pit(st: ArcState, a: Around, clockwise: bool) -> ArcState {
    let t0 = st.pop().pop();
    let t1 = t0.set_height(a.m1, t0.h(a.m1) - 1);
    let t2 = t1.append(downward_nose(t1.heights, a.m1, a.s0, clockwise));
    let t3 = t2.append(trim_front(height_transition(t2.heights, a.s0, a.s1, clockwise))).pop();
    let t4 = t3.push(
        small_arc(
            Radius::Layer(t3.h(a.s1)),
            clockwise,
            nosed_angle(t3.heights, a.s1, clockwise),
            Radius::Layer(t3.h(a.s1)),
        ),
    );
    t4.set_height(a.m1, t4.h(a.m1) + 1)
}

/// Going down just before the end: the arc drops, noses down onto the next
/// section and comes back, so that the final nose touches; the next two
/// sections are levelled with the current one (`extra` layers above it for
/// the second).
pub open spec fn branch_touch(st: ArcState, a: Around, clockwise: bool, extra: int) -> ArcState {
    let t0 = st.skip(1).touch();
    let t1 = t0.append(height_transition(t0.heights, a.s0, a.s1, clockwise)).pop();
    let t2 = t1.append(downward_nose(t1.heights, a.s1, a.s2, clockwise));
    let t3 = t2.set_height(a.s0, t2.h(a.s0) + 1);
    let t4 = t3.set_height(a.s1, t3.h(a.s0) as int);
    let t5 = t4.append(trim_front(height_transition(t4.heights, a.s2, a.s1, !clockwise)).drop_last());
    t5.set_height(a.s2, t5.h(a.s0) + extra)
}

/// Staying on the layer over a small dip: an arc along the current layer,
/// and the section ahead is raised to it.
pub open spec fn branch_level(st: ArcState, a: Around, clockwise: bool, angle_2: Angle) -> ArcState {
    let h0 = st.h(a.s0);
    st.push(small_arc(Radius::Layer(h0), clockwise, angle_2, Radius::Layer(h0))).set_height(
        a.s1,
        h0 as int,
    )
}

/// Going down three sections before the end over a low section: the arc
/// rides over it and noses down at the third section ahead; the sections up
/// to it are levelled one layer above.
pub open spec fn branch_touch_wide(st: ArcState, a: Around, clockwise: bool) -> ArcState {
    let t0 = st.skip(2).touch();
    let h1 = t0.h(a.s1);
    let t1 = t0.set_height(a.s1, t0.h(a.s0) as int);
    let t2 = t1.append(height_transition(t1.heights, a.s1, a.s2, clockwise)).pop();
    let t3 = t2.push(
        small_arc(
            Radius::HalfSectionChord(h1),
            !clockwise,
            section_angle(a.s3 as int),
            Radius::LayerPlusHalfNose(h1),
        ),
    );
    let t4 = t3.set_height(a.s0, t3.h(a.s0) + 1);
    let t5 = t4.set_height(a.s2, t4.h(a.s0) as int);
    let t6 = t5.append(trim_front(height_transition(t5.heights, a.s3, a.s2, !clockwise)).drop_last());
    let t7 = t6.set_height(a.s3, t6.h(a.s0) as int);
    let t8 = t7.set_height(a.s2, t7.h(a.s0) as int);
    t8.set_height(a.s1, t8.h(a.s0) as int)
}

/// Climbing on the last step: the last two commands give way to a climb from
/// the section behind, and the arc ends on a nose one layer down from the
/// raised layer.
pub open spec fn branch_climb_last(st: ArcState, a: Around, clockwise: bool, symbol_end: i8) -> ArcState {
    let h0 = st.h(a.s0);
    let t0 = st.touch().pop().pop();
    let o2 = t0.h(a.m2);
    let o3 = t0.h(a.m3);
    let t1 = t0.set_height(a.m1, t0.h(a.m1) - 1);
    let t2 = t1.set_height(a.s0, t1.h(a.s1) as int);
    let ht = height_transition(t2.heights, a.m1, a.s0, clockwise);
    let t3 = if o3 - 1 > o2 {
        t2.pop().push(
            small_arc(
                Radius::HalfSectionChord(t2.h(a.m1)),
                !clockwise,
                section_angle(a.m1 as int),
                Radius::LayerPlusHalfNose(h0),
            ),
        ).append(trim_front(ht))
    } else {
        t2.append(ht)
    };
    let t4 = t3.set_height(a.m1, t3.h(a.s1) + 1);
    let t5 = t4.set_height(a.s0, t4.h(a.s0) + 1);
    let t6 = t5.push(
        small_arc(
            Radius::LayerMinusNose(t5.h(a.s0)),
            clockwise,
            nosed_angle(t5.heights, a.s1, clockwise),
            Radius::LayerMinusNose(t5.h(a.s0)),
        ),
    );
    let t7 = t6.set_height(a.s1, t6.h(a.s1) + 1);
    t7.push(nose_compressed(t7.heights, symbol_end, clockwise, false))
}

/// What the walk does where the height changes between `s0` and the section
/// ahead (before the last section): one of the special shapes above, or a
/// plain height transition (dropping the last command first when rising).
pub open spec fn arc_branch(
    st: ArcState,
    len: int,
    a: Around,
    clockwise: bool,
    symbol_end: i8,
    angle_2: Angle,
) -> ArcState {
    let h0 = st.h(a.s0);
    let h1 = st.h(a.s1);
    let h2 = st.h(a.s2);
    let h3 = st.h(a.s3);
    let hm1 = st.h(a.m1);
    let hm2 = st.h(a.m2);
    if hm2 > hm1 && hm1 - 1 == h0 && h0 < h1 {
        branch_pit(st, a, clockwise)
    } else if st.i + 3 == len && h0 > h1 {
        branch_touch(st, a, clockwise, 0)
    } else if st.i + 2 < len && h0 > h1 && h0 <= h2 {
        branch_level(st, a, clockwise, angle_2)
    } else if st.i + 2 == len && h0 > h1 {
        branch_touch(st, a, clockwise, 1)
    } else if st.i + 4 == len && h0 > h1 && h1 < SPLIT_NOSE_HEIGHT {
        branch_touch_wide(st, a, clockwise)
    } else if st.i + 2 == len && h0 < h1 {
        branch_climb_last(st, a, clockwise, symbol_end)
    } else if st.i + 3 == len && h0 < h1 {
        branch_level(st, a, clockwise, angle_2)
    } else if st.i + 2 < len && h0 > h1 && h1 == h2 && h2 < h3 {
        st.append(height_transition(st.heights, a.s0, a.s1, clockwise))
    } else {
        let p = if h0 < h1 { st.pop() } else { st };
        p.append(height_transition(p.heights, a.s0, a.s1, clockwise))
    }
}

/// Unless the arc already touched, keeps the height difference between `s0`
/// and the section ahead as an increment for the lower of the two.
pub open spec fn record_increment(st: ArcState, a: Around) -> ArcState {
    if !st.touchy {
        let d: int = if st.h(a.s1) >= st.h(a.s0) { st.h(a.s1) - st.h(a.s0) } else { st.h(a.s0) - st.h(a.s1) };
        if st.h(a.s0) < st.h(a.s1) {
            st.set_increment(a.s0, d)
        } else {
            st.set_increment(a.s1, d)
        }
    } else {
        st
    }
}

/// One step of the walk, at section `a.s0`, the `st.i`-th of `len` sections.
pub open spec fn arc_iteration(st: ArcState, len: int, a: Around, clockwise: bool, symbol_end: i8) -> ArcState {
    let h0 = st.h(a.s0);
    let h1 = st.h(a.s1);
    let angle_2 = if st.i + 2 == len {
        nosed_angle(st.heights, a.s1, clockwise)
    } else {
        section_angle(a.s1 as int)
    };
    let after = if h0 != h1 && st.i + 1 < len {
        record_increment(arc_branch(st, len, a, clockwise, symbol_end, angle_2), a)
    } else if st.i + 1 < len {
        st.push(small_arc(Radius::Layer(h0), clockwise, angle_2, Radius::Layer(h0)))
    } else {
        st
    };
    let raised = if !after.touchy { after.set_height(a.s0, after.h(a.s0) + 1) } else { after };
    raised.skip(1)
}

/// Every step of the walk moves forward in the list of sections.
pub proof fn lemma_arc_iteration_advances(st: ArcState, len: int, a: Around, clockwise: bool, symbol_end: i8)
    ensures
        arc_iteration(st, len, a, clockwise, symbol_end).i > st.i,
{
}

/// The walk from state `st` to the end of the list of sections.
pub open spec fn arc_run(st: ArcState, sections: Seq<i8>, clockwise: bool, symbol_end: i8) -> ArcState
    decreases sections.len() - st.i,
{
    if st.i < 0 || st.i >= sections.len() {
        st
    } else {
        let next = arc_iteration(st, sections.len() as int, around(sections[st.i], clockwise), clockwise, symbol_end);
        proof {
            lemma_arc_iteration_advances(st, sections.len() as int, around(sections[st.i], clockwise), clockwise, symbol_end);
        }
        arc_run(next, sections, clockwise, symbol_end)
    }
}

/// The heights a walk ends with and the commands of its arc: the kept
/// increments are added to the heights, which are then smoothed; unless the
/// arc already ended on a touching nose, it ends on the nose at the symbol's
/// section.
pub open spec fn arc_finish(st: ArcState, symbol_end: i8, clockwise: bool) -> (Seq<i64>, Seq<PathStep>) {
    let steps = if !st.touchy {
        st.steps.push(nose_compressed(st.heights, symbol_end, clockwise, false))
    } else {
        st.steps
    };
    let summed = Seq::new(st.heights.len(), |k: int| (st.heights[k] + st.increments[k]) as i64);
    (fill_pass(summed, summed.len()), steps)
}

/// The starting state of the walk over the given heights.
pub open spec fn arc_start(heights: Seq<i64>) -> ArcState {
    ArcState {
        heights,
        steps: Seq::empty(),
        increments: Seq::new(RING_SECTIONS as nat, |k: int| 0i64),
        touchy: false,
        i: 0,
    }
}

/// The heights after, and the commands of, the arc that goes from symbol
/// `symbol_start` to symbol `symbol_end` in the given direction.
#[verifier::opaque]
pub open spec fn compressed_arc(heights: Seq<i64>, symbol_start: i8, symbol_end: i8, clockwise: bool) -> (Seq<i64>, Seq<PathStep>) {
    let sections = section_walk(RING_SECTIONS, (symbol_start * 2) as i8, (symbol_end * 2) as i8, clockwise);
    arc_finish(arc_run(arc_start(heights), sections, clockwise, symbol_end), symbol_end, clockwise)
}

/// The executable state of a walk.
struct ArcWork {
    heights: Vec<i64>,
    steps: Vec<PathStep>,
    increments: Vec<i64>,
    touchy: bool,
    i: usize,
}

impl View for ArcWork {
    type V = ArcState;

    closed spec fn view(&self) -> ArcState {
        ArcState {
            heights: self.heights@,
            steps: self.steps@,
            increments: self.increments@,
            touchy: self.touchy,
            i: self.i as int,
        }
    }
}

/// The kept increments are never negative and stay far from the limits of
/// `i64`.
pub open spec fn increments_within(increments: Seq<i64>) -> bool {
    &&& increments.len() == RING_SECTIONS
    &&& forall|k: int| 0 <= k < increments.len() ==> 0 <= #[trigger] increments[k] <= 0x2_0000_0000
}

impl ArcWork {
    fn h(&self, s: i8) -> (v: i64)
        requires
            self.heights@.len() == RING_SECTIONS,
            on_ring(s),
        ensures
            v == self@.h(s),
    {
        self.heights[s as usize]
    }

    fn set_height(&mut self, s: i8, v: i64)
        requires
            old(self).heights@.len() == RING_SECTIONS,
            on_ring(s),
        ensures
            final(self)@ == old(self)@.set_height(s, v as int),
    {
        self.heights.set(s as usize, v);
    }

    fn set_increment(&mut self, s: i8, v: i64)
        requires
            old(self).increments@.len() == RING_SECTIONS,
            on_ring(s),
        ensures
            final(self)@ == old(self)@.set_increment(s, v as int),
    {
        self.increments.set(s as usize, v);
    }

    fn push(&mut self, p: PathStep)
        ensures
            final(self)@ == old(self)@.push(p),
    {
        self.steps.push(p);
    }

    fn pop(&mut self)
        ensures
            final(self)@ == old(self)@.pop(),
    {
        let _ = self.steps.pop();
        assert(self@ =~= old(self)@.pop());
    }

    fn append(&mut self, ps: Vec<PathStep>)
        ensures
            final(self)@ == old(self)@.append(ps@),
    {
        let mut ps = ps;
        self.steps.append(&mut ps);
    }

    fn touch(&mut self)
        ensures
            final(self)@ == old(self)@.touch(),
    {
        self.touchy = true;
    }

    fn skip(&mut self, n: usize)
        requires
            old(self).i + n <= usize::MAX,
        ensures
            final(self)@ == old(self)@.skip(n as int),
    {
        self.i = self.i + n;
    }
}

/// The list of commands without its first two.
fn cut_front(ps: Vec<PathStep>) -> (out: Vec<PathStep>)
    requires
        ps@.len() >= 2,
    ensures
        out@ == trim_front(ps@),
{
    let mut out = ps;
    out.remove(0);
    out.remove(0);
    assert(out@ =~= trim_front(ps@));
    out
}

/// The list of commands without its first two and its last.
fn cut_both(ps: Vec<PathStep>) -> (out: Vec<PathStep>)
    requires
        ps@.len() >= 3,
    ensures
        out@ == trim_front(ps@).drop_last(),
{
    let mut out = cut_front(ps);
    let _ = out.pop();
    assert(out@ =~= trim_front(ps@).drop_last());
    out
}

/// The sections round `s0` (see `around`).
fn around_exec(s0: i8, clockwise: bool) -> (a: Around)
    requires
        on_ring(s0),
    ensures
        a == around(s0, clockwise),
        on_ring(a.s0) && on_ring(a.s1) && on_ring(a.s2) && on_ring(a.s3),
        on_ring(a.m1) && on_ring(a.m2) && on_ring(a.m3),
{
    let s1 = change_section(RING_SECTIONS, s0, 1, clockwise);
    let s2 = change_section(RING_SECTIONS, s1, 1, clockwise);
    let s3 = change_section(RING_SECTIONS, s2, 1, clockwise);
    let m1 = change_section(RING_SECTIONS, s0, -1, clockwise);
    let m2 = change_section(RING_SECTIONS, m1, -1, clockwise);
    let m3 = change_section(RING_SECTIONS, m2, -1, clockwise);
    Around { s0, s1, s2, s3, m1, m2, m3 }
}

/// How far heights may have moved from the range of `i32` after `i` steps of
/// a walk: a step raises a height by at most two and lowers it by at most one.
pub open spec fn walk_bound(i: int) -> int {
    0x8000_0000 + 3 * i
}

/// The sections round `s0` are all on the ring.
pub open spec fn around_on_ring(a: Around) -> bool {
    on_ring(a.s0) && on_ring(a.s1) && on_ring(a.s2) && on_ring(a.s3) && on_ring(a.m1) && on_ring(a.m2) && on_ring(a.m3)
}

/// The walk state is in the shape every step expects.
pub open spec fn walk_ready(st: ArcState) -> bool {
    &&& 0 <= st.i < 60
    &&& heights_within(st.heights, walk_bound(st.i))
    &&& increments_within(st.increments)
}

fn do_branch_pit(work: &mut ArcWork, a: &Around, clockwise: bool)
    requires
        walk_ready(old(work)@),
        around_on_ring(*a),
    ensures
        final(work)@ == branch_pit(old(work)@, *a, clockwise),
        heights_within(final(work)@.heights, walk_bound(old(work)@.i)),
{
    work.pop();
    work.pop();
    let hm1 = work.h(a.m1);
    work.set_height(a.m1, hm1 - 1);
    let nose = new_downward_nose(&work.heights, a.m1, a.s0, clockwise);
    work.append(nose);
    let transition = new_height_transition(&work.heights, a.s0, a.s1, clockwise);
    work.append(cut_front(transition));
    work.pop();
    let h1 = work.h(a.s1);
    work.push(PathStep::Arc {
        radius: Radius::Layer(h1),
        large_arc: false,
        sweep: clockwise,
        angle: Angle { section: a.s1 as i64, shift: if clockwise { -1 } else { 1 }, layer: h1 },
        distance: Radius::Layer(h1),
    });
    let hm1 = work.h(a.m1);
    work.set_height(a.m1, hm1 + 1);
}

fn do_branch_touch(work: &mut ArcWork, a: &Around, clockwise: bool, extra: i64)
    requires
        walk_ready(old(work)@),
        around_on_ring(*a),
        0 <= extra <= 1,
    ensures
        final(work)@ == branch_touch(old(work)@, *a, clockwise, extra as int),
        heights_within(final(work)@.heights, walk_bound(old(work)@.i) + 2),
{
    work.skip(1);
    work.touch();
    let transition = new_height_transition(&work.heights, a.s0, a.s1, clockwise);
    work.append(transition);
    work.pop();
    let nose = new_downward_nose(&work.heights, a.s1, a.s2, clockwise);
    work.append(nose);
    let h0 = work.h(a.s0);
    work.set_height(a.s0, h0 + 1);
    let h0 = work.h(a.s0);
    work.set_height(a.s1, h0);
    let back = new_height_transition(&work.heights, a.s2, a.s1, !clockwise);
    work.append(cut_both(back));
    let h0 = work.h(a.s0);
    work.set_height(a.s2, h0 + extra);
}

fn do_branch_level(work: &mut ArcWork, a: &Around, clockwise: bool, angle_2: Angle)
    requires
        walk_ready(old(work)@),
        around_on_ring(*a),
    ensures
        final(work)@ == branch_level(old(work)@, *a, clockwise, angle_2),
        heights_within(final(work)@.heights, walk_bound(old(work)@.i)),
{
    let h0 = work.h(a.s0);
    work.push(PathStep::Arc {
        radius: Radius::Layer(h0),
        large_arc: false,
        sweep: clockwise,
        angle: angle_2,
        distance: Radius::Layer(h0),
    });
    work.set_height(a.s1, h0);
}

fn do_branch_touch_wide(work: &mut ArcWork, a: &Around, clockwise: bool)
    requires
        walk_ready(old(work)@),
        around_on_ring(*a),
    ensures
        final(work)@ == branch_touch_wide(old(work)@, *a, clockwise),
        heights_within(final(work)@.heights, walk_bound(old(work)@.i) + 2),
{
    work.skip(2);
    work.touch();
    let h1 = work.h(a.s1);
    let h0 = work.h(a.s0);
    work.set_height(a.s1, h0);
    let transition = new_height_transition(&work.heights, a.s1, a.s2, clockwise);
    work.append(transition);
    work.pop();
    work.push(PathStep::Arc {
        radius: Radius::HalfSectionChord(h1),
        large_arc: false,
        sweep: !clockwise,
        angle: Angle { section: a.s3 as i64, shift: 0, layer: 0 },
        distance: Radius::LayerPlusHalfNose(h1),
    });
    let h0 = work.h(a.s0);
    work.set_height(a.s0, h0 + 1);
    let h0 = work.h(a.s0);
    work.set_height(a.s2, h0);
    let back = new_height_transition(&work.heights, a.s3, a.s2, !clockwise);
    work.append(cut_both(back));
    let h0 = work.h(a.s0);
    work.set_height(a.s3, h0);
    work.set_height(a.s2, h0);
    work.set_height(a.s1, h0);
}

fn do_branch_climb_last(work: &mut ArcWork, a: &Around, clockwise: bool, symbol_end: i8)
    requires
        walk_ready(old(work)@),
        around_on_ring(*a),
        0 <= symbol_end < NB_SECTIONS,
    ensures
        final(work)@ == branch_climb_last(old(work)@, *a, clockwise, symbol_end),
        heights_within(final(work)@.heights, walk_bound(old(work)@.i) + 2),
{
    let h0_start = work.h(a.s0);
    work.touch();
    work.pop();
    work.pop();
    let o2 = work.h(a.m2);
    let o3 = work.h(a.m3);
    let hm1 = work.h(a.m1);
    work.set_height(a.m1, hm1 - 1);
    let h1 = work.h(a.s1);
    work.set_height(a.s0, h1);
    let transition = new_height_transition(&work.heights, a.m1, a.s0, clockwise);
    if o3 - 1 > o2 {
        work.pop();
        let hm1 = work.h(a.m1);
        work.push(PathStep::Arc {
            radius: Radius::HalfSectionChord(hm1),
            large_arc: false,
            sweep: !clockwise,
            angle: Angle { section: a.m1 as i64, shift: 0, layer: 0 },
            distance: Radius::LayerPlusHalfNose(h0_start),
        });
        work.append(cut_front(transition));
    } else {
        work.append(transition);
    }
    let h1 = work.h(a.s1);
    work.set_height(a.m1, h1 + 1);
    let h0 = work.h(a.s0);
    work.set_height(a.s0, h0 + 1);
    let h0 = work.h(a.s0);
    let h1 = work.h(a.s1);
    work.push(PathStep::Arc {
        radius: Radius::LayerMinusNose(h0),
        large_arc: false,
        sweep: clockwise,
        angle: Angle { section: a.s1 as i64, shift: if clockwise { -1 } else { 1 }, layer: h1 },
        distance: Radius::LayerMinusNose(h0),
    });
    work.set_height(a.s1, h1 + 1);
    let nose = new_nose_compressed(&work.heights, symbol_end, clockwise, false);
    work.push(nose);
}

fn do_arc_branch(work: &mut ArcWork, len: usize, a: &Around, clockwise: bool, symbol_end: i8, angle_2: Angle)
    requires
        walk_ready(old(work)@),
        around_on_ring(*a),
        0 <= symbol_end < NB_SECTIONS,
        old(work)@.i < len <= 60,
    ensures
        final(work)@ == arc_branch(old(work)@, len as int, *a, clockwise, symbol_end, angle_2),
        heights_within(final(work)@.heights, walk_bound(old(work)@.i) + 2),
        !final(work)@.touchy ==> heights_within(final(work)@.heights, walk_bound(old(work)@.i)),
        increments_within(final(work)@.increments),
        old(work)@.i <= final(work)@.i <= old(work)@.i + 2,
{
    let i = work.i;
    let h0 = work.h(a.s0);
    let h1 = work.h(a.s1);
    let h2 = work.h(a.s2);
    let h3 = work.h(a.s3);
    let hm1 = work.h(a.m1);
    let hm2 = work.h(a.m2);
    if hm2 > hm1 && hm1 - 1 == h0 && h0 < h1 {
        do_branch_pit(work, a, clockwise);
    } else if i + 3 == len && h0 > h1 {
        do_branch_touch(work, a, clockwise, 0);
    } else if i + 2 < len && h0 > h1 && h0 <= h2 {
        do_branch_level(work, a, clockwise, angle_2);
    } else if i + 2 == len && h0 > h1 {
        do_branch_touch(work, a, clockwise, 1);
    } else if i + 4 == len && h0 > h1 && h1 < SPLIT_NOSE_HEIGHT {
        do_branch_touch_wide(work, a, clockwise);
    } else if i + 2 == len && h0 < h1 {
        do_branch_climb_last(work, a, clockwise, symbol_end);
    } else if i + 3 == len && h0 < h1 {
        do_branch_level(work, a, clockwise, angle_2);
    } else if i + 2 < len && h0 > h1 && h1 == h2 && h2 < h3 {
        let transition = new_height_transition(&work.heights, a.s0, a.s1, clockwise);
        work.append(transition);
    } else {
        if h0 < h1 {
            work.pop();
        }
        let transition = new_height_transition(&work.heights, a.s0, a.s1, clockwise);
        work.append(transition);
    }
}

fn do_record_increment(work: &mut ArcWork, a: &Around)
    requires
        heights_within(old(work)@.heights, 0x1_0000_0000),
        increments_within(old(work)@.increments),
        around_on_ring(*a),
    ensures
        final(work)@ == record_increment(old(work)@, *a),
        increments_within(final(work)@.increments),
{
    if !work.touchy {
        let h0 = work.h(a.s0);
        let h1 = work.h(a.s1);
        let d = if h1 >= h0 { h1 - h0 } else { h0 - h1 };
        if h0 < h1 {
            work.set_increment(a.s0, d);
        } else {
            work.set_increment(a.s1, d);
        }
    }
}

/// One step of the walk (see `arc_iteration`).
fn do_arc_iteration(work: &mut ArcWork, sections: &Vec<i8>, clockwise: bool, symbol_end: i8)
    requires
        walk_ready(old(work)@),
        old(work)@.i < sections@.len() <= 57,
        forall|k: int| 0 <= k < sections@.len() ==> on_ring(#[trigger] sections@[k]),
        0 <= symbol_end < NB_SECTIONS,
    ensures
        final(work)@ == arc_iteration(
            old(work)@,
            sections@.len() as int,
            around(sections@[old(work)@.i], clockwise),
            clockwise,
            symbol_end,
        ),
        final(work)@.i <= old(work)@.i + 3,
        final(work)@.i > old(work)@.i,
        heights_within(final(work)@.heights, walk_bound(final(work)@.i)),
        increments_within(final(work)@.increments),
{
    let len = sections.len();
    let i = work.i;
    let a = around_exec(sections[i], clockwise);
    let h0 = work.h(a.s0);
    let h1 = work.h(a.s1);
    let angle_2 = if i + 2 == len {
        Angle { section: a.s1 as i64, shift: if clockwise { -1 } else { 1 }, layer: h1 }
    } else {
        Angle { section: a.s1 as i64, shift: 0, layer: 0 }
    };
    if h0 != h1 && i + 1 < len {
        do_arc_branch(work, len, &a, clockwise, symbol_end, angle_2);
        do_record_increment(work, &a);
    } else if i + 1 < len {
        work.push(PathStep::Arc {
            radius: Radius::Layer(h0),
            large_arc: false,
            sweep: clockwise,
            angle: angle_2,
            distance: Radius::Layer(h0),
        });
    }
    if !work.touchy {
        let h0 = work.h(a.s0);
        work.set_height(a.s0, h0 + 1);
    }
    work.skip(1);
}

/// No height is below the innermost layer.
pub open spec fn heights_nonnegative(heights: Seq<i64>) -> bool {
    forall|k: int| 0 <= k < heights.len() ==> #[trigger] heights[k] >= 0
}

proof fn lemma_branch_keeps_nonnegative(st: ArcState, len: int, a: Around, clockwise: bool, symbol_end: i8, angle_2: Angle)
    requires
        walk_ready(st),
        around_on_ring(a),
        heights_nonnegative(st.heights),
    ensures
        heights_nonnegative(arc_branch(st, len, a, clockwise, symbol_end, angle_2).heights),
        arc_branch(st, len, a, clockwise, symbol_end, angle_2).heights.len() == RING_SECTIONS,
        arc_branch(st, len, a, clockwise, symbol_end, angle_2).increments == st.increments,
        heights_within(arc_branch(st, len, a, clockwise, symbol_end, angle_2).heights, walk_bound(st.i) + 2),
{
    let h0 = st.h(a.s0);
    let h1 = st.h(a.s1);
    let h2 = st.h(a.s2);
    let h3 = st.h(a.s3);
    let hm1 = st.h(a.m1);
    let hm2 = st.h(a.m2);
    if hm2 > hm1 && hm1 - 1 == h0 && h0 < h1 {
        let r = branch_pit(st, a, clockwise);
        assert(heights_nonnegative(r.heights));
    } else if st.i + 3 == len && h0 > h1 {
        let r = branch_touch(st, a, clockwise, 0);
        assert(heights_nonnegative(r.heights));
    } else if st.i + 2 < len && h0 > h1 && h0 <= h2 {
    } else if st.i + 2 == len && h0 > h1 {
        let r = branch_touch(st, a, clockwise, 1);
        assert(heights_nonnegative(r.heights));
    } else if st.i + 4 == len && h0 > h1 && h1 < SPLIT_NOSE_HEIGHT {
        let r = branch_touch_wide(st, a, clockwise);
        assert(heights_nonnegative(r.heights));
    } else if st.i + 2 == len && h0 < h1 {
        let r = branch_climb_last(st, a, clockwise, symbol_end);
        assert(heights_nonnegative(r.heights));
    }
}

proof fn lemma_iteration_keeps_nonnegative(st: ArcState, len: int, a: Around, clockwise: bool, symbol_end: i8)
    requires
        walk_ready(st),
        st.i < len <= 57,
        around_on_ring(a),
        heights_nonnegative(st.heights),
    ensures
        walk_ready(arc_iteration(st, len, a, clockwise, symbol_end)),
        heights_nonnegative(arc_iteration(st, len, a, clockwise, symbol_end).heights),
        st.i < arc_iteration(st, len, a, clockwise, symbol_end).i <= st.i + 3,
{
    let h0 = st.h(a.s0);
    let h1 = st.h(a.s1);
    let angle_2 = if st.i + 2 == len {
        nosed_angle(st.heights, a.s1, clockwise)
    } else {
        section_angle(a.s1 as int)
    };
    if h0 != h1 && st.i + 1 < len {
        lemma_branch_keeps_nonnegative(st, len, a, clockwise, symbol_end, angle_2);
    }
}

proof fn lemma_run_keeps_nonnegative(st: ArcState, sections: Seq<i8>, clockwise: bool, symbol_end: i8)
    requires
        walk_ready(st),
        sections.len() <= 57,
        forall|k: int| 0 <= k < sections.len() ==> on_ring(#[trigger] sections[k]),
        heights_nonnegative(st.heights),
    ensures
        heights_nonnegative(arc_run(st, sections, clockwise, symbol_end).heights),
        heights_within(arc_run(st, sections, clockwise, symbol_end).heights, walk_bound(60)),
        increments_within(arc_run(st, sections, clockwise, symbol_end).increments),
    decreases sections.len() - st.i,
{
    if st.i < sections.len() {
        let a = around(sections[st.i], clockwise);
        assert(around_on_ring(a)) by {
            crate::sections::lemma_neighbour_on_ring(clockwise);
        }
        lemma_iteration_keeps_nonnegative(st, sections.len() as int, a, clockwise, symbol_end);
        lemma_run_keeps_nonnegative(
            arc_iteration(st, sections.len() as int, a, clockwise, symbol_end),
            sections,
            clockwise,
            symbol_end,
        );
    }
}

/// Every arc leaves the heights where they were or above the innermost
/// layer: starting from heights that are not negative, the heights after the
/// arc are not negative either.
pub proof fn lemma_compressed_arc_keeps_nonnegative(heights: Seq<i64>, symbol_start: i8, symbol_end: i8, clockwise: bool)
    requires
        heights_within(heights, walk_bound(0)),
        heights_nonnegative(heights),
        ring_symbol(symbol_start),
        ring_symbol(symbol_end),
    ensures
        heights_nonnegative(compressed_arc(heights, symbol_start, symbol_end, clockwise).0),
        compressed_arc(heights, symbol_start, symbol_end, clockwise).0.len() == RING_SECTIONS,
{
    reveal(compressed_arc);
    let sections = section_walk(RING_SECTIONS, (symbol_start * 2) as i8, (symbol_end * 2) as i8, clockwise);
    lemma_section_walk_on_ring(RING_SECTIONS, (symbol_start * 2) as i8, (symbol_end * 2) as i8, clockwise);
    let st = arc_start(heights);
    assert(increments_within(st.increments));
    lemma_run_keeps_nonnegative(st, sections, clockwise, symbol_end);
    let done = arc_run(st, sections, clockwise, symbol_end);
    let summed = Seq::new(done.heights.len(), |k: int| (done.heights[k] + done.increments[k]) as i64);
    assert(heights_nonnegative(summed));
    crate::sections::lemma_fill_pass_raises_within_max(summed, summed.len());
}

/// Fingerprint paths never dip inside the innermost layer: after any number
/// of symbols, every height of a successful plan is 0 or more, and there is
/// one height per ring section.
pub proof fn lemma_fingerprint_heights_nonnegative(encoded: Seq<i8>, n: nat)
    requires
        n <= encoded.len(),
        forall|k: int| 0 <= k < encoded.len() ==> ring_symbol(#[trigger] encoded[k]),
    ensures
        fingerprint_run(encoded, n) matches Some(r) ==> heights_nonnegative(r.0) && r.0.len() == RING_SECTIONS,
    decreases n,
{
    if n > 0 {
        lemma_fingerprint_heights_nonnegative(encoded, (n - 1) as nat);
        if let Some(before) = fingerprint_run(encoded, (n - 1) as nat) {
            let previous_symbol: i8 = if n >= 2 { encoded[n - 2] } else { 0 };
            let clockwise = (n - 1) % 2 == 0;
            if n >= 2 {
                assert(ring_symbol(encoded[n - 2]));
            }
            assert(ring_symbol(encoded[n - 1]));
            if n >= 2 {
                assert(fits_i32(before.0));
            }
            assert(heights_within(before.0, walk_bound(0)));
            lemma_compressed_arc_keeps_nonnegative(before.0, previous_symbol, encoded[n - 1], clockwise);
        }
    }
}

/// The heights after, and the commands of, the arc from symbol
/// `symbol_start` to symbol `symbol_end` (see `compressed_arc`).
fn new_compressed_arc(heights: Vec<i64>, symbol_start: i8, symbol_end: i8, clockwise: bool) -> (res: (Vec<i64>, Vec<PathStep>))
    requires
        heights_within(heights@, walk_bound(0)),
        0 <= symbol_start < NB_SECTIONS,
        0 <= symbol_end < NB_SECTIONS,
    ensures
        (res.0@, res.1@) == compressed_arc(heights@, symbol_start, symbol_end, clockwise),
        res.0@.len() == RING_SECTIONS,
{
    let sections = generate_section_list(RING_SECTIONS, symbol_start * 2, symbol_end * 2, clockwise);
    proof {
        reveal(compressed_arc);
        lemma_section_walk_on_ring(RING_SECTIONS, (symbol_start * 2) as i8, (symbol_end * 2) as i8, clockwise);
    }
    let mut increments: Vec<i64> = Vec::new();
    let mut k: usize = 0;
    while k < RING_SECTIONS as usize
        invariant
            k <= RING_SECTIONS,
            increments@ == Seq::new(k as nat, |j: int| 0i64),
        decreases RING_SECTIONS - k,
    {
        increments.push(0);
        k = k + 1;
        assert(increments@ =~= Seq::new(k as nat, |j: int| 0i64));
    }
    let mut work = ArcWork { heights, steps: Vec::new(), increments, touchy: false, i: 0 };
    let ghost init = work@;
    assert(init == arc_start(heights@));
    while work.i < sections.len()
        invariant
            walk_ready(work@),
            sections@.len() <= 57,
            forall|k: int| 0 <= k < sections@.len() ==> on_ring(#[trigger] sections@[k]),
            0 <= symbol_end < NB_SECTIONS,
            arc_run(work@, sections@, clockwise, symbol_end) == arc_run(init, sections@, clockwise, symbol_end),
        decreases sections@.len() - work@.i,
    {
        do_arc_iteration(&mut work, &sections, clockwise, symbol_end);
    }
    let ghost done = work@;
    assert(done == arc_run(init, sections@, clockwise, symbol_end));
    if !work.touchy {
        let nose = new_nose_compressed(&work.heights, symbol_end, clockwise, false);
        work.steps.push(nose);
    }
    let mut summed: Vec<i64> = Vec::new();
    let mut k: usize = 0;
    while k < RING_SECTIONS as usize
        invariant
            k <= RING_SECTIONS,
            heights_within(work.heights@, walk_bound(60)),
            increments_within(work.increments@),
            summed@ == Seq::new(k as nat, |j: int| (work.heights@[j] + work.increments@[j]) as i64),
        decreases RING_SECTIONS - k,
    {
        summed.push(work.heights[k] + work.increments[k]);
        k = k + 1;
        assert(summed@ =~= Seq::new(k as nat, |j: int| (work.heights@[j] + work.increments@[j]) as i64));
    }
    assert(summed@ =~= Seq::new(done.heights.len(), |j: int| (done.heights[j] + done.increments[j]) as i64));
    fill_tight_gaps(&mut summed);
    (summed, work.steps)
}

/// Every height fits the `i32` that heights are counted in.
pub open spec fn fits_i32(heights: Seq<i64>) -> bool {
    forall|k: int| 0 <= k < heights.len() ==> i32::MIN <= #[trigger] heights[k] <= i32::MAX
}

/// The heights after, and the commands of, the first `n` symbols of a
/// message: the walk starts at symbol 0 on the first layer everywhere, goes
/// clockwise for the first symbol and turns round for each next one, each
/// arc going from the previous symbol to the current one. `None` when a
/// height leaves the range of `i32` after a symbol.
pub open spec fn fingerprint_run(encoded: Seq<i8>, n: nat) -> Option<(Seq<i64>, Seq<PathStep>)>
    decreases n,
{
    if n == 0 {
        Some((Seq::new(RING_SECTIONS as nat, |k: int| 0i64), Seq::empty()))
    } else {
        match fingerprint_run(encoded, (n - 1) as nat) {
            None => None,
            Some(before) => {
                let previous_symbol: i8 = if n >= 2 { encoded[n - 2] } else { 0 };
                let clockwise = (n - 1) % 2 == 0;
                let arc = compressed_arc(before.0, previous_symbol, encoded[n - 1], clockwise);
                if fits_i32(arc.0) {
                    Some((arc.0, before.1 + arc.1))
                } else {
                    None
                }
            },
        }
    }
}

/// Once a height left the range of `i32`, the plan of every longer prefix
/// fails too.
proof fn lemma_fingerprint_run_fails_on(encoded: Seq<i8>, k: nat, m: nat)
    requires
        k <= m,
        fingerprint_run(encoded, k) is None,
    ensures
        fingerprint_run(encoded, m) is None,
    decreases m - k,
{
    if k < m {
        lemma_fingerprint_run_fails_on(encoded, k, (m - 1) as nat);
    }
}

/// A symbol that has a section of its own on the ring.
pub open spec fn ring_symbol(code: i8) -> bool {
    0 <= code < NB_SECTIONS
}

/// The plan of a fingerprint path: its commands, in order, and the height
/// of every ring section once it is drawn.
pub struct FingerprintPlan {
    pub steps: Vec<PathStep>,
    pub heights: Vec<i64>,
}

/// Plans the fingerprint path of an encoded message (see
/// `fingerprint_run`); `None` when a height would leave the range of `i32`.
pub fn fingerprint_plan(encoded: &[i8]) -> (plan: Option<FingerprintPlan>)
    requires
        forall|k: int| 0 <= k < encoded@.len() ==> ring_symbol(#[trigger] encoded@[k]),
    ensures
        match plan {
            Some(p) => fingerprint_run(encoded@, encoded@.len()) == Some((p.heights@, p.steps@)),
            None => fingerprint_run(encoded@, encoded@.len()) is None,
        },
{
    let mut heights: Vec<i64> = Vec::new();
    let mut k: usize = 0;
    while k < RING_SECTIONS as usize
        invariant
            k <= RING_SECTIONS,
            heights@ == Seq::new(k as nat, |j: int| 0i64),
        decreases RING_SECTIONS - k,
    {
        heights.push(0);
        k = k + 1;
        assert(heights@ =~= Seq::new(k as nat, |j: int| 0i64));
    }
    let mut steps: Vec<PathStep> = Vec::new();
    let mut current_symbol: i8 = 0;
    let mut clockwise = true;
    let mut n: usize = 0;
    assert(steps@ =~= Seq::<PathStep>::empty());
    while n < encoded.len()
        invariant
            n <= encoded@.len(),
            forall|k: int| 0 <= k < encoded@.len() ==> ring_symbol(#[trigger] encoded@[k]),
            fingerprint_run(encoded@, n as nat) == Some((heights@, steps@)),
            fits_i32(heights@),
            heights@.len() == RING_SECTIONS,
            clockwise == (n % 2 == 0),
            current_symbol == (if n >= 1 { encoded@[n - 1] } else { 0i8 }),
            ring_symbol(current_symbol),
        decreases encoded@.len() - n,
    {
        let previous_symbol = current_symbol;
        current_symbol = encoded[n];
        let (next_heights, arc_steps) = new_compressed_arc(heights, previous_symbol, current_symbol, clockwise);
        let mut fits = true;
        let mut j: usize = 0;
        while j < next_heights.len()
            invariant
                j <= next_heights@.len(),
                fits <==> forall|k: int| 0 <= k < j ==> i32::MIN <= #[trigger] next_heights@[k] <= i32::MAX,
            decreases next_heights@.len() - j,
        {
            if next_heights[j] < i32::MIN as i64 || next_heights[j] > i32::MAX as i64 {
                fits = false;
            }
            j = j + 1;
        }
        if !fits {
            proof {
                lemma_fingerprint_run_fails_on(encoded@, (n + 1) as nat, encoded@.len());
            }
            return None;
        }
        heights = next_heights;
        let mut arc_steps = arc_steps;
        steps.append(&mut arc_steps);
        clockwise = !clockwise;
        n = n + 1;
    }
    Some(FingerprintPlan { steps, heights })
}

} // verus!
