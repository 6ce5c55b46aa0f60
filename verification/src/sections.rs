//! The ring of sections that a fingerprint path walks around: ordered walks
//! from one section to another, neighbours, and the smoothing of the height
//! profile that the path leaves behind.

use vstd::prelude::*;
use vstd::arithmetic::div_mod::{lemma_small_mod, lemma_mod_self_0, lemma_mod_add_multiples_vanish};

verus! {

/// The sections `a, a + 1, ..., b - 1` (empty when `b <= a`).
pub open spec fn section_range(a: int, b: int) -> Seq<i8> {
    Seq::new(if a < b { (b - a) as nat } else { 0 }, |k: int| (a + k) as i8)
}

/// The sections that a walk from `from` to `to` visits on a ring of
/// `nb_sections` sections, both ends included. Clockwise the walk goes up and
/// wraps from `nb_sections - 1` to 0; anticlockwise it goes down and wraps from
/// 0 to `nb_sections - 1`. A walk from a section to itself goes once round.
pub open spec fn section_walk(nb_sections: i8, from: i8, to: i8, clockwise: bool) -> Seq<i8> {
    if clockwise {
        if from >= to {
            section_range(from as int, nb_sections as int) + section_range(0, to + 1)
        } else {
            section_range(from as int, to + 1)
        }
    } else {
        if from <= to {
            section_range(0, from + 1).reverse() + section_range(to as int, nb_sections as int).reverse()
        } else {
            section_range(to as int, from + 1).reverse()
        }
    }
}

/// Appends the sections `a, a + 1, ..., b - 1` to `out`.
fn push_range_up(out: &mut Vec<i8>, a: i8, b: i8)
    ensures
        final(out)@ == old(out)@ + section_range(a as int, b as int),
{
    let ghost start = out@;
    let mut s: i8 = a;
    if a >= b {
        assert(section_range(a as int, b as int) =~= Seq::<i8>::empty());
        assert(out@ =~= start + section_range(a as int, b as int));
        return;
    }
    while s < b
        invariant
            a <= s <= b,
            out@ == start + section_range(a as int, s as int),
        decreases b - s,
    {
        out.push(s);
        s = s + 1;
        assert(section_range(a as int, s as int) =~= section_range(a as int, (s - 1) as int).push(
            (s - 1) as i8,
        ));
    }
}

/// Appends the sections `b - 1, b - 2, ..., a` to `out`.
fn push_range_down(out: &mut Vec<i8>, a: i8, b: i8)
    ensures
        final(out)@ == old(out)@ + section_range(a as int, b as int).reverse(),
{
    let ghost start = out@;
    if a >= b {
        assert(section_range(a as int, b as int).reverse() =~= Seq::<i8>::empty());
        assert(out@ =~= start + section_range(a as int, b as int).reverse());
        return;
    }
    let mut s: i8 = b;
    while s > a
        invariant
            a <= s <= b,
            out@ == start + section_range(s as int, b as int).reverse(),
        decreases s - a,
    {
        s = s - 1;
        out.push(s);
        assert(section_range(s as int, b as int).reverse() =~= section_range(
            (s + 1) as int,
            b as int,
        ).reverse().push(s));
    }
}

/// The list of sections that a walk from `section_1` to `section_2` visits
/// on a ring of `nb_sections` sections (see `section_walk`).
pub fn generate_section_list(nb_sections: i8, section_1: i8, section_2: i8, clockwise: bool) -> (list: Vec<i8>)
    requires
        clockwise ==> section_2 < i8::MAX,
        !clockwise ==> section_1 < i8::MAX,
    ensures
        list@ == section_walk(nb_sections, section_1, section_2, clockwise),
{
    let mut list: Vec<i8> = Vec::new();
    if clockwise {
        if section_1 > section_2 || section_1 == section_2 {
            push_range_up(&mut list, section_1, nb_sections);
            push_range_up(&mut list, 0, section_2 + 1);
        } else {
            push_range_up(&mut list, section_1, section_2 + 1);
        }
    } else if section_1 < section_2 || section_1 == section_2 {
        push_range_down(&mut list, 0, section_1 + 1);
        push_range_down(&mut list, section_2, nb_sections);
    } else {
        push_range_down(&mut list, section_2, section_1 + 1);
    }
    assert(list@ =~= section_walk(nb_sections, section_1, section_2, clockwise));
    list
}

/// A walk between two sections of a ring stays on the ring, visits at least
/// two sections and at most one more than the ring holds.
pub proof fn lemma_section_walk_on_ring(nb_sections: i8, from: i8, to: i8, clockwise: bool)
    requires
        0 <= from < nb_sections,
        0 <= to < nb_sections,
    ensures
        2 <= section_walk(nb_sections, from, to, clockwise).len() <= nb_sections + 1,
        forall|k: int|
            0 <= k < section_walk(nb_sections, from, to, clockwise).len() ==> 0 <= #[trigger] section_walk(
                nb_sections,
                from,
                to,
                clockwise,
            )[k] < nb_sections,
{
    let w = section_walk(nb_sections, from, to, clockwise);
    if clockwise {
        if from >= to {
            let a = section_range(from as int, nb_sections as int);
            let b = section_range(0, to + 1);
            assert forall|k: int| 0 <= k < w.len() implies 0 <= #[trigger] w[k] < nb_sections by {
                if k < a.len() {
                    assert(w[k] == a[k]);
                } else {
                    assert(w[k] == b[k - a.len()]);
                }
            }
        }
    } else {
        if from <= to {
            let a = section_range(0, from + 1).reverse();
            let b = section_range(to as int, nb_sections as int).reverse();
            assert forall|k: int| 0 <= k < w.len() implies 0 <= #[trigger] w[k] < nb_sections by {
                if k < a.len() {
                    assert(w[k] == a[k]);
                } else {
                    assert(w[k] == b[k - a.len()]);
                }
            }
        }
    }
}

/// A walk between two sections of a ring starts at the first, ends at the
/// second, and every section it visits after the first is the neighbour, one
/// step in the direction of travel, of the section before it.
pub proof fn lemma_section_walk_steps(nb_sections: i8, from: i8, to: i8, clockwise: bool)
    requires
        0 <= from < nb_sections,
        0 <= to < nb_sections,
    ensures
        section_walk(nb_sections, from, to, clockwise)[0] == from,
        section_walk(nb_sections, from, to, clockwise).last() == to,
        forall|k: int|
            0 <= k < section_walk(nb_sections, from, to, clockwise).len() - 1 ==> #[trigger] section_walk(
                nb_sections,
                from,
                to,
                clockwise,
            )[k + 1] == neighbour(nb_sections, section_walk(nb_sections, from, to, clockwise)[k], 1, clockwise),
{
    lemma_section_walk_on_ring(nb_sections, from, to, clockwise);
    let w = section_walk(nb_sections, from, to, clockwise);
    if clockwise {
        if from >= to {
            let a = section_range(from as int, nb_sections as int);
            let b = section_range(0, to + 1);
            assert(w[0] == a[0]);
            assert(w.last() == b.last());
            assert forall|k: int| 0 <= k < w.len() - 1 implies #[trigger] w[k + 1] == neighbour(nb_sections, w[k], 1, clockwise) by {
                if k + 1 < a.len() {
                    assert(w[k] == a[k] && w[k + 1] == a[k + 1]);
                } else if k + 1 == a.len() {
                    assert(w[k] == a[k] && w[k + 1] == b[0]);
                } else {
                    assert(w[k] == b[k - a.len()] && w[k + 1] == b[k + 1 - a.len()]);
                }
            }
        }
    } else {
        if from <= to {
            let a = section_range(0, from + 1).reverse();
            let b = section_range(to as int, nb_sections as int).reverse();
            assert(w[0] == a[0]);
            assert(w.last() == b.last());
            assert forall|k: int| 0 <= k < w.len() - 1 implies #[trigger] w[k + 1] == neighbour(nb_sections, w[k], 1, clockwise) by {
                if k + 1 < a.len() {
                    assert(w[k] == a[k] && w[k + 1] == a[k + 1]);
                } else if k + 1 == a.len() {
                    assert(w[k] == a[k] && w[k + 1] == b[0]);
                } else {
                    assert(w[k] == b[k - a.len()] && w[k + 1] == b[k + 1 - a.len()]);
                }
            }
        }
    }
}

/// The neighbour of `current` that a step of `delta` reaches on a ring of
/// `ring_len` sections: the step is taken upwards when clockwise and
/// downwards otherwise; stepping below 0 lands on the last section and
/// stepping past the last one lands on 0.
pub open spec fn neighbour(ring_len: i8, current: i8, delta: i8, clockwise: bool) -> i8 {
    let d: int = if clockwise { delta as int } else { -delta };
    if current + d < 0 {
        (ring_len - 1) as i8
    } else if current + d >= ring_len {
        0
    } else {
        (current + d) as i8
    }
}

/// On the ring of 56 sections, the neighbours of a section, either way, are
/// sections of the ring.
pub proof fn lemma_neighbour_on_ring(clockwise: bool)
    ensures
        forall|s: i8, d: i8| 0 <= s < 56 && (d == 1 || d == -1) ==> 0 <= #[trigger] neighbour(56, s, d, clockwise) < 56,
{
}

/// The neighbour of `current_section` (see `neighbour`).
pub fn change_section(ring_len: i8, current_section: i8, delta: i8, clockwise: bool) -> (section: i8)
    requires
        ring_len > i8::MIN,
        delta > i8::MIN,
        i8::MIN <= current_section + (if clockwise { delta as int } else { -delta }) <= i8::MAX,
    ensures
        section == neighbour(ring_len, current_section, delta, clockwise),
{
    let delta: i8 = if !clockwise { -delta } else { delta };
    if current_section + delta < 0 {
        ring_len - 1
    } else if current_section + delta >= ring_len {
        0
    } else {
        current_section + delta
    }
}

/// One step of the smoothing pass at position `i`: when the height just after
/// `i` is strictly below both of its neighbours (the ring wraps round), it is
/// raised to the lower of the two.
pub open spec fn fill_step(heights: Seq<i64>, i: int) -> Seq<i64> {
    let n = heights.len() as int;
    let i1 = (i + 1) % n;
    let i2 = (i + 2) % n;
    if heights[i1] < heights[i] && heights[i1] < heights[i2] {
        heights.update(i1, if heights[i] < heights[i2] { heights[i] } else { heights[i2] })
    } else {
        heights
    }
}

/// The heights after the smoothing steps at positions `0, 1, ..., k - 1`,
/// taken in that order.
pub open spec fn fill_pass(heights: Seq<i64>, k: nat) -> Seq<i64>
    decreases k,
{
    if k == 0 {
        heights
    } else {
        fill_step(fill_pass(heights, (k - 1) as nat), k - 1)
    }
}

/// The highest height of a profile, or 0 when every height is below 0 or the
/// profile is empty.
pub open spec fn layer_ceiling(heights: Seq<i64>) -> int
    decreases heights.len(),
{
    if heights.len() == 0 {
        0
    } else {
        let rest = layer_ceiling(heights.drop_last());
        if heights.last() > rest {
            heights.last() as int
        } else {
            rest
        }
    }
}

/// Smooths the height profile: one pass over the ring that fills every
/// single-section pit (see `fill_step`).
pub fn fill_tight_gaps(heights: &mut Vec<i64>)
    ensures
        final(heights)@ == fill_pass(old(heights)@, old(heights)@.len()),
        final(heights)@.len() == old(heights)@.len(),
{
    let n = heights.len();
    let ghost start = heights@;
    let mut i: usize = 0;
    while i < n
        invariant
            n == heights@.len(),
            i <= n,
            start.len() == n,
            heights@ == fill_pass(start, i as nat),
        decreases n - i,
    {
        let index_0 = i;
        let index_1 = (i + 1) % n;
        let index_2 = (index_1 + 1) % n;
        assert(index_2 == (i + 2) % (n as int)) by {
            let m = n as int;
            if i + 1 < n {
                lemma_small_mod((i + 1) as nat, m as nat);
                if i + 2 < n {
                    lemma_small_mod((i + 2) as nat, m as nat);
                } else {
                    lemma_mod_self_0(m);
                    lemma_small_mod(0, m as nat);
                }
            } else {
                lemma_mod_self_0(m);
                lemma_mod_add_multiples_vanish(1, m);
            }
        }
        let height_0 = heights[index_0];
        let height_1 = heights[index_1];
        let height_2 = heights[index_2];
        if height_1 < height_0 && height_1 < height_2 {
            let lower = if height_0 < height_2 { height_0 } else { height_2 };
            heights.set(index_1, lower);
        }
        i = i + 1;
    }
}

/// The highest height of the profile, or 0 when no height is above 0.
pub fn max_layer(heights: &Vec<i64>) -> (layer: i64)
    ensures
        layer == layer_ceiling(heights@),
{
    let mut best: i64 = 0;
    let mut i: usize = 0;
    while i < heights.len()
        invariant
            i <= heights@.len(),
            best == layer_ceiling(heights@.take(i as int)),
        decreases heights@.len() - i,
    {
        assert(heights@.take(i + 1).drop_last() =~= heights@.take(i as int));
        if heights[i] > best {
            best = heights[i];
        }
        i = i + 1;
    }
    assert(heights@.take(heights@.len() as int) =~= heights@);
    best
}

/// The ceiling bounds every height from above and is never below 0, and it is
/// 0 or one of the heights.
pub proof fn lemma_layer_ceiling_is_max(heights: Seq<i64>)
    ensures
        layer_ceiling(heights) >= 0,
        forall|k: int| 0 <= k < heights.len() ==> heights[k] <= layer_ceiling(heights),
        layer_ceiling(heights) == 0 || exists|k: int|
            0 <= k < heights.len() && heights[k] == layer_ceiling(heights),
    decreases heights.len(),
{
    if heights.len() > 0 {
        let rest = heights.drop_last();
        lemma_layer_ceiling_is_max(rest);
        assert forall|k: int| 0 <= k < heights.len() implies heights[k] <= layer_ceiling(heights) by {
            if k < heights.len() - 1 {
                assert(heights[k] == rest[k]);
            }
        }
        if layer_ceiling(heights) != 0 && heights.last() <= layer_ceiling(rest) {
            let k = choose|k: int| 0 <= k < rest.len() && rest[k] == layer_ceiling(rest);
            assert(heights[k] == rest[k]);
        }
    }
}

/// Smoothing never lowers a height and never raises one above the highest
/// height of the profile it started from; it keeps the length.
pub proof fn lemma_fill_pass_raises_within_max(heights: Seq<i64>, k: nat)
    requires
        heights.len() > 0,
        k <= heights.len(),
    ensures
        fill_pass(heights, k).len() == heights.len(),
        forall|j: int| 0 <= j < heights.len() ==> heights[j] <= #[trigger] fill_pass(heights, k)[j],
        forall|j: int|
            0 <= j < heights.len() ==> #[trigger] fill_pass(heights, k)[j] <= layer_ceiling(heights),
    decreases k,
{
    lemma_layer_ceiling_is_max(heights);
    if k > 0 {
        lemma_fill_pass_raises_within_max(heights, (k - 1) as nat);
        let prev = fill_pass(heights, (k - 1) as nat);
        let n = heights.len() as int;
        let i = k - 1;
        let i1 = (i + 1) % n;
        let i2 = (i + 2) % n;
        assert(0 <= i1 < n && 0 <= i2 < n);
        assert(prev[i] <= layer_ceiling(heights));
        assert(prev[i2] <= layer_ceiling(heights));
        assert(heights[i1] <= prev[i1]);
    }
}

} // verus!
