//! Integer arithmetic of positions round a circle of sections.

use vstd::prelude::*;
use vstd::arithmetic::div_mod::{
    lemma_small_mod, lemma_mod_add_multiples_vanish, lemma_fundamental_div_mod, lemma_mod_self_0,
    lemma_mod_multiples_basic, lemma_mod_multiples_vanish,
};

verus! {

/// The remainder of `a` by `b` as Rust's `%` computes it: truncating
/// division, so the remainder takes the sign of `a`.
pub open spec fn truncated_rem(a: int, b: int) -> int {
    if a >= 0 {
        if b > 0 { a % b } else { a % (-b) }
    } else {
        if b > 0 { -((-a) % b) } else { -((-a) % (-b)) }
    }
}

/// The section that `section` names on a circle of `nb_sections` sections,
/// as `(nb_sections + section % nb_sections) % nb_sections`.
pub open spec fn wrapped_section(section: int, nb_sections: int) -> int {
    truncated_rem(nb_sections + truncated_rem(section, nb_sections), nb_sections)
}

/// On a circle of a positive number of sections, every section number names
/// the section of its (Euclidean) remainder, which lies on the circle.
pub proof fn lemma_wrapped_section_is_remainder(section: int, nb_sections: int)
    requires
        nb_sections > 0,
    ensures
        wrapped_section(section, nb_sections) == section % nb_sections,
        0 <= wrapped_section(section, nb_sections) < nb_sections,
{
    let r = truncated_rem(section, nb_sections);
    if section >= 0 {
        assert(r == section % nb_sections);
        assert(0 <= r < nb_sections);
        assert((nb_sections + r) % nb_sections == r % nb_sections) by {
            lemma_mod_add_multiples_vanish(r, nb_sections);
        }
        lemma_small_mod(r as nat, nb_sections as nat);
    } else {
        let m = (-section) % nb_sections;
        assert(r == -m);
        assert(0 <= m < nb_sections);
        assert(0 <= nb_sections + r);
        lemma_fundamental_div_mod(-section, nb_sections);
        let q = (-section) / nb_sections;
        assert(-section == nb_sections * q + m);
        assert(section == nb_sections * (-q) + (-m)) by (nonlinear_arith)
            requires
                -section == nb_sections * q + m,
        ;
        if m == 0 {
            lemma_mod_self_0(nb_sections);
            assert(section == nb_sections * (-q));
            lemma_mod_multiples_basic(-q, nb_sections);
            assert(section % nb_sections == 0) by {
                assert(nb_sections * (-q) == (-q) * nb_sections) by (nonlinear_arith);
            }
        } else {
            lemma_small_mod((nb_sections - m) as nat, nb_sections as nat);
            assert(section == nb_sections * (-q - 1) + (nb_sections - m)) by (nonlinear_arith)
                requires
                    section == nb_sections * (-q) + (-m),
            ;
            lemma_mod_multiples_vanish(-q - 1, nb_sections - m, nb_sections);
            assert(nb_sections * (-q - 1) == (-q - 1) * nb_sections) by (nonlinear_arith);
        }
    }
}

/// The section that `section` names on a circle of `nb_sections` sections
/// (see `wrapped_section`); counting sections round the circle in either
/// direction.
pub fn normalize_section(section: i32, nb_sections: i32) -> (wrapped: i32)
    requires
        nb_sections != 0,
        !(section == i32::MIN && nb_sections == -1),
        i32::MIN <= nb_sections + truncated_rem(section as int, nb_sections as int) <= i32::MAX,
    ensures
        wrapped == wrapped_section(section as int, nb_sections as int),
{
    let r = remainder(section as i64, nb_sections as i64) as i32;
    let t = nb_sections + r;
    remainder(t as i64, nb_sections as i64) as i32
}

/// The remainder of `a` by `b` with the sign of `a` (see `truncated_rem`).
fn remainder(a: i64, b: i64) -> (r: i64)
    requires
        b != 0,
        i32::MIN <= a <= i32::MAX,
        i32::MIN <= b <= i32::MAX,
    ensures
        r == truncated_rem(a as int, b as int),
        -(b as int) < r < b || b < r < -(b as int),
{
    let m: i64 = if b > 0 { b } else { -b };
    if a >= 0 {
        a % m
    } else {
        -((-a) % m)
    }
}

} // verus!
