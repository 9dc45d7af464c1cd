use vstd::prelude::*;

verus! {

/// The number of distinct 32-bit draws.
pub open spec fn draw_space() -> int {
    0x1_0000_0000
}

/// The index picked for `raw` among `count` alternatives: the integer part of
/// `raw * count / 2^32`.
pub open spec fn spec_select(raw: int, count: int) -> int {
    (raw * count) / draw_space()
}

/// Maps a 32-bit draw to an index below `count` by fixed-point
/// multiplication: the top 32 bits of the widened product `raw * count`.
/// No modulo is taken, so the draw space splits into contiguous ranges.
pub fn select(raw: u32, count: u64) -> (r: u64)
    requires
        count >= 1,
    ensures
        r as int == spec_select(raw as int, count as int),
        r < count,
{
    assert((raw as int) * (count as int) < 0x1_0000_0000_0000_0000_0000_0000) by (nonlinear_arith)
        requires
            raw < 0x1_0000_0000,
            count < 0x1_0000_0000_0000_0000,
    ;
    let p: u128 = (raw as u128) * (count as u128);
    assert(p >> 32u128 == p / 0x1_0000_0000u128) by (bit_vector);
    proof {
        lemma_select_below(raw as int, count as int);
    }
    (p >> 32u128) as u64
}

proof fn lemma_select_below(raw: int, count: int)
    requires
        0 <= raw < draw_space(),
        count >= 1,
    ensures
        0 <= spec_select(raw, count) < count,
{
    assert(0 <= raw * count) by (nonlinear_arith)
        requires
            0 <= raw,
            count >= 1,
    ;
    assert(raw * count < draw_space() * count) by (nonlinear_arith)
        requires
            raw < draw_space(),
            count >= 1,
    ;
    vstd::arithmetic::div_mod::lemma_div_pos_is_pos(raw * count, draw_space());
    vstd::arithmetic::div_mod::lemma_multiply_divide_lt(raw * count, draw_space(), count);
}

/// Every draw selects an index inside `[0, count)`.
pub proof fn lemma_select_in_range(raw: u32, count: u64)
    requires
        count >= 1,
    ensures
        0 <= spec_select(raw as int, count as int) < count,
{
    lemma_select_below(raw as int, count as int);
}

/// For a fixed count, a larger draw never selects a smaller index: the
/// indices partition the draw space into contiguous ranges.
pub proof fn lemma_select_monotonic(a: u32, b: u32, count: u64)
    requires
        a <= b,
    ensures
        spec_select(a as int, count as int) <= spec_select(b as int, count as int),
{
    assert((a as int) * (count as int) <= (b as int) * (count as int)) by (nonlinear_arith)
        requires
            a <= b,
            count >= 0,
    ;
    vstd::arithmetic::div_mod::lemma_div_is_ordered(
        (a as int) * (count as int),
        (b as int) * (count as int),
        draw_space(),
    );
}

} // verus!
