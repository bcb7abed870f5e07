//! General properties of the engine, stated and proved once for all
//! inputs: determinism of seeding, correctness of toroidal wrap, the
//! neighbor-count bound, the transition table, and isolation of the
//! generation step.

use vstd::prelude::*;
use crate::universe::{Cell, Universe, next_cell};

verus! {

/// Determinism of construction: two well-formed universes of the same
/// dimensions that both carry the seeded pattern hold exactly the same
/// generation.
pub proof fn lemma_seeding_deterministic(a: Universe, b: Universe)
    requires
        a.wf(),
        b.wf(),
        a.w() == b.w(),
        a.h() == b.h(),
        a.is_seeded(),
        b.is_seeded(),
    ensures
        a.grid() == b.grid(),
{
    assert forall|i: int| 0 <= i < a.grid().len() implies a.grid()[i] == b.grid()[i] by {
        assert(a.grid()[i] == crate::universe::seeded_cell(i));
        assert(b.grid()[i] == crate::universe::seeded_cell(i));
    }
    assert(a.grid() =~= b.grid());
}

/// Toroidal wrap of a -1 offset: for an in-range coordinate x, adding
/// (m - 1) and reducing modulo m is the same as subtracting 1 and
/// reducing modulo m, and both step down to x - 1, wrapping from 0 to
/// m - 1.
pub proof fn lemma_wrap_minus_one(x: int, m: int)
    requires
        0 < m,
        0 <= x < m,
    ensures
        (x + (m - 1)) % m == (x - 1) % m,
        (x + (m - 1)) % m == if x == 0 {
            m - 1
        } else {
            x - 1
        },
{
    if x == 0 {
        vstd::arithmetic::div_mod::lemma_fundamental_div_mod_converse_mod(x + (m - 1), m, 0, m - 1);
        vstd::arithmetic::div_mod::lemma_fundamental_div_mod_converse_mod(x - 1, m, -1, m - 1);
    } else {
        vstd::arithmetic::div_mod::lemma_fundamental_div_mod_converse_mod(x + (m - 1), m, 1, x - 1);
        vstd::arithmetic::div_mod::lemma_fundamental_div_mod_converse_mod(x - 1, m, 0, x - 1);
    }
}

/// Toroidal wrap of a +1 offset: adding 1 modulo m steps up to x + 1,
/// wrapping from m - 1 back to 0.
pub proof fn lemma_wrap_plus_one(x: int, m: int)
    requires
        0 < m,
        0 <= x < m,
    ensures
        (x + 1) % m == if x == m - 1 {
            0
        } else {
            x + 1
        },
{
    if x == m - 1 {
        vstd::arithmetic::div_mod::lemma_fundamental_div_mod_converse_mod(x + 1, m, 1, 0);
    } else {
        vstd::arithmetic::div_mod::lemma_fundamental_div_mod_converse_mod(x + 1, m, 0, x + 1);
    }
}

/// Wrap correctness on the grid itself: the neighbor lookup the engine
/// makes at offset (dimension - 1) reads the same cell as a lookup at
/// offset -1, on rows and on columns alike.
pub proof fn lemma_neighbor_wrap(u: Universe, row: int, col: int)
    requires
        u.wf(),
        0 <= row < u.h(),
        0 <= col < u.w(),
    ensures
        u.cell_at((row + (u.h() - 1)) % u.h(), col) == u.cell_at((row - 1) % u.h(), col),
        u.cell_at(row, (col + (u.w() - 1)) % u.w()) == u.cell_at(row, (col - 1) % u.w()),
{
    lemma_wrap_minus_one(row, u.h());
    lemma_wrap_minus_one(col, u.w());
}

/// The neighbor count of any in-range position lies in [0, 8].
pub proof fn lemma_neighbor_count_bound(u: Universe, row: int, col: int)
    requires
        u.wf(),
        0 <= row < u.h(),
        0 <= col < u.w(),
    ensures
        0 <= u.neighbor_count(row, col) <= 8,
{
}

/// The transition table, case by case: an `Alive` cell with fewer than
/// 2 live neighbors dies, with 2 or 3 survives, with more than 3 dies;
/// a `Dead` cell with exactly 3 live neighbors is born, and with any
/// other count stays `Dead`.
pub proof fn lemma_rule_table(c: Cell, n: int)
    requires
        0 <= n <= 8,
    ensures
        c is Alive && n < 2 ==> next_cell(c, n) is Dead,
        c is Alive && (n == 2 || n == 3) ==> next_cell(c, n) is Alive,
        c is Alive && n > 3 ==> next_cell(c, n) is Dead,
        c is Dead && n == 3 ==> next_cell(c, n) is Alive,
        c is Dead && n != 3 ==> next_cell(c, n) is Dead,
{
}

/// Whether the generation consists of exactly one 2-by-2 block of
/// `Alive` cells whose top-left corner is (br, bc) — the block's other
/// rows and columns wrapping toroidally — every other cell being
/// `Dead`.
pub open spec fn is_block_at(u: Universe, br: int, bc: int) -> bool {
    forall|r: int, c: int|
        0 <= r < u.h() && 0 <= c < u.w() ==> (u.cell_at(r, c) is Alive <==> ((r == br || r == (br
            + 1) % u.h()) && (c == bc || c == (bc + 1) % u.w())))
}

/// Steady state of a 2-by-2 block: on any grid at least 3 wide and 3
/// high, wherever the block sits (edges and wrap included), every
/// `Alive` cell has exactly 3 live neighbors and no `Dead` cell has
/// exactly 3, so the generation is a fixed point of the step and the
/// block survives any number of ticks. On a dimension of 2 the wrapped
/// lookups count the same cells twice and the property does not hold.
#[verifier::rlimit(100)]
pub proof fn lemma_block_steady(u: Universe, br: int, bc: int)
    requires
        u.wf(),
        3 <= u.h(),
        3 <= u.w(),
        0 <= br < u.h(),
        0 <= bc < u.w(),
        is_block_at(u, br, bc),
    ensures
        u.next_gen() == u.grid(),
{
    let w = u.w();
    let h = u.h();
    assert forall|i: int| 0 <= i < u.grid().len() implies u.next_gen()[i] == u.grid()[i] by {
        let r = i / w;
        let c = i % w;
        vstd::arithmetic::div_mod::lemma_fundamental_div_mod(i, w);
        assert(w * r == r * w) by (nonlinear_arith);
        assert(0 <= r < h) by (nonlinear_arith)
            requires
                0 < w,
                0 <= c < w,
                i == r * w + c,
                0 <= i < w * h,
        {
        }
        lemma_wrap_minus_one(r, h);
        lemma_wrap_plus_one(r, h);
        lemma_wrap_minus_one(c, w);
        lemma_wrap_plus_one(c, w);
        lemma_wrap_plus_one(br, h);
        lemma_wrap_plus_one(bc, w);
        let up = (r + (h - 1)) % h;
        let down = (r + 1) % h;
        let left = (c + (w - 1)) % w;
        let right = (c + 1) % w;
        let br2 = (br + 1) % h;
        let bc2 = (bc + 1) % w;
        assert(u.cell_at(r, c) is Alive <==> ((r == br || r == br2) && (c == bc || c == bc2)));
        assert(u.cell_at(up, left) is Alive <==> ((up == br || up == br2) && (left == bc || left
            == bc2)));
        assert(u.cell_at(up, c) is Alive <==> ((up == br || up == br2) && (c == bc || c == bc2)));
        assert(u.cell_at(up, right) is Alive <==> ((up == br || up == br2) && (right == bc || right
            == bc2)));
        assert(u.cell_at(r, left) is Alive <==> ((r == br || r == br2) && (left == bc || left
            == bc2)));
        assert(u.cell_at(r, right) is Alive <==> ((r == br || r == br2) && (right == bc || right
            == bc2)));
        assert(u.cell_at(down, left) is Alive <==> ((down == br || down == br2) && (left == bc
            || left == bc2)));
        assert(u.cell_at(down, c) is Alive <==> ((down == br || down == br2) && (c == bc || c
            == bc2)));
        assert(u.cell_at(down, right) is Alive <==> ((down == br || down == br2) && (right == bc
            || right == bc2)));
        assert(u.grid()[i] == u.cell_at(r, c));
        assert(u.next_gen()[i] == next_cell(u.cell_at(r, c), u.neighbor_count(r, c)));
    }
    assert(u.next_gen() =~= u.grid());
}

/// Isolation of the step: the next generation is a function of the
/// current generation and the dimensions alone, so two engines holding
/// equal generations on equal dimensions step to equal generations —
/// no partially computed next-state can influence the result.
pub proof fn lemma_step_isolated(a: Universe, b: Universe)
    requires
        a.wf(),
        b.wf(),
        a.w() == b.w(),
        a.h() == b.h(),
        a.grid() == b.grid(),
    ensures
        a.next_gen() == b.next_gen(),
{
    assert(a.next_gen() =~= b.next_gen());
}

} // verus!

