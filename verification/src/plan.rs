//! Splitting a length into equal parts with a shorter last part: a file
//! into pieces, a piece into requested chunks.

use vstd::prelude::*;

verus! {

/// The size of the last part when `total` bytes are cut into parts of `unit` bytes.
pub open spec fn last_part_size(total: int, unit: int) -> int {
    if total % unit == 0 {
        unit
    } else {
        total % unit
    }
}

/// How many parts of `unit` bytes, the last possibly shorter, make up `total` bytes.
pub open spec fn part_count(total: int, unit: int) -> int {
    (total + unit - 1) / unit
}

/// The size of part `i` when `total` bytes are cut into parts of `unit` bytes.
pub open spec fn part_size(total: int, unit: int, i: int) -> int {
    if i == part_count(total, unit) - 1 {
        last_part_size(total, unit)
    } else {
        unit
    }
}

/// The bytes covered by the first `n` parts.
pub open spec fn parts_total(total: int, unit: int, n: nat) -> int
    decreases n,
{
    if n == 0 {
        0
    } else {
        parts_total(total, unit, (n - 1) as nat) + part_size(total, unit, n - 1)
    }
}

proof fn lemma_count_bounds(total: int, unit: int)
    requires
        total >= 0,
        unit > 0,
    ensures
        part_count(total, unit) >= 0,
        total == 0 ==> part_count(total, unit) == 0,
        total > 0 ==> part_count(total, unit) >= 1,
        total > 0 && total % unit == 0 ==> part_count(total, unit) * unit == total,
        total > 0 && total % unit != 0 ==> (part_count(total, unit) - 1) * unit + total % unit
            == total,
        0 <= total % unit < unit,
{
    let c = part_count(total, unit);
    let q = total / unit;
    let r = total % unit;
    assert(total == q * unit + r && 0 <= r < unit) by (nonlinear_arith)
        requires
            unit > 0,
            q == total / unit,
            r == total % unit,
    ;
    assert(q >= 0) by (nonlinear_arith)
        requires
            unit > 0,
            total >= 0,
            q == total / unit,
    ;
    if r == 0 {
        assert(c == q) by (nonlinear_arith)
            requires
                unit > 0,
                total == q * unit,
                c == (total + unit - 1) / unit,
        ;
        if total > 0 {
            assert(q > 0) by (nonlinear_arith)
                requires
                    unit > 0,
                    total == q * unit,
                    total > 0,
            ;
        }
    } else {
        assert(c == q + 1) by (nonlinear_arith)
            requires
                unit > 0,
                total == q * unit + r,
                0 < r < unit,
                c == (total + unit - 1) / unit,
        ;
    }
    if total == 0 {
        assert(q == 0);
    }
}

proof fn lemma_prefix_total(total: int, unit: int, n: nat)
    requires
        total >= 0,
        unit > 0,
        n < part_count(total, unit),
    ensures
        parts_total(total, unit, n) == n * unit,
    decreases n,
{
    if n > 0 {
        let m = (n - 1) as nat;
        lemma_prefix_total(total, unit, m);
        assert(part_size(total, unit, m as int) == unit);
        assert(parts_total(total, unit, n) == parts_total(total, unit, m) + part_size(total, unit, m as int));
        assert(m * unit + unit == n * unit) by (nonlinear_arith)
            requires
                m + 1 == n,
        ;
    } else {
        assert(n * unit == 0) by (nonlinear_arith)
            requires
                n == 0,
        ;
    }
}

/// Cutting `total` bytes into parts of `unit` bytes covers them exactly:
/// every part holds between one and `unit` bytes, part `i` starts at
/// byte `i * unit`, and all the parts together hold `total` bytes.
pub proof fn lemma_parts_cover(total: int, unit: int)
    requires
        total >= 0,
        unit > 0,
    ensures
        part_count(total, unit) >= 0,
        parts_total(total, unit, part_count(total, unit) as nat) == total,
        forall|i: int|
            0 <= i < part_count(total, unit) ==> 0 < #[trigger] part_size(total, unit, i) <= unit,
        forall|i: nat|
            i < part_count(total, unit) ==> #[trigger] parts_total(total, unit, i) == i * unit,
{
    lemma_count_bounds(total, unit);
    let c = part_count(total, unit);
    assert forall|i: nat| i < part_count(total, unit) implies #[trigger] parts_total(
        total,
        unit,
        i,
    ) == i * unit by {
        lemma_prefix_total(total, unit, i);
    }
    if c > 0 {
        let m = (c - 1) as nat;
        lemma_prefix_total(total, unit, m);
        assert(part_size(total, unit, m as int) == last_part_size(total, unit));
        assert(parts_total(total, unit, c as nat) == parts_total(total, unit, m) + part_size(total, unit, m as int));
        assert(total > 0);
        if total % unit == 0 {
            assert(m * unit + unit == c * unit) by (nonlinear_arith)
                requires
                    m + 1 == c,
            ;
            assert(c * unit == total);
        } else {
            assert((c - 1) * unit + total % unit == total);
            assert(m * unit + total % unit == total);
        }
    }
}

} // verus!
