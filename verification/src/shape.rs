//! Integer geometry shared by the passes that work on a neighbourhood of a
//! centre: the integer square root, and the order in which offsets are walked.

use vstd::prelude::*;

verus! {

/// The largest number that `isqrt` takes: the square of 2^31.
pub const ISQRT_MAX: i64 = 0x4000_0000_0000_0000;

/// The square of `a`.
pub open spec fn square(a: int) -> int {
    a * a
}

/// A square is never negative.
pub proof fn square_is_not_negative(a: int)
    ensures
        square(a) >= 0,
{
    assert(a * a >= 0) by (nonlinear_arith);
}

/// Whether `c` comes before `(x, y, z)` in the order that compares the first
/// components, then the second, then the third.
pub open spec fn walked_before(c: (int, int, int), x: int, y: int, z: int) -> bool {
    c.0 < x || (c.0 == x && (c.1 < y || (c.1 == y && c.2 < z)))
}

/// The offset of `c` from `center`.
pub open spec fn offset(c: (int, int, int), center: (int, int, int)) -> (int, int, int) {
    (c.0 - center.0, c.1 - center.1, c.2 - center.2)
}

/// The offsets in the layers below `iz`.
pub open spec fn layers_below(iz: int) -> spec_fn((int, int, int)) -> bool {
    |d: (int, int, int)| d.2 < iz
}

/// The offsets in the layers below `iz`, and in the rows before `iy` of the
/// layer `iz`.
pub open spec fn rows_before(iz: int, iy: int) -> spec_fn((int, int, int)) -> bool {
    |d: (int, int, int)| d.2 < iz || (d.2 == iz && d.1 < iy)
}

/// The offsets that are walked before `(ix, iy, iz)`.
pub open spec fn offsets_before(iz: int, iy: int, ix: int) -> spec_fn((int, int, int)) -> bool {
    |d: (int, int, int)| walked_before((d.2, d.1, d.0), iz, iy, ix)
}

/// Whether `r` is the integer square root of `n`: the largest number whose
/// square does not exceed `n`.
pub open spec fn is_isqrt(n: int, r: int) -> bool {
    0 <= r && r * r <= n < (r + 1) * (r + 1)
}

/// With `r` the integer square root of `n`, the numbers whose square does not
/// exceed `n` are those from `-r` to `r`.
pub proof fn square_within(a: int, n: int, r: int)
    requires
        is_isqrt(n, r),
    ensures
        square(a) <= n <==> -r <= a <= r,
{
    assert(-r <= a <= r ==> a * a <= r * r) by (nonlinear_arith)
        requires
            0 <= r,
    ;
    assert(a >= r + 1 ==> a * a >= (r + 1) * (r + 1)) by (nonlinear_arith)
        requires
            0 <= r,
    ;
    assert(a <= -(r + 1) ==> a * a >= (r + 1) * (r + 1)) by (nonlinear_arith)
        requires
            0 <= r,
    ;
}

/// The integer square root of `n`.
pub fn isqrt(n: i64) -> (r: i64)
    requires
        0 <= n <= ISQRT_MAX,
    ensures
        is_isqrt(n as int, r as int),
        r <= 0x8000_0000,
{
    let mut r: i64 = 0;
    loop
        invariant
            0 <= r <= 0x8000_0000,
            r * r <= n <= ISQRT_MAX,
        ensures
            is_isqrt(n as int, r as int),
        decreases 0x8000_0000 - r,
    {
        assert((r + 1) * (r + 1) <= 0x8000_0001 * 0x8000_0001) by (nonlinear_arith)
            requires
                0 <= r <= 0x8000_0000,
        ;
        let next: i64 = (r + 1) * (r + 1);
        if next > n {
            break ;
        }
        assert(r + 1 <= 0x8000_0000) by (nonlinear_arith)
            requires
                0 <= r,
                (r + 1) * (r + 1) <= 0x4000_0000_0000_0000,
        ;
        r = r + 1;
    }
    r
}

} // verus!
