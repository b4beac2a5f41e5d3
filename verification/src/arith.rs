use vstd::prelude::*;

verus! {

/// `x` is representable as an `i128`.
pub open spec fn fits_i128(x: int) -> bool {
    i128::MIN <= x <= i128::MAX
}

/// `x` is representable as a `u32`.
pub open spec fn fits_u32(x: int) -> bool {
    0 <= x <= u32::MAX
}

/// `x` is representable as a `u64`.
pub open spec fn fits_u64(x: int) -> bool {
    0 <= x <= u64::MAX
}

/// Integer division rounding toward zero, as Rust's `/` on signed integers does.
pub open spec fn trunc_div(x: int, d: int) -> int {
    if x == 0 {
        0
    } else if x > 0 && d > 0 {
        x / d
    } else if x < 0 && d < 0 {
        (-x) / (-d)
    } else if x < 0 {
        -((-x) / d)
    } else {
        -(x / (-d))
    }
}

/// `x - y`, clamped to the range of `i128`.
pub open spec fn saturating_sub_i128(x: int, y: int) -> int {
    if x - y > i128::MAX {
        i128::MAX as int
    } else if x - y < i128::MIN {
        i128::MIN as int
    } else {
        x - y
    }
}

/// `i128::saturating_sub`.
pub fn sat_sub_i128(x: i128, y: i128) -> (r: i128)
    ensures
        r == saturating_sub_i128(x as int, y as int),
{
    match x.checked_sub(y) {
        Some(d) => d,
        None => if y > 0 {
            i128::MIN
        } else {
            i128::MAX
        },
    }
}

/// Truncating division of `i128`s, `None` where Rust's `/` would panic.
pub fn checked_div_i128(x: i128, d: i128) -> (r: Option<i128>)
    ensures
        r == (if d == 0 || !fits_i128(trunc_div(x as int, d as int)) {
            None
        } else {
            Some(trunc_div(x as int, d as int) as i128)
        }),
{
    x.checked_div(d)
}

} // verus!
