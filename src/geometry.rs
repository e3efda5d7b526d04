use vstd::prelude::*;

verus! {

/// The product of two `u32` values fits in a `u64`.
pub proof fn lemma_product_fits(a: u32, b: u32)
    ensures
        a as nat * b as nat <= u64::MAX,
{
    assert(a as nat * b as nat <= u32::MAX as nat * u32::MAX as nat) by (nonlinear_arith);
}

/// A rectangle of the terminal grid, in cells.
#[derive(Clone, Copy, Debug, PartialEq, Eq, Structural)]
pub struct Area {
    pub left: u16,
    pub top: u16,
    pub width: u16,
    pub height: u16,
}

impl Area {
    pub fn new(left: u16, top: u16, width: u16, height: u16) -> (r: Area)
        ensures
            r == (Area { left, top, width, height }),
    {
        Area { left, top, width, height }
    }
}

/// The least integer `q` with `q * b >= a`.
pub open spec fn ceil_div(a: nat, b: nat) -> nat
    recommends
        b > 0,
{
    if a % b == 0 {
        a / b
    } else {
        a / b + 1
    }
}

/// `a` divided by `b`, rounded up.
pub fn div_ceil(a: u32, b: u32) -> (r: u32)
    requires
        b > 0,
    ensures
        r == ceil_div(a as nat, b as nat),
        r * b >= a,
        (r - 1) * b < a || r == 0,
{
    let q = a / b;
    if a % b != 0 {
        assert(q < u32::MAX) by (nonlinear_arith)
            requires
                q == a / b,
                a % b != 0,
                b > 0,
        ;
        proof {
            lemma_ceil_bounds(a as nat, b as nat);
        }
        q + 1
    } else {
        proof {
            lemma_ceil_bounds(a as nat, b as nat);
        }
        q
    }
}

/// `ceil_div(a, b)` covers `a` and is the least multiple count to do so.
pub proof fn lemma_ceil_bounds(a: nat, b: nat)
    requires
        b > 0,
    ensures
        ceil_div(a, b) * b >= a,
        ceil_div(a, b) == 0 || (ceil_div(a, b) - 1) * b < a,
{
    let q = a / b;
    let m = a % b;
    vstd::arithmetic::div_mod::lemma_fundamental_div_mod(a as int, b as int);
    if m == 0 {
        assert(q * b == a) by (nonlinear_arith)
            requires
                a == b * q + m,
                m == 0,
        ;
        assert(q == 0 || (q - 1) * b < a) by (nonlinear_arith)
            requires
                a == b * q,
                b > 0,
        ;
    } else {
        assert((q + 1) * b >= a && q * b < a) by (nonlinear_arith)
            requires
                a == b * q + m,
                0 < m < b,
        ;
    }
}

/// The size, in cells, given to an image that needs `opt_cols` by `opt_rows`
/// cells at its native density, inside an area of `cols` by `rows` cells.
/// The image keeps its size when it fits; otherwise it is shrunk, keeping its
/// aspect ratio, until it fits the dimension that constrains it.
pub open spec fn fit_dims(opt_cols: nat, opt_rows: nat, cols: nat, rows: nat) -> (nat, nat) {
    if opt_cols <= cols && opt_rows <= rows {
        (opt_cols, opt_rows)
    } else if opt_cols * rows > opt_rows * cols {
        (cols, opt_rows * cols / opt_cols)
    } else {
        (opt_cols * rows / opt_rows, rows)
    }
}

/// The fitted size never exceeds the area.
pub proof fn lemma_fit_within(opt_cols: nat, opt_rows: nat, cols: nat, rows: nat)
    requires
        opt_cols > 0,
        opt_rows > 0,
    ensures
        fit_dims(opt_cols, opt_rows, cols, rows).0 <= cols,
        fit_dims(opt_cols, opt_rows, cols, rows).1 <= rows,
{
    if opt_cols <= cols && opt_rows <= rows {
    } else if opt_cols * rows > opt_rows * cols {
        assert(opt_rows * cols / opt_cols <= rows) by (nonlinear_arith)
            requires
                opt_cols * rows > opt_rows * cols,
                opt_cols > 0,
        {
            vstd::arithmetic::div_mod::lemma_div_is_ordered(
                (opt_rows * cols) as int,
                (opt_cols * rows) as int,
                opt_cols as int,
            );
            vstd::arithmetic::div_mod::lemma_div_by_multiple(rows as int, opt_cols as int);
        }
    } else {
        assert(opt_cols * rows / opt_rows <= cols) by (nonlinear_arith)
            requires
                opt_cols * rows <= opt_rows * cols,
                opt_rows > 0,
        {
            vstd::arithmetic::div_mod::lemma_div_is_ordered(
                (opt_cols * rows) as int,
                (opt_rows * cols) as int,
                opt_rows as int,
            );
            vstd::arithmetic::div_mod::lemma_div_by_multiple(cols as int, opt_rows as int);
        }
    }
}

/// The offset that centers a length of `inner` cells inside `outer` cells.
pub open spec fn center_offset(outer: nat, inner: nat) -> nat {
    ((outer - inner) / 2) as nat
}

/// The area of `width` by `height` cells centered inside `area`.
pub open spec fn centered(area: Area, width: nat, height: nat) -> Area {
    Area {
        left: (area.left + center_offset(area.width as nat, width)) as u16,
        top: (area.top + center_offset(area.height as nat, height)) as u16,
        width: width as u16,
        height: height as u16,
    }
}

/// A span of `inner` cells placed at `center_offset` has its middle within one
/// cell of the middle of the span of `outer` cells.
pub proof fn lemma_centered_middle(outer: nat, inner: nat)
    requires
        inner <= outer,
    ensures
        center_offset(outer, inner) + inner / 2 <= outer / 2,
        outer / 2 <= center_offset(outer, inner) + inner / 2 + 1,
        center_offset(outer, inner) + inner <= outer,
{
}

} // verus!
