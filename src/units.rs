use vstd::prelude::*;

verus! {

/// `10^n`.
pub open spec fn pow10(n: nat) -> int
    decreases n,
{
    if n == 0 { 1 } else { 10 * pow10((n - 1) as nat) }
}

/// Division that truncates toward zero, as Rust's `/` on signed integers does.
pub open spec fn trunc_div(a: int, b: int) -> int
    recommends b > 0,
{
    if a >= 0 { a / b } else { -((-a) / b) }
}

/// `a` divided by `d`, rounded to the nearest integer, halves away from zero.
pub open spec fn round_half_away(a: int, d: int) -> int
    recommends d > 0,
{
    if a >= 0 { (a + d / 2) / d } else { -((-a + d / 2) / d) }
}

/// A fixed-point value with `scale` decimals, rounded to `precision` decimals and
/// expressed with `precision` decimals.
pub open spec fn round_spec(value: int, scale: nat, precision: nat) -> int {
    round_half_away(value, pow10((scale - precision) as nat))
}

/// Raw volume, in millionths of a cubic metre, of `quantity` inner units: whole
/// master cartons at the carton volume and the rest at the unit volume, or every
/// unit at the unit volume when no carton volume is known.
pub open spec fn raw_volume(quantity: int, inner_qty_on_mas: int, volume: int, master_volume: int) -> int {
    if master_volume > 0 {
        trunc_div(quantity, inner_qty_on_mas) * master_volume
            + (quantity - trunc_div(quantity, inner_qty_on_mas) * inner_qty_on_mas) * volume
    } else {
        quantity * volume
    }
}

/// Volume in thousandths of a cubic metre, rounded half away from zero.
pub open spec fn cbm_spec(quantity: int, inner_qty_on_mas: int, volume: int, master_volume: int) -> int {
    round_spec(raw_volume(quantity, inner_qty_on_mas, volume, master_volume), 6, 3)
}

/// Number of master cartons needed for `quantity` units.
pub open spec fn master_qty_spec(quantity: int, inner_qty_on_mas: int) -> int {
    trunc_div(quantity + inner_qty_on_mas - 1, inner_qty_on_mas)
}

proof fn lemma_pow10_bounds(n: nat)
    ensures
        pow10(n) >= 1,
        n >= 1 ==> pow10(n) >= 10 && pow10(n) % 2 == 0,
    decreases n,
{
    if n > 0 {
        lemma_pow10_bounds((n - 1) as nat);
        assert(pow10(n) == 10 * pow10((n - 1) as nat));
        assert((10 * pow10((n - 1) as nat)) % 2 == 0) by (nonlinear_arith);
    }
}

proof fn lemma_round_bound(a: int, d: int)
    requires
        d >= 1,
    ensures
        a >= 0 ==> 0 <= round_half_away(a, d) <= a / d + 1,
        a < 0 ==> -((-a) / d + 1) <= round_half_away(a, d) <= 0,
        d == 1 ==> round_half_away(a, d) == a,
{
    if a >= 0 {
        assert(0 <= (a + d / 2) / d <= a / d + 1) by (nonlinear_arith)
            requires a >= 0, d >= 1;
    } else {
        assert(0 <= (-a + d / 2) / d <= (-a) / d + 1) by (nonlinear_arith)
            requires a < 0, d >= 1;
    }
    if d == 1 {
        assert(d / 2 == 0);
        assert(a / d == a && (-a) / d == -a) by (nonlinear_arith)
            requires d == 1;
    }
}

/// `10^n` as an integer.
fn pow10_exec(n: u32) -> (r: i128)
    requires
        n <= 30,
    ensures
        r as int == pow10(n as nat),
{
    let mut r: i128 = 1;
    let mut i: u32 = 0;
    while i < n
        invariant
            i <= n <= 30,
            r as int == pow10(i as nat),
            1 <= r <= pow10(i as nat),
        decreases n - i,
    {
        proof {
            assert(pow10(i as nat) <= pow10(30)) by {
                lemma_pow10_monotone(i as nat, 30);
            }
            reveal_with_fuel(pow10, 31);
            assert(pow10(30) == 1000000000000000000000000000000);
        }
        r = r * 10;
        i = i + 1;
    }
    r
}

proof fn lemma_pow10_monotone(a: nat, b: nat)
    requires
        a <= b,
    ensures
        pow10(a) <= pow10(b),
    decreases b - a,
{
    if a < b {
        lemma_pow10_monotone(a, (b - 1) as nat);
        lemma_pow10_bounds((b - 1) as nat);
    }
}

/// Rounds a fixed-point `value` with `scale` decimals to `precision` decimals
/// (two when none is given), halves away from zero; the result carries
/// `precision` decimals.
pub fn round_float(value: i128, scale: u32, precision: Option<u32>) -> (r: i128)
    requires
        scale <= 30,
        precision matches Some(p) ==> p <= scale,
        precision is None ==> 2 <= scale,
        -0x1000_0000_0000_0000_0000_0000_0000 < value < 0x1000_0000_0000_0000_0000_0000_0000,
    ensures
        r as int == round_spec(
            value as int,
            scale as nat,
            (match precision {
                Some(p) => p,
                None => 2u32,
            }) as nat,
        ),
{
    let p: u32 = match precision {
        Some(p) => p,
        None => 2,
    };
    let d = pow10_exec(scale - p);
    proof {
        lemma_pow10_bounds((scale - p) as nat);
        lemma_round_bound(value as int, d as int);
    }
    if value >= 0 {
        (value + d / 2) / d
    } else {
        -((-value + d / 2) / d)
    }
}

/// Volume, in thousandths of a cubic metre, of `quantity` inner units, where
/// `volume` and `master_volume` are in millionths of a cubic metre.
pub fn calculate_cbm(quantity: i32, inner_qty_on_mas: i32, volume: u32, master_volume: u32) -> (r: i64)
    requires
        inner_qty_on_mas >= 1,
    ensures
        r as int == cbm_spec(quantity as int, inner_qty_on_mas as int, volume as int, master_volume as int),
{
    let q = quantity as i128;
    let n = inner_qty_on_mas as i128;
    let master_boxes: i128 = if q >= 0 {
        q / n
    } else {
        -((-q) / n)
    };
    proof {
        if q >= 0 {
            assert(0 <= q / n <= q) by (nonlinear_arith)
                requires q >= 0, n >= 1;
            assert(0 <= master_boxes * n <= q) by (nonlinear_arith)
                requires master_boxes == q / n, q >= 0, n >= 1;
        } else {
            assert(0 <= (-q) / (n as int) <= -q) by (nonlinear_arith)
                requires q < 0, n >= 1;
            assert(q <= master_boxes * n <= 0) by (nonlinear_arith)
                requires master_boxes == -((-q) / (n as int)), q < 0, n >= 1;
        }
    }
    let inner_boxes: i128 = q - master_boxes * n;
    let raw: i128 = if master_volume > 0 {
        proof {
            assert(-0x8000_0000 * 0x1_0000_0000 <= master_boxes * (master_volume as i128) <= 0x8000_0000 * 0x1_0000_0000) by (nonlinear_arith)
                requires -0x8000_0000 <= master_boxes <= 0x8000_0000, 0 <= master_volume < 0x1_0000_0000;
            assert(-0x8000_0000 * 0x1_0000_0000 <= inner_boxes * (volume as i128) <= 0x8000_0000 * 0x1_0000_0000) by (nonlinear_arith)
                requires -0x8000_0000 <= inner_boxes <= 0x8000_0000, 0 <= volume < 0x1_0000_0000;
        }
        master_boxes * (master_volume as i128) + inner_boxes * (volume as i128)
    } else {
        proof {
            assert(-0x8000_0000 * 0x1_0000_0000 <= q * (volume as i128) <= 0x8000_0000 * 0x1_0000_0000) by (nonlinear_arith)
                requires -0x8000_0000 <= q <= 0x8000_0000, 0 <= volume < 0x1_0000_0000;
        }
        q * (volume as i128)
    };
    let r = round_float(raw, 6, Some(3));
    proof {
        reveal_with_fuel(pow10, 4);
        assert(pow10(3) == 1000);
        lemma_round_bound(raw as int, 1000);
    }
    r as i64
}

/// Number of master cartons needed for `quantity` units: the quotient of
/// `quantity + inner_qty_on_mas - 1` by `inner_qty_on_mas`, truncated.
pub fn calculate_master_qty(quantity: i32, inner_qty_on_mas: i32) -> (r: i32)
    requires
        inner_qty_on_mas >= 1,
    ensures
        r as int == master_qty_spec(quantity as int, inner_qty_on_mas as int),
{
    let a: i64 = quantity as i64 + inner_qty_on_mas as i64 - 1;
    let n: i64 = inner_qty_on_mas as i64;
    if a >= 0 {
        proof {
            assert(0 <= a / n) by (nonlinear_arith)
                requires a >= 0, n >= 1;
            if quantity >= 1 {
                assert(a / n <= quantity) by (nonlinear_arith)
                    requires a == quantity + n - 1, quantity >= 1, n >= 1;
            } else {
                assert(a / n == 0) by (nonlinear_arith)
                    requires 0 <= a < n;
            }
        }
        (a / n) as i32
    } else {
        proof {
            assert(0 <= (-a) / (n as int) <= -a) by (nonlinear_arith)
                requires a < 0, n >= 1;
        }
        (-((-a) / n)) as i32
    }
}

} // verus!
