//! Decibel/linear gain conversion in fixed point.
//!
//! Gains are carried as whole millibels (1 mB = 1/100 dB, the unit UPnP
//! device APIs use), and linear gain factors as Q24 fixed point: the value
//! `LIN_ONE` (2^24) stands for a factor of exactly 1. Conversion goes
//! through a table of 10^(k/20) at whole-decibel nodes from -60 dB to
//! +20 dB, with linear interpolation between nodes, so that conversion and
//! mixing are exact integer arithmetic.

use vstd::prelude::*;

verus! {

/// Q24 fixed-point representation of a linear gain factor of 1 (0 dB).
pub const LIN_ONE: u64 = 16777216;

/// Lowest gain the conversion distinguishes, in millibels (-60 dB).
pub const MB_MIN: i32 = -6000;

/// Highest gain the conversion distinguishes, in millibels (+20 dB).
pub const MB_MAX: i32 = 2000;

/// Q24 values of 10^(k/20) for k = -60, -59, ..., +20: one node per whole
/// decibel over the supported range.
pub open spec fn gain_table() -> Seq<u64> {
    seq![
        16777u64, 18824u64, 21121u64, 23698u64, 26590u64, 29835u64,
        33475u64, 37560u64, 42142u64, 47285u64, 53054u64, 59528u64,
        66791u64, 74941u64, 84085u64, 94345u64, 105857u64, 118774u64,
        133266u64, 149527u64, 167772u64, 188243u64, 211213u64, 236984u64,
        265901u64, 298346u64, 334749u64, 375595u64, 421425u64, 472846u64,
        530542u64, 595278u64, 667913u64, 749411u64, 840853u64, 943452u64,
        1058571u64, 1187736u64, 1332662u64, 1495271u64, 1677722u64, 1882435u64,
        2112126u64, 2369845u64, 2659010u64, 2983458u64, 3347495u64, 3755951u64,
        4214246u64, 4728462u64, 5305422u64, 5952781u64, 6679130u64, 7494107u64,
        8408526u64, 9434522u64, 10585708u64, 11877359u64, 13326616u64, 14952709u64,
        16777216u64, 18824346u64, 21121264u64, 23698447u64, 26590095u64, 29834578u64,
        33474947u64, 37559508u64, 42142461u64, 47284619u64, 53054215u64, 59527809u64,
        66791300u64, 74941071u64, 84085265u64, 94345219u64, 105857077u64, 118773593u64,
        133266164u64, 149527095u64, 167772160u64,
    ]
}

/// Table node `i` as a mathematical integer.
pub open spec fn node(i: int) -> int {
    gain_table()[i] as int
}

/// Millibel value clipped to the supported range.
pub open spec fn clip_mb(mb: int) -> int {
    if mb < MB_MIN as int {
        MB_MIN as int
    } else if mb > MB_MAX as int {
        MB_MAX as int
    } else {
        mb
    }
}

/// The Q24 linear gain factor for a gain of `mb` millibels: the table node
/// for whole decibels, linear interpolation between adjacent nodes
/// otherwise. Inputs outside [`MB_MIN`, `MB_MAX`] are clipped.
pub open spec fn lin_of_mb(mb: int) -> int {
    let c = clip_mb(mb) + 6000;
    let i = c / 100;
    let r = c % 100;
    if r == 0 {
        node(i)
    } else {
        node(i) + (node(i + 1) - node(i)) * r / 100
    }
}

/// The table in executable form.
fn table_vec() -> (t: Vec<u64>)
    ensures
        t@ == gain_table(),
{
    let t: Vec<u64> = vec![
        16777u64, 18824u64, 21121u64, 23698u64, 26590u64, 29835u64,
        33475u64, 37560u64, 42142u64, 47285u64, 53054u64, 59528u64,
        66791u64, 74941u64, 84085u64, 94345u64, 105857u64, 118774u64,
        133266u64, 149527u64, 167772u64, 188243u64, 211213u64, 236984u64,
        265901u64, 298346u64, 334749u64, 375595u64, 421425u64, 472846u64,
        530542u64, 595278u64, 667913u64, 749411u64, 840853u64, 943452u64,
        1058571u64, 1187736u64, 1332662u64, 1495271u64, 1677722u64, 1882435u64,
        2112126u64, 2369845u64, 2659010u64, 2983458u64, 3347495u64, 3755951u64,
        4214246u64, 4728462u64, 5305422u64, 5952781u64, 6679130u64, 7494107u64,
        8408526u64, 9434522u64, 10585708u64, 11877359u64, 13326616u64, 14952709u64,
        16777216u64, 18824346u64, 21121264u64, 23698447u64, 26590095u64, 29834578u64,
        33474947u64, 37559508u64, 42142461u64, 47284619u64, 53054215u64, 59527809u64,
        66791300u64, 74941071u64, 84085265u64, 94345219u64, 105857077u64, 118773593u64,
        133266164u64, 149527095u64, 167772160u64,
    ];
    proof {
        assert(t@ =~= gain_table());
    }
    t
}

/// Adjacent table nodes increase strictly.
pub proof fn lemma_table_adjacent_increasing(i: int)
    requires
        0 <= i < 80,
    ensures
        node(i) < node(i + 1),
{
    assert(gain_table()[0] < gain_table()[1]);
    assert(gain_table()[1] < gain_table()[2]);
    assert(gain_table()[2] < gain_table()[3]);
    assert(gain_table()[3] < gain_table()[4]);
    assert(gain_table()[4] < gain_table()[5]);
    assert(gain_table()[5] < gain_table()[6]);
    assert(gain_table()[6] < gain_table()[7]);
    assert(gain_table()[7] < gain_table()[8]);
    assert(gain_table()[8] < gain_table()[9]);
    assert(gain_table()[9] < gain_table()[10]);
    assert(gain_table()[10] < gain_table()[11]);
    assert(gain_table()[11] < gain_table()[12]);
    assert(gain_table()[12] < gain_table()[13]);
    assert(gain_table()[13] < gain_table()[14]);
    assert(gain_table()[14] < gain_table()[15]);
    assert(gain_table()[15] < gain_table()[16]);
    assert(gain_table()[16] < gain_table()[17]);
    assert(gain_table()[17] < gain_table()[18]);
    assert(gain_table()[18] < gain_table()[19]);
    assert(gain_table()[19] < gain_table()[20]);
    assert(gain_table()[20] < gain_table()[21]);
    assert(gain_table()[21] < gain_table()[22]);
    assert(gain_table()[22] < gain_table()[23]);
    assert(gain_table()[23] < gain_table()[24]);
    assert(gain_table()[24] < gain_table()[25]);
    assert(gain_table()[25] < gain_table()[26]);
    assert(gain_table()[26] < gain_table()[27]);
    assert(gain_table()[27] < gain_table()[28]);
    assert(gain_table()[28] < gain_table()[29]);
    assert(gain_table()[29] < gain_table()[30]);
    assert(gain_table()[30] < gain_table()[31]);
    assert(gain_table()[31] < gain_table()[32]);
    assert(gain_table()[32] < gain_table()[33]);
    assert(gain_table()[33] < gain_table()[34]);
    assert(gain_table()[34] < gain_table()[35]);
    assert(gain_table()[35] < gain_table()[36]);
    assert(gain_table()[36] < gain_table()[37]);
    assert(gain_table()[37] < gain_table()[38]);
    assert(gain_table()[38] < gain_table()[39]);
    assert(gain_table()[39] < gain_table()[40]);
    assert(gain_table()[40] < gain_table()[41]);
    assert(gain_table()[41] < gain_table()[42]);
    assert(gain_table()[42] < gain_table()[43]);
    assert(gain_table()[43] < gain_table()[44]);
    assert(gain_table()[44] < gain_table()[45]);
    assert(gain_table()[45] < gain_table()[46]);
    assert(gain_table()[46] < gain_table()[47]);
    assert(gain_table()[47] < gain_table()[48]);
    assert(gain_table()[48] < gain_table()[49]);
    assert(gain_table()[49] < gain_table()[50]);
    assert(gain_table()[50] < gain_table()[51]);
    assert(gain_table()[51] < gain_table()[52]);
    assert(gain_table()[52] < gain_table()[53]);
    assert(gain_table()[53] < gain_table()[54]);
    assert(gain_table()[54] < gain_table()[55]);
    assert(gain_table()[55] < gain_table()[56]);
    assert(gain_table()[56] < gain_table()[57]);
    assert(gain_table()[57] < gain_table()[58]);
    assert(gain_table()[58] < gain_table()[59]);
    assert(gain_table()[59] < gain_table()[60]);
    assert(gain_table()[60] < gain_table()[61]);
    assert(gain_table()[61] < gain_table()[62]);
    assert(gain_table()[62] < gain_table()[63]);
    assert(gain_table()[63] < gain_table()[64]);
    assert(gain_table()[64] < gain_table()[65]);
    assert(gain_table()[65] < gain_table()[66]);
    assert(gain_table()[66] < gain_table()[67]);
    assert(gain_table()[67] < gain_table()[68]);
    assert(gain_table()[68] < gain_table()[69]);
    assert(gain_table()[69] < gain_table()[70]);
    assert(gain_table()[70] < gain_table()[71]);
    assert(gain_table()[71] < gain_table()[72]);
    assert(gain_table()[72] < gain_table()[73]);
    assert(gain_table()[73] < gain_table()[74]);
    assert(gain_table()[74] < gain_table()[75]);
    assert(gain_table()[75] < gain_table()[76]);
    assert(gain_table()[76] < gain_table()[77]);
    assert(gain_table()[77] < gain_table()[78]);
    assert(gain_table()[78] < gain_table()[79]);
    assert(gain_table()[79] < gain_table()[80]);
}

/// The table increases strictly over any pair of indices.
pub proof fn lemma_table_increasing(i: int, j: int)
    requires
        0 <= i < j <= 80,
    ensures
        node(i) < node(j),
    decreases j - i,
{
    lemma_table_adjacent_increasing(i);
    if i + 1 < j {
        lemma_table_increasing(i + 1, j);
    }
}

/// Every gain factor the conversion can produce lies between the factors
/// for -60 dB and +20 dB.
pub proof fn lemma_lin_of_mb_bounds(mb: int)
    ensures
        16777 <= lin_of_mb(mb) <= 167772160,
{
    let c = clip_mb(mb) + 6000;
    let i = c / 100;
    let r = c % 100;
    assert(0 <= c <= 8000);
    assert(0 <= i <= 80) by (nonlinear_arith)
        requires
            0 <= c <= 8000,
            i == c / 100,
    ;
    assert(0 <= r < 100) by (nonlinear_arith)
        requires
            c >= 0,
            r == c % 100,
    ;
    if i > 0 {
        lemma_table_increasing(0, i);
    }
    if i < 80 {
        lemma_table_increasing(i, 80);
    }
    if r != 0 {
        assert(i < 80) by (nonlinear_arith)
            requires
                0 <= c <= 8000,
                i == c / 100,
                r == c % 100,
                r != 0,
        ;
        lemma_table_adjacent_increasing(i);
        if i + 1 < 80 {
            lemma_table_increasing(i + 1, 80);
        }
        let d = node(i + 1) - node(i);
        assert(0 <= d * r) by (nonlinear_arith)
            requires
                d > 0,
                r > 0,
        ;
        assert(d * r <= d * 100) by (nonlinear_arith)
            requires
                d > 0,
                0 < r < 100,
        ;
        vstd::arithmetic::div_mod::lemma_div_is_ordered(d * r, d * 100, 100);
        vstd::arithmetic::div_mod::lemma_div_by_multiple(d, 100);
        assert(d * r / 100 <= d);
        vstd::arithmetic::div_mod::lemma_div_pos_is_pos(d * r, 100);
    }
}

/// A gain of 0 mB is a linear factor of exactly 1.
pub proof fn lemma_lin_of_mb_zero()
    ensures
        lin_of_mb(0) == LIN_ONE as int,
{
    assert(lin_of_mb(0) == node(60));
    assert(gain_table()[60] == 16777216u64);
}

/// Converts a gain in millibels to a Q24 linear factor.
///
/// Inputs below -6000 mB (-60 dB) or above +2000 mB (+20 dB) are clipped
/// to that range.
pub fn db_to_lin(mb: i32) -> (r: u64)
    ensures
        r as int == lin_of_mb(mb as int),
{
    let c: i32 = if mb < MB_MIN {
        MB_MIN
    } else if mb > MB_MAX {
        MB_MAX
    } else {
        mb
    };
    let shifted: u64 = (c + 6000) as u64;
    let i: usize = (shifted / 100) as usize;
    let r: u64 = shifted % 100;
    let t = table_vec();
    proof {
        assert(i == (clip_mb(mb as int) + 6000) / 100);
        assert(r as int == (clip_mb(mb as int) + 6000) % 100);
        assert(0 <= i <= 80) by (nonlinear_arith)
            requires
                0 <= shifted <= 8000,
                i == shifted / 100,
        ;
    }
    if r == 0 {
        t[i]
    } else {
        proof {
            assert(i < 80) by (nonlinear_arith)
                requires
                    0 <= shifted <= 8000,
                    i == shifted / 100,
                    r == shifted % 100,
                    r != 0,
            ;
            lemma_table_adjacent_increasing(i as int);
            if (i as int) + 1 < 80 {
                lemma_table_increasing((i as int) + 1, 80);
            }
            assert(gain_table()[80] == 167772160u64);
        }
        let lo = t[i];
        let hi = t[i + 1];
        proof {
            let di = (hi as int) - (lo as int);
            assert(di * (r as int) <= di * 100) by (nonlinear_arith)
                requires
                    di >= 0,
                    0 <= r < 100,
            ;
        }
        lo + (hi - lo) * r / 100
    }
}

/// The whole-decibel bracket that a linear value falls in: the least index
/// at or after `i` whose successor node lies above `lin` (stopping at the
/// last bracket).
pub open spec fn bracket_from(lin: int, i: int) -> int
    recommends
        0 <= i <= 79,
    decreases 79 - i,
{
    if i >= 79 {
        79
    } else if lin < node(i + 1) {
        i
    } else {
        bracket_from(lin, i + 1)
    }
}

/// The gain in millibels whose linear factor is nearest `lin`: node values
/// map back to their node, values between nodes are located by inverse
/// interpolation, values outside the table map to the range ends.
pub open spec fn mb_of_lin(lin: int) -> int {
    if lin <= node(0) {
        MB_MIN as int
    } else if lin >= node(80) {
        MB_MAX as int
    } else {
        let i = bracket_from(lin, 0);
        let d = node(i + 1) - node(i);
        let frac = ((lin - node(i)) * 100 + d / 2) / d;
        MB_MIN as int + 100 * i + frac
    }
}

/// Converts a Q24 linear factor back to a gain in millibels.
///
/// Values at or below the -60 dB node return -6000 mB; values at or above
/// the +20 dB node return +2000 mB.
pub fn lin_to_db(lin: u64) -> (r: i32)
    ensures
        r as int == mb_of_lin(lin as int),
{
    let t = table_vec();
    if lin <= t[0] {
        return MB_MIN;
    }
    if lin >= t[80] {
        return MB_MAX;
    }
    let mut i: usize = 0;
    while i < 79 && lin >= t[i + 1]
        invariant
            0 <= i <= 79,
            t@ == gain_table(),
            node(0) < (lin as int) && (lin as int) < node(80),
            bracket_from(lin as int, 0) == bracket_from(lin as int, i as int),
            lin as int >= node(i as int),
        decreases 79 - i,
    {
        i = i + 1;
    }
    proof {
        assert(bracket_from(lin as int, i as int) == i as int);
        if i < 79 {
            assert((lin as int) < node((i as int) + 1));
        } else {
            assert((lin as int) < node(80));
        }
        lemma_table_adjacent_increasing(i as int);
    }
    let lo = t[i];
    let hi = t[i + 1];
    let d = hi - lo;
    let frac = ((lin - lo) * 100 + d / 2) / d;
    proof {
        let di = d as int;
        let fi = ((lin as int - lo as int) * 100 + di / 2) / di;
        assert(fi >= 0) by (nonlinear_arith)
            requires
                di > 0,
                lin as int >= lo as int,
                fi == ((lin as int - lo as int) * 100 + di / 2) / di,
        ;
        assert(fi <= 101) by (nonlinear_arith)
            requires
                di > 0,
                (lo as int) <= (lin as int) && (lin as int) < (lo as int) + di,
                fi == ((lin as int - lo as int) * 100 + di / 2) / di,
        ;
    }
    MB_MIN + 100 * (i as i32) + (frac as i32)
}

/// A node value maps back to its own bracket.
proof fn lemma_bracket_of_node(k: int, i: int)
    requires
        0 <= i <= k < 80,
        node(0) < node(k),
    ensures
        bracket_from(node(k), i) == k,
    decreases 79 - i,
{
    lemma_table_adjacent_increasing(i);
    if i < k {
        lemma_table_increasing(i, k);
        if i + 1 <= k {
            lemma_bracket_of_node(k, i + 1);
        }
    }
}

/// Converting a whole-decibel gain to its linear factor and back returns
/// the same gain: the round trip over the conversion pair is exact at
/// every whole decibel in the supported range.
pub proof fn lemma_round_trip(k: int)
    requires
        -60 <= k <= 20,
    ensures
        mb_of_lin(lin_of_mb(100 * k)) == 100 * k,
{
    let c = clip_mb(100 * k) + 6000;
    assert(c == 100 * k + 6000);
    let i = c / 100;
    assert(i == k + 60) by (nonlinear_arith)
        requires
            c == 100 * k + 6000,
            i == c / 100,
            -60 <= k <= 20,
    ;
    assert(c % 100 == 0) by (nonlinear_arith)
        requires
            c == 100 * k + 6000,
            -60 <= k <= 20,
    ;
    assert(lin_of_mb(100 * k) == node(k + 60));
    if k == -60 {
        assert(mb_of_lin(node(0)) == -6000);
    } else if k == 20 {
        assert(mb_of_lin(node(80)) == 2000);
    } else {
        lemma_table_increasing(0, k + 60);
        lemma_table_increasing(k + 60, 80);
        lemma_bracket_of_node(k + 60, 0);
        let d = node(k + 61) - node(k + 60);
        lemma_table_adjacent_increasing(k + 60);
        assert(d / 2 < d) by (nonlinear_arith)
            requires
                d > 0,
        ;
        assert((0 * 100 + d / 2) / d == 0) by (nonlinear_arith)
            requires
                d > 0,
                0 <= d / 2 < d,
        ;
        assert(mb_of_lin(node(k + 60)) == -6000 + 100 * (k + 60));
    }
}

/// An interpolated value stays between its bracket's nodes.
proof fn lemma_interp_bounds(i: int, r: int)
    requires
        0 <= i < 80,
        0 <= r < 100,
    ensures
        node(i) <= node(i) + (node(i + 1) - node(i)) * r / 100 <= node(i + 1),
{
    lemma_table_adjacent_increasing(i);
    let d = node(i + 1) - node(i);
    assert(0 <= d * r) by (nonlinear_arith)
        requires
            d > 0,
            r >= 0,
    ;
    assert(d * r <= d * 100) by (nonlinear_arith)
        requires
            d > 0,
            0 <= r < 100,
    ;
    vstd::arithmetic::div_mod::lemma_div_pos_is_pos(d * r, 100);
    vstd::arithmetic::div_mod::lemma_div_is_ordered(d * r, d * 100, 100);
    vstd::arithmetic::div_mod::lemma_div_by_multiple(d, 100);
}

/// The conversion from millibels to linear factors never decreases: a
/// higher gain never yields a smaller factor.
pub proof fn lemma_lin_of_mb_monotone(a: int, b: int)
    requires
        a <= b,
    ensures
        lin_of_mb(a) <= lin_of_mb(b),
{
    let ca = clip_mb(a) + 6000;
    let cb = clip_mb(b) + 6000;
    assert(0 <= ca <= cb <= 8000);
    let ia = ca / 100;
    let ra = ca % 100;
    let ib = cb / 100;
    let rb = cb % 100;
    vstd::arithmetic::div_mod::lemma_fundamental_div_mod(ca, 100);
    vstd::arithmetic::div_mod::lemma_fundamental_div_mod(cb, 100);
    vstd::arithmetic::div_mod::lemma_div_is_ordered(ca, cb, 100);
    assert(0 <= ia <= ib <= 80) by (nonlinear_arith)
        requires
            0 <= ca <= cb <= 8000,
            ia == ca / 100,
            ib == cb / 100,
            ia <= ib,
    ;
    assert(0 <= ra < 100) by (nonlinear_arith)
        requires
            ca >= 0,
            ra == ca % 100,
    ;
    assert(0 <= rb < 100) by (nonlinear_arith)
        requires
            cb >= 0,
            rb == cb % 100,
    ;
    if ia == ib {
        if ra > 0 || rb > 0 {
            assert(ia < 80) by (nonlinear_arith)
                requires
                    0 <= ca <= cb <= 8000,
                    ia == ca / 100,
                    ib == cb / 100,
                    ia == ib,
                    ca == 100 * ia + ra,
                    cb == 100 * ib + rb,
                    0 <= ra < 100,
                    0 <= rb < 100,
                    ra > 0 || rb > 0,
            ;
            lemma_table_adjacent_increasing(ia);
            let d = node(ia + 1) - node(ia);
            assert(ra <= rb);
            assert(d * ra <= d * rb) by (nonlinear_arith)
                requires
                    d > 0,
                    ra <= rb,
            ;
            vstd::arithmetic::div_mod::lemma_div_is_ordered(d * ra, d * rb, 100);
            if ra == 0 {
                lemma_interp_bounds(ia, rb);
            }
        }
    } else {
        if ra == 0 {
            lemma_table_increasing(ia, ib);
        } else {
            lemma_interp_bounds(ia, ra);
            if ia + 1 < ib {
                lemma_table_increasing(ia + 1, ib);
            }
        }
        if rb > 0 {
            assert(ib < 80) by (nonlinear_arith)
                requires
                    0 <= cb <= 8000,
                    ib == cb / 100,
                    cb == 100 * ib + rb,
                    0 < rb < 100,
            ;
            lemma_interp_bounds(ib, rb);
        }
    }
}

} // verus!
