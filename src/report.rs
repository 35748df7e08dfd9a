//! The line that a query prints.
use vstd::prelude::*;
use crate::decimal::{decimal_bytes, decimal_of};
use crate::level::MAX_BRIGHTNESS;

verus! {

/// The bytes of `"brightness:"`, which opens the line.
pub open spec fn report_label() -> Seq<u8> {
    seq![98u8, 114, 105, 103, 104, 116, 110, 101, 115, 115, 58]
}

/// `s` right-justified with spaces in a field of eight bytes (longer text is
/// kept whole).
pub open spec fn pad8(s: Seq<u8>) -> Seq<u8> {
    if s.len() < 8 {
        Seq::new((8 - s.len()) as nat, |i: int| 32u8) + s
    } else {
        s
    }
}

/// `100 * level / 7500` in thousandths, rounded to the nearest (the exact
/// value is a whole number of thirds of a thousandth, so it never lies
/// halfway).
pub open spec fn percent_thousandths(level: nat) -> nat {
    (100000 * level + 3750) / 7500
}

/// The percentage of `level` with exactly three decimal places, such as
/// `50.000`.
pub open spec fn percent_text(level: nat) -> Seq<u8> {
    let t = percent_thousandths(level);
    let f = t % 1000;
    decimal_of(t / 1000) + seq![
        46u8,
        (48 + f / 100) as u8,
        (48 + f / 10 % 10) as u8,
        (48 + f % 10) as u8,
    ]
}

/// The query line for `level`: the label, the level right-justified in eight
/// places, a tab, its percentage right-justified in eight places, and `%`.
pub open spec fn report_line(level: nat) -> Seq<u8> {
    report_label() + pad8(decimal_of(level)) + seq![9u8] + pad8(percent_text(level)) + seq![37u8]
}

/// Appends `s`, right-justified in eight places, to `out`.
fn push_padded(out: &mut Vec<u8>, s: &Vec<u8>)
    ensures
        final(out)@ == old(out)@ + pad8(s@),
{
    let ghost start = out@;
    let mut k: usize = s.len();
    while k < 8
        invariant
            s@.len() <= k,
            k <= 8 || k == s@.len(),
            out@ == start + Seq::new((k - s@.len()) as nat, |i: int| 32u8),
        decreases 8 - k,
    {
        out.push(32u8);
        proof {
            assert(Seq::new((k + 1 - s@.len()) as nat, |i: int| 32u8) =~= Seq::new(
                (k - s@.len()) as nat,
                |i: int| 32u8,
            ).push(32u8));
        }
        k = k + 1;
    }
    let ghost spaces = out@;
    let mut j: usize = 0;
    while j < s.len()
        invariant
            j <= s@.len(),
            out@ == spaces + s@.take(j as int),
        decreases s@.len() - j,
    {
        out.push(s[j]);
        proof {
            assert(s@.take(j + 1) =~= s@.take(j as int).push(s@[j as int]));
        }
        j = j + 1;
    }
    proof {
        assert(s@.take(s@.len() as int) =~= s@);
        if s@.len() < 8 {
            assert(out@ =~= start + pad8(s@));
        } else {
            assert(Seq::new(0, |i: int| 32u8) =~= Seq::<u8>::empty());
            assert(out@ =~= start + pad8(s@));
        }
    }
}

/// The line that a query prints for `level`, as ASCII bytes; for 3750 it is
/// `brightness:    3750\t  50.000%`.
pub fn query_line(level: u16) -> (r: Vec<u8>)
    ensures
        r@ == report_line(level as nat),
{
    let mut out: Vec<u8> = vec![98u8, 114, 105, 103, 104, 116, 110, 101, 115, 115, 58];
    assert(out@ =~= report_label());
    let digits = decimal_bytes(level);
    push_padded(&mut out, &digits);
    out.push(9u8);
    let t: u64 = (100000 * (level as u64) + 3750) / (MAX_BRIGHTNESS as u64);
    let f: u64 = t % 1000;
    let mut pct = decimal_bytes((t / 1000) as u16);
    pct.push(46u8);
    pct.push((48 + f / 100) as u8);
    pct.push((48 + f / 10 % 10) as u8);
    pct.push((48 + f % 10) as u8);
    assert(pct@ =~= percent_text(level as nat));
    push_padded(&mut out, &pct);
    out.push(37u8);
    assert(out@ =~= report_line(level as nat));
    out
}

} // verus!
