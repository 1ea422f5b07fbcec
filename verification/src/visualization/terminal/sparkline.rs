use vstd::prelude::*;

use crate::text::push_char;

verus! {

/// The largest of `values` (0 for none).
pub open spec fn largest(values: Seq<u64>) -> nat
    decreases values.len(),
{
    if values.len() == 0 {
        0
    } else {
        let rest = largest(values.drop_last());
        if values.last() > rest {
            values.last() as nat
        } else {
            rest
        }
    }
}

/// The value the sparkline scales to: the largest value, at least 1.
pub open spec fn spark_scale(values: Seq<u64>) -> nat {
    if largest(values) >= 1 {
        largest(values)
    } else {
        1
    }
}

/// The block height (0 to 7) for `v` on a scale of `m`: `7 * v / m` rounded
/// half up, at most 7.
pub open spec fn spark_level(v: nat, m: nat) -> nat {
    let r = (14 * v + m) / (2 * m);
    if r > 7 {
        7
    } else {
        r
    }
}

/// The block characters, lowest first.
pub open spec fn spark_glyph(level: nat) -> char {
    seq!['\u{2581}', '\u{2582}', '\u{2583}', '\u{2584}', '\u{2585}', '\u{2586}', '\u{2587}', '\u{2588}'][level as int]
}

/// The character for `v` on a scale of `m`: a block of its height, or in
/// ASCII a dot for zero and a star otherwise.
pub open spec fn spark_char(v: nat, m: nat, unicode: bool) -> char {
    if unicode {
        spark_glyph(spark_level(v, m))
    } else if v == 0 {
        '.'
    } else {
        '*'
    }
}

/// One character per value.
pub open spec fn sparkline_text(values: Seq<u64>, unicode: bool) -> Seq<char> {
    Seq::new(values.len(), |i: int| spark_char(values[i] as nat, spark_scale(values), unicode))
}

proof fn lemma_largest_bounds(values: Seq<u64>)
    ensures
        forall|i: int| 0 <= i < values.len() ==> #[trigger] values[i] <= largest(values),
        largest(values) <= u64::MAX,
    decreases values.len(),
{
    if values.len() > 0 {
        lemma_largest_bounds(values.drop_last());
        assert forall|i: int| 0 <= i < values.len() implies #[trigger] values[i] <= largest(values) by {
            if i < values.len() - 1 {
                assert(values[i] == values.drop_last()[i]);
            }
        }
    }
}

fn glyph(level: u64) -> (c: char)
    requires
        level <= 7,
    ensures
        c == spark_glyph(level as nat),
{
    match level {
        0 => '\u{2581}',
        1 => '\u{2582}',
        2 => '\u{2583}',
        3 => '\u{2584}',
        4 => '\u{2585}',
        5 => '\u{2586}',
        6 => '\u{2587}',
        _ => '\u{2588}',
    }
}

/// A one-line chart of `values`: block heights scaled to the largest value,
/// or dots and stars without Unicode.
pub fn sparkline(values: &Vec<u64>, unicode: bool) -> (res: String)
    ensures
        res@ == sparkline_text(values@, unicode),
{
    let mut top: u64 = 0;
    for i in 0..values.len()
        invariant
            top == largest(values@.take(i as int)),
    {
        assert(values@.take(i + 1).drop_last() =~= values@.take(i as int));
        if values[i] > top {
            top = values[i];
        }
    }
    assert(values@.take(values.len() as int) =~= values@);
    let m: u64 = if top >= 1 {
        top
    } else {
        1
    };
    proof {
        lemma_largest_bounds(values@);
    }
    let mut out = String::new();
    for i in 0..values.len()
        invariant
            m == spark_scale(values@),
            m >= 1,
            forall|j: int| 0 <= j < values.len() ==> #[trigger] values@[j] <= m,
            out@ == sparkline_text(values@, unicode).take(i as int),
    {
        let v = values[i];
        let c = if unicode {
            let num: u128 = 14 * (v as u128) + (m as u128);
            let den: u128 = 2 * (m as u128);
            let r: u128 = num / den;
            assert(r <= 7) by (nonlinear_arith)
                requires
                    num == 14 * v + m,
                    den == 2 * m,
                    r == num / den,
                    v <= m,
                    m >= 1,
            ;
            glyph(r as u64)
        } else if v == 0 {
            '.'
        } else {
            '*'
        };
        push_char(&mut out, c);
        assert(sparkline_text(values@, unicode).take(i + 1) =~= sparkline_text(values@, unicode).take(
            i as int,
        ).push(c));
    }
    assert(sparkline_text(values@, unicode).take(values.len() as int) =~= sparkline_text(values@, unicode));
    out
}

/// A larger value never gets a lower block.
pub proof fn lemma_spark_level_monotone(v: nat, w: nat, m: nat)
    requires
        v <= w,
        m >= 1,
    ensures
        spark_level(v, m) <= spark_level(w, m),
{
    assert((14 * v + m) / (2 * m) <= (14 * w + m) / (2 * m)) by (nonlinear_arith)
        requires
            v <= w,
            m >= 1,
    ;
}

/// The largest value gets the full block.
pub proof fn lemma_spark_level_peak(m: nat)
    requires
        m >= 1,
    ensures
        spark_level(m, m) == 7,
{
    assert((14 * m + m) / (2 * m) == 7) by (nonlinear_arith)
        requires
            m >= 1,
    ;
}

} // verus!
