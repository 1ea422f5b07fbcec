use vstd::prelude::*;

verus! {

/// The decimal digit for `d` (`0 <= d < 10`).
pub open spec fn digit(d: nat) -> char {
    seq!['0', '1', '2', '3', '4', '5', '6', '7', '8', '9'][d as int]
}

/// The decimal text of `n`, as `u64`'s `Display` writes it.
pub open spec fn decimal(n: nat) -> Seq<char>
    decreases n,
{
    if n < 10 {
        seq![digit(n)]
    } else {
        decimal(n / 10).push(digit(n % 10))
    }
}

fn digit_char(d: u64) -> (c: char)
    requires
        d < 10,
    ensures
        c == digit(d as nat),
{
    match d {
        0 => '0',
        1 => '1',
        2 => '2',
        3 => '3',
        4 => '4',
        5 => '5',
        6 => '6',
        7 => '7',
        8 => '8',
        _ => '9',
    }
}

/// Writes `n` in decimal.
pub fn decimal_text(n: u64) -> (res: String)
    ensures
        res@ == decimal(n as nat),
    decreases n,
{
    if n < 10 {
        let mut s = String::new();
        crate::text::push_char(&mut s, digit_char(n));
        s
    } else {
        let mut s = decimal_text(n / 10);
        crate::text::push_char(&mut s, digit_char(n % 10));
        s
    }
}

/// A floating-point statistic as the library reads it: the IEEE-754
/// binary64 bit pattern of the value, and the text that formatting it with
/// two digits after the point gives (`format!("{:.2}", value)`). Both are
/// filled in where the value is computed; the library carries them through
/// and decides where and whether that text is shown.
#[derive(Debug)]
pub struct Stat {
    pub bits: u64,
    pub fixed2: String,
}

impl Stat {
    /// Neither infinite nor NaN: the exponent field is not all ones.
    pub open spec fn finite(&self) -> bool {
        (self.bits >> 52u64) & 0x7ffu64 != 0x7ffu64
    }

    /// Whether the value is finite (`is_finite`).
    pub fn is_finite(&self) -> (res: bool)
        ensures
            res == self.finite(),
    {
        (self.bits >> 52u64) & 0x7ffu64 != 0x7ffu64
    }
}

impl Stat {
    /// The magnitude of the value as an integer key: its bit pattern with
    /// the sign bit cleared. IEEE-754 lays out the non-negative doubles so
    /// that their bit patterns order as their values, so among finite values
    /// a larger magnitude has a larger key, and equal magnitudes equal keys.
    pub open spec fn magnitude_key(&self) -> u64 {
        self.bits & 0x7fff_ffff_ffff_ffffu64
    }

    /// The magnitude key of the value (see `magnitude_key`).
    pub fn magnitude(&self) -> (res: u64)
        ensures
            res == self.magnitude_key(),
    {
        self.bits & 0x7fff_ffff_ffff_ffffu64
    }
}

impl Clone for Stat {
    fn clone(&self) -> (res: Self)
        ensures
            res == *self,
    {
        Stat { bits: self.bits, fixed2: self.fixed2.clone() }
    }
}

/// A copy of an optional statistic.
pub fn copy_stat(v: &Option<Stat>) -> (res: Option<Stat>)
    ensures
        res == *v,
{
    match v {
        Some(s) => Some(s.clone()),
        None => None,
    }
}


/// The statistic when it is present and finite; absent otherwise (a NaN or
/// infinite value is reported as absent).
pub open spec fn finite_only(v: Option<Stat>) -> Option<Stat> {
    match v {
        Some(s) => if s.finite() {
            Some(s)
        } else {
            None
        },
        None => None,
    }
}

/// An optional statistic that, when present, is finite.
pub open spec fn finite_if_present(v: Option<Stat>) -> bool {
    v matches Some(s) ==> s.finite()
}

/// Keeps a statistic only when it is finite.
pub fn keep_finite(v: Option<Stat>) -> (res: Option<Stat>)
    ensures
        res == finite_only(v),
{
    match v {
        Some(s) => if s.is_finite() {
            Some(s)
        } else {
            None
        },
        None => None,
    }
}

/// A copy of an optional statistic, kept only when it is finite.
pub fn copy_finite(v: &Option<Stat>) -> (res: Option<Stat>)
    ensures
        res == finite_only(*v),
{
    keep_finite(copy_stat(v))
}
} // verus!
