//! Durations measured in seconds, and the numeric-union parse that accepts
//! the remote service's `duration` field whether it arrives as an integer or
//! as a decimal number of seconds.

use vstd::prelude::*;
use vstd::string::StrSliceExecFns;
use vstd::string::StringExecFns;
use vstd::arithmetic::power::pow;

use crate::trace::dec_digits;
use crate::trace::u64_digits;

verus! {

/// Nanoseconds per second; the `nanos` field always stays below this.
pub const NANOS_PER_SEC: u32 = 1_000_000_000;

/// A non-negative duration: whole seconds plus a sub-second remainder in
/// nanoseconds.
#[derive(Clone, Copy, Debug, PartialEq, Eq, Structural)]
pub struct DurationSecs {
    pub secs: u64,
    pub nanos: u32,
}

impl DurationSecs {
    pub open spec fn wf(&self) -> bool {
        self.nanos < NANOS_PER_SEC
    }

    /// A duration of exactly `secs` seconds.
    pub fn from_secs(secs: u64) -> (r: DurationSecs)
        ensures
            r.secs == secs,
            r.nanos == 0,
            r.wf(),
    {
        DurationSecs { secs, nanos: 0 }
    }

    /// Render the duration as the lookup service's `duration` query value:
    /// the whole seconds, with a nine-digit fraction when one is present.
    pub fn render(&self) -> (r: String)
        requires
            self.wf(),
        ensures
            r@ == if self.nanos == 0 {
                dec_digits(self.secs as nat)
            } else {
                dec_digits(self.secs as nat) + seq!['.'] + zero_pad9(
                    dec_digits(self.nanos as nat),
                )
            },
    {
        let mut s = u64_digits(self.secs);
        if self.nanos != 0 {
            s.append(".");
            let frac = u64_digits(self.nanos as u64);
            proof {
                lemma_pow10_values();
                lemma_dec_digits_len(self.nanos as nat, 9);
                reveal_strlit(".");
            }
            let width = frac.as_str().unicode_len();
            let mut pad = width;
            while pad < 9
                invariant
                    width <= pad <= 9,
                    width == frac@.len(),
                    s@ == dec_digits(self.secs as nat) + seq!['.'] + Seq::new(
                        (pad - width) as nat,
                        |i: int| '0',
                    ),
                decreases 9 - pad,
            {
                s.append("0");
                proof {
                    reveal_strlit("0");
                    assert(s@ =~= dec_digits(self.secs as nat) + seq!['.'] + Seq::new(
                        (pad + 1 - width) as nat,
                        |i: int| '0',
                    ));
                }
                pad += 1;
            }
            s.append(frac.as_str());
            proof {
                assert(s@ =~= dec_digits(self.secs as nat) + seq!['.'] + zero_pad9(frac@));
            }
        }
        s
    }
}

/// Fractional digits padded on the left with zeros up to the nanosecond
/// width of nine digits.
pub open spec fn zero_pad9(s: Seq<char>) -> Seq<char> {
    if s.len() >= 9 {
        s
    } else {
        Seq::new((9 - s.len()) as nat, |i: int| '0') + s
    }
}

/// A number below the `k`-th power of ten renders in at most `k` digits.
proof fn lemma_dec_digits_len(n: nat, k: nat)
    requires
        n < pow(10, k),
        k >= 1,
    ensures
        dec_digits(n).len() <= k,
    decreases k,
{
    if n >= 10 {
        let p = pow(10, (k - 1) as nat);
        lemma_pow10_step((k - 1) as nat);
        assert(n / 10 < p) by (nonlinear_arith)
            requires
                n < 10 * p,
                p >= 1,
        ;
        assert(k >= 2) by {
            if k == 1 {
                reveal(pow);
            }
        }
        lemma_dec_digits_len(n / 10, (k - 1) as nat);
    }
}

/// Whether `c` is a decimal digit.
pub open spec fn is_digit(c: char) -> bool {
    '0' <= c && c <= '9'
}

/// The numeric value of a decimal digit.
pub open spec fn digit_val(c: char) -> nat {
    if c == '0' { 0 } else if c == '1' { 1 } else if c == '2' { 2 }
    else if c == '3' { 3 } else if c == '4' { 4 } else if c == '5' { 5 }
    else if c == '6' { 6 } else if c == '7' { 7 } else if c == '8' { 8 }
    else { 9 }
}

/// The value of a digit string read in base ten.
pub open spec fn digits_val(s: Seq<char>) -> nat
    decreases s.len(),
{
    if s.len() == 0 {
        0
    } else {
        digits_val(s.drop_last()) * 10 + digit_val(s.last())
    }
}

/// Where the run of digits beginning at `from` ends.
pub open spec fn digits_end(s: Seq<char>, from: int) -> int
    decreases s.len() - from,
{
    if from < 0 || from >= s.len() {
        s.len() as int
    } else if is_digit(s[from]) {
        digits_end(s, from + 1)
    } else {
        from
    }
}

/// The digits before the decimal point (or the whole number when there is
/// none).
pub open spec fn int_part(s: Seq<char>) -> Seq<char> {
    s.take(digits_end(s, 0))
}

/// The digits after the decimal point; empty when there is none.
pub open spec fn frac_part(s: Seq<char>) -> Seq<char> {
    if digits_end(s, 0) == s.len() {
        Seq::empty()
    } else {
        s.skip(digits_end(s, 0) + 1)
    }
}

/// The shape this parser accepts: one or more integer digits, optionally
/// followed by `.` and one or more fractional digits.
pub open spec fn is_number_shape(s: Seq<char>) -> bool {
    let d = digits_end(s, 0);
    &&& d > 0
    &&& (d == s.len() || (s[d] == '.' && d + 1 < s.len() && digits_end(s, d + 1) == s.len()))
}

/// The fractional digits scaled to nanoseconds: the first nine digits are
/// significant, shorter fractions are padded with zeros.
pub open spec fn frac_nanos(s: Seq<char>) -> int {
    if s.len() >= 9 {
        digits_val(s.take(9)) as int
    } else {
        digits_val(s) * pow(10, (9 - s.len()) as nat)
    }
}

proof fn lemma_pow10_values()
    ensures
        pow(10, 0) == 1,
        pow(10, 1) == 10,
        pow(10, 2) == 100,
        pow(10, 3) == 1000,
        pow(10, 4) == 10000,
        pow(10, 5) == 100000,
        pow(10, 6) == 1000000,
        pow(10, 7) == 10000000,
        pow(10, 8) == 100000000,
        pow(10, 9) == 1000000000,
{
    reveal(pow);
    assert(pow(10, 1) == 10 * pow(10, 0));
    assert(pow(10, 2) == 10 * pow(10, 1));
    assert(pow(10, 3) == 10 * pow(10, 2));
    assert(pow(10, 4) == 10 * pow(10, 3));
    assert(pow(10, 5) == 10 * pow(10, 4));
    assert(pow(10, 6) == 10 * pow(10, 5));
    assert(pow(10, 7) == 10 * pow(10, 6));
    assert(pow(10, 8) == 10 * pow(10, 7));
    assert(pow(10, 9) == 10 * pow(10, 8));
}

/// One unfolding step of `pow` at a positive exponent.
proof fn lemma_pow10_step(e: nat)
    ensures
        pow(10, e + 1) == 10 * pow(10, e),
        pow(10, e) >= 1,
{
    reveal(pow);
    vstd::arithmetic::power::lemma_pow_positive(10, e);
}

/// A run of digits is worth less than the power of ten of its width.
proof fn lemma_digits_val_bound(s: Seq<char>)
    ensures
        digits_val(s) < pow(10, s.len()),
    decreases s.len(),
{
    if s.len() == 0 {
        lemma_pow10_step(0);
        reveal(pow);
    } else {
        lemma_digits_val_bound(s.drop_last());
        let v = digits_val(s.drop_last()) as int;
        let p = pow(10, (s.len() - 1) as nat);
        lemma_pow10_step((s.len() - 1) as nat);
        assert(v * 10 + 9 < 10 * p) by (nonlinear_arith)
            requires
                v < p,
        ;
    }
}

/// Prepending digits scales the value: `digits_val(u + v)` splits into a
/// high part and a low part.
proof fn lemma_digits_val_append(u: Seq<char>, v: Seq<char>)
    ensures
        digits_val(u + v) == digits_val(u) * pow(10, v.len()) + digits_val(v),
    decreases v.len(),
{
    if v.len() == 0 {
        assert(u + v =~= u);
        reveal(pow);
    } else {
        lemma_digits_val_append(u, v.drop_last());
        assert((u + v).drop_last() =~= u + v.drop_last());
        let q = digits_val(u) as int;
        let w = digits_val(v.drop_last()) as int;
        let pl = pow(10, (v.len() - 1) as nat);
        lemma_pow10_step((v.len() - 1) as nat);
        assert((q * pl + w) * 10 + digit_val(v.last()) == q * (10 * pl) + (w * 10 + digit_val(
            v.last(),
        ))) by (nonlinear_arith);
    }
}

/// A digit run's value never shrinks when it is extended to the right.
proof fn lemma_digits_val_extend_ge(s: Seq<char>, i: int, j: int)
    requires
        0 <= i <= j <= s.len(),
    ensures
        digits_val(s.take(j)) >= digits_val(s.take(i)),
{
    let u = s.take(i);
    let v = s.take(j).skip(i);
    assert(s.take(j) =~= u + v);
    lemma_digits_val_append(u, v);
    vstd::arithmetic::power::lemma_pow_positive(10, v.len());
    let q = digits_val(u) as int;
    let p = pow(10, v.len());
    assert(q * p >= q) by (nonlinear_arith)
        requires
            p >= 1 && q >= 0,
    ;
}

/// While everything from `from` up to `k` is digits, the run's end is the
/// same seen from either point.
proof fn lemma_digits_end_step(s: Seq<char>, from: int, k: int)
    requires
        0 <= from <= k <= s.len(),
        forall|m: int| from <= m < k ==> is_digit(s[m]),
    ensures
        digits_end(s, from) == digits_end(s, k),
    decreases k - from,
{
    if from < k {
        lemma_digits_end_step(s, from + 1, k);
    }
}

/// The run's end never lies left of `from`, nor right of the length.
proof fn lemma_digits_end_range(s: Seq<char>, from: int)
    requires
        0 <= from <= s.len(),
    ensures
        from <= digits_end(s, from) <= s.len(),
    decreases s.len() - from,
{
    if from < s.len() && is_digit(s[from]) {
        lemma_digits_end_range(s, from + 1);
    }
}

fn digit_value(c: char) -> (r: u64)
    requires
        is_digit(c),
    ensures
        r == digit_val(c),
        r <= 9,
{
    match c {
        '0' => 0, '1' => 1, '2' => 2, '3' => 3, '4' => 4,
        '5' => 5, '6' => 6, '7' => 7, '8' => 8,
        _ => 9,
    }
}

fn is_digit_exec(c: char) -> (r: bool)
    ensures
        r == is_digit(c),
{
    '0' <= c && c <= '9'
}

/// Parse a JSON-style non-negative number — digits, optionally a `.` and
/// more digits — into a duration: the integer digits become whole seconds
/// and the first nine fractional digits become nanoseconds. Anything else,
/// and any value whose seconds overflow, is rejected.
pub fn parse_secs(text: &str) -> (r: Option<DurationSecs>)
    ensures
        match r {
            Some(d) => {
                &&& is_number_shape(text@)
                &&& digits_val(int_part(text@)) <= u64::MAX
                &&& d.secs == digits_val(int_part(text@))
                &&& d.nanos == frac_nanos(frac_part(text@))
                &&& d.wf()
            },
            None => !is_number_shape(text@) || digits_val(int_part(text@)) > u64::MAX,
        },
{
    let ghost s = text@;
    let n = text.unicode_len();
    let mut i: usize = 0;
    let mut secs: u64 = 0;
    // Integer part: scan the leading digit run, accumulating its value.
    loop
        invariant
            i <= n,
            n == s.len(),
            s == text@,
            forall|m: int| 0 <= m < i ==> is_digit(s[m]),
            secs == digits_val(s.take(i as int)),
        ensures
            i == digits_end(s, 0),
            secs == digits_val(s.take(i as int)),
        decreases n - i,
    {
        proof {
            lemma_digits_end_step(s, 0, i as int);
        }
        if i == n {
            break;
        }
        let c = text.get_char(i);
        if !is_digit_exec(c) {
            break;
        }
        let dv = digit_value(c);
        let widened = match secs.checked_mul(10) {
            Some(w) => w.checked_add(dv),
            None => None,
        };
        proof {
            assert(s.take(i + 1).drop_last() =~= s.take(i as int));
            assert(s.take(i + 1).last() == s[i as int]);
        }
        match widened {
            Some(w) => {
                secs = w;
            },
            None => {
                // The integer digits alone exceed `u64`: the whole number is
                // out of range, however many digits follow.
                proof {
                    lemma_digits_end_step(s, 0, i + 1);
                    lemma_digits_end_range(s, i + 1);
                    lemma_digits_val_extend_ge(s, i + 1, digits_end(s, 0));
                    assert(digits_val(s.take(i + 1)) > u64::MAX);
                }
                return None;
            },
        }
        i += 1;
    }
    if i == 0 {
        // No leading digit: not a number.
        return None;
    }
    if i == n {
        // A whole number of seconds.
        proof {
            assert(frac_part(s) =~= Seq::<char>::empty());
            lemma_pow10_values();
            assert(is_number_shape(s));
            assert(secs == digits_val(int_part(s)));
            assert(frac_part(s).len() == 0);
            assert(digits_val(frac_part(s)) == 0);
            assert(frac_nanos(frac_part(s)) == 0);
        }
        return Some(DurationSecs { secs, nanos: 0 });
    }
    let c = text.get_char(i);
    if c != '.' {
        return None;
    }
    // Fractional part: validate that digits run to the end of the text,
    // keeping the first nine as the nanosecond digits.
    let d = i;
    let mut j = i + 1;
    if j == n {
        // A trailing `.` with no fractional digits: not a number.
        return None;
    }
    let mut nanos: u32 = 0;
    let mut taken: usize = 0;
    let ghost f = s.skip(d + 1);
    loop
        invariant
            d + 1 <= j <= n,
            n == s.len(),
            s == text@,
            d == digits_end(s, 0),
            0 < d < n,
            s[d as int] == '.',
            f == s.skip(d + 1),
            forall|m: int| d + 1 <= m < j ==> is_digit(s[m]),
            taken == if j - (d + 1) <= 9 { j - (d + 1) } else { 9 },
            nanos == digits_val(f.take(taken as int)),
        ensures
            digits_end(s, d + 1) == n,
            taken == if n - (d + 1) <= 9 { n - (d + 1) } else { 9 },
            nanos == digits_val(f.take(taken as int)),
        decreases n - j,
    {
        proof {
            lemma_digits_end_step(s, d + 1, j as int);
        }
        if j == n {
            break;
        }
        let c = text.get_char(j);
        if !is_digit_exec(c) {
            proof {
                lemma_digits_end_range(s, j as int);
            }
            return None;
        }
        if taken < 9 {
            let dv = digit_value(c);
            proof {
                assert(f.take(taken + 1).drop_last() =~= f.take(taken as int));
                assert(f.take(taken + 1).last() == f[taken as int]);
                assert(f[taken as int] == s[d + 1 + taken]);
                lemma_digits_val_bound(f.take(taken as int));
                lemma_pow10_values();
                vstd::arithmetic::power::lemma_pow_increases(10, taken as nat, 8);
            }
            nanos = nanos * 10 + (dv as u32);
            taken += 1;
        }
        j += 1;
    }
    // Scale a short fraction up to nine digits.
    let ghost v = digits_val(f.take(taken as int));
    let mut fill = 9 - taken;
    proof {
        lemma_pow10_values();
        lemma_digits_val_bound(f.take(taken as int));
        vstd::arithmetic::power::lemma_pow_increases(10, taken as nat, 9);
        vstd::arithmetic::power::lemma_pow_adds(10, taken as nat, (9 - taken) as nat);
        let pt = pow(10, taken as nat);
        let pf = pow(10, (9 - taken) as nat);
        vstd::arithmetic::power::lemma_pow_positive(10, (9 - taken) as nat);
        assert(v * pf < 1000000000) by (nonlinear_arith)
            requires
                (v as int) < pt,
                pt * pf == 1000000000,
                pf >= 1,
        ;
        reveal(pow);
        assert(nanos == v * pow(10, 0));
    }
    while fill > 0
        invariant
            fill <= 9 - taken,
            taken <= 9,
            nanos == v * pow(10, (9 - taken - fill) as nat),
            v * pow(10, (9 - taken) as nat) < 1000000000,
            v == digits_val(f.take(taken as int)),
        decreases fill,
    {
        proof {
            let e = (9 - taken - fill) as nat;
            lemma_pow10_step(e);
            lemma_pow10_step((fill - 1) as nat);
            vstd::arithmetic::power::lemma_pow_adds(10, (e + 1) as nat, (fill - 1) as nat);
            vstd::arithmetic::power::lemma_pow_adds(10, e, fill as nat);
            let pe = pow(10, e);
            let pe1 = pow(10, e + 1);
            let pf1 = pow(10, (fill - 1) as nat);
            assert(v * pe1 == (v * pe) * 10) by (nonlinear_arith)
                requires
                    pe1 == 10 * pe,
            ;
            assert((v * pe1) * pf1 == v * (pe1 * pf1)) by (nonlinear_arith);
            assert(v * pe1 <= (v * pe1) * pf1) by (nonlinear_arith)
                requires
                    pf1 >= 1,
                    v >= 0,
                    pe1 >= 1,
            ;
        }
        nanos = nanos * 10;
        fill -= 1;
    }
    proof {
        lemma_pow10_values();
        reveal(pow);
        assert(frac_part(s) == f);
        assert(f.len() == n - (d + 1));
        if f.len() >= 9 {
            assert(f.take(9) == f.take(taken as int));
        } else {
            assert(f.take(taken as int) =~= f);
        }
    }
    Some(DurationSecs { secs, nanos })
}

} // verus!
