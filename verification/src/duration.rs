//! The restart-cooldown duration grammar: a signed sequence of decimal
//! numbers, each with an optional fraction and a mandatory unit suffix
//! (`ns`, `us`, `ms`, `s`, `m`, `h`), such as `"3s"`, `"500ms"` or
//! `"1h30m"`. [`parse_duration`] turns such a string into a nanosecond
//! count; its meaning is pinned down by [`spec_parse_duration`].

use vstd::prelude::*;

verus! {

/// Largest representable duration, in nanoseconds; longer durations are
/// rejected as out of range.
pub const MAX_DURATION_NANOS: u64 = 9_223_372_036_854_775_807;

/// How many fraction digits contribute to a component's value. Further
/// fraction digits are still consumed by the grammar but change nothing:
/// they are below the resolution the arithmetic carries.
pub const FRACTION_DIGITS: usize = 18;

/// A decimal digit.
pub open spec fn is_digit_char(c: char) -> bool {
    '0' <= c && c <= '9'
}

/// A character that can belong to a unit suffix: anything that neither
/// continues a number nor starts a fraction.
pub open spec fn is_unit_char(c: char) -> bool {
    !is_digit_char(c) && c != '.'
}

/// Numeric value of a decimal digit.
pub open spec fn digit_val(c: char) -> nat {
    (c as int - '0' as int) as nat
}

/// Position just past the run of decimal digits that starts at `i`.
pub open spec fn digits_end(s: Seq<char>, i: int) -> int
    decreases s.len() - i,
{
    if 0 <= i < s.len() && is_digit_char(s[i]) {
        digits_end(s, i + 1)
    } else {
        i
    }
}

/// Position just past the run of unit characters that starts at `i`.
pub open spec fn unit_end(s: Seq<char>, i: int) -> int
    decreases s.len() - i,
{
    if 0 <= i < s.len() && is_unit_char(s[i]) {
        unit_end(s, i + 1)
    } else {
        i
    }
}

/// Value of the decimal digits in `s[i..j)`, read most significant first.
pub open spec fn digits_val(s: Seq<char>, i: int, j: int) -> nat
    decreases j - i,
{
    if i < j {
        digits_val(s, i, j - 1) * 10 + digit_val(s[j - 1])
    } else {
        0
    }
}

/// Ten to the `k`.
pub open spec fn pow10(k: nat) -> nat
    decreases k,
{
    if k == 0 {
        1
    } else {
        10 * pow10((k - 1) as nat)
    }
}

/// Nanoseconds per unit suffix `s[i..j)`.
pub open spec fn spec_unit_scale(s: Seq<char>, i: int, j: int) -> Option<u64> {
    if j - i == 1 {
        if s[i] == 's' {
            Some(1_000_000_000u64)
        } else if s[i] == 'm' {
            Some(60_000_000_000u64)
        } else if s[i] == 'h' {
            Some(3_600_000_000_000u64)
        } else {
            None
        }
    } else if j - i == 2 && s[i + 1] == 's' {
        if s[i] == 'n' {
            Some(1u64)
        } else if s[i] == 'u' {
            Some(1_000u64)
        } else if s[i] == 'm' {
            Some(1_000_000u64)
        } else {
            None
        }
    } else {
        None
    }
}

/// Nanoseconds contributed by the fraction digits in `s[fs..fe)` of a
/// component measured in `unit`: the value of the first
/// [`FRACTION_DIGITS`] of them, scaled by the unit and floored.
pub open spec fn frac_val(s: Seq<char>, fs: int, fe: int, unit: u64) -> nat {
    let k = if fe - fs <= FRACTION_DIGITS as int {
        fe - fs
    } else {
        FRACTION_DIGITS as int
    };
    digits_val(s, fs, fs + k) * (unit as nat) / pow10(k as nat)
}

/// Exact nanosecond total of the component sequence that starts at `i`:
/// each component is a run of digits, an optional `.`-led fraction (at
/// least one digit must appear on one side), and a unit suffix. `None`
/// when malformed; the empty suffix contributes zero.
pub open spec fn spec_components_val(s: Seq<char>, i: int) -> Option<nat>
    decreases s.len() - i,
    via spec_components_val_decreases
{
    if i < 0 {
        None
    } else if i >= s.len() {
        Some(0)
    } else {
        let int_end = digits_end(s, i);
        let has_dot = int_end < s.len() && s[int_end] == '.';
        let frac_start = if has_dot {
            int_end + 1
        } else {
            int_end
        };
        let frac_end = digits_end(s, frac_start);
        if int_end == i && frac_end == frac_start {
            None
        } else {
            let unit_end_pos = unit_end(s, frac_end);
            match spec_unit_scale(s, frac_end, unit_end_pos) {
                None => None,
                Some(unit) => {
                    let v = digits_val(s, i, int_end) * (unit as nat) + frac_val(
                        s,
                        frac_start,
                        frac_end,
                        unit,
                    );
                    match spec_components_val(s, unit_end_pos) {
                        None => None,
                        Some(rest) => Some(v + rest),
                    }
                },
            }
        }
    }
}

#[via_fn]
proof fn spec_components_val_decreases(s: Seq<char>, i: int) {
    if 0 <= i < s.len() {
        lemma_digits_end_bounds(s, i);
        let int_end = digits_end(s, i);
        let has_dot = int_end < s.len() && s[int_end] == '.';
        let frac_start = if has_dot {
            int_end + 1
        } else {
            int_end
        };
        lemma_digits_end_bounds(s, frac_start);
        lemma_unit_end_bounds(s, digits_end(s, frac_start));
    }
}

/// Meaning of a duration string: the nanosecond count it denotes, or
/// `None` when it is rejected. An optional leading `+` or `-` is
/// followed either by the literal `0` or by at least one component; a
/// negative duration makes no sense as a cooldown and is rejected unless
/// its value is zero, and a total beyond [`MAX_DURATION_NANOS`] is out
/// of range.
pub open spec fn spec_parse_duration(s: Seq<char>) -> Option<u64> {
    let has_sign = s.len() > 0 && (s[0] == '-' || s[0] == '+');
    let neg = s.len() > 0 && s[0] == '-';
    let start: int = if has_sign {
        1
    } else {
        0
    };
    if s.len() - start == 1 && s[start] == '0' {
        Some(0u64)
    } else if s.len() - start == 0 {
        None
    } else {
        match spec_components_val(s, start) {
            None => None,
            Some(n) => if neg {
                if n == 0 {
                    Some(0u64)
                } else {
                    None
                }
            } else if n <= MAX_DURATION_NANOS {
                Some(n as u64)
            } else {
                None
            },
        }
    }
}

/// The digit run that starts inside the sequence ends between its start
/// and the end of the sequence.
pub proof fn lemma_digits_end_bounds(s: Seq<char>, i: int)
    requires
        0 <= i <= s.len(),
    ensures
        i <= digits_end(s, i) <= s.len(),
    decreases s.len() - i,
{
    if i < s.len() && is_digit_char(s[i]) {
        lemma_digits_end_bounds(s, i + 1);
    }
}

/// Everything before the end of a digit run is a digit.
pub proof fn lemma_digits_end_digits(s: Seq<char>, i: int)
    requires
        0 <= i <= s.len(),
    ensures
        forall|k: int| i <= k < digits_end(s, i) ==> is_digit_char(#[trigger] s[k]),
    decreases s.len() - i,
{
    if i < s.len() && is_digit_char(s[i]) {
        lemma_digits_end_digits(s, i + 1);
        lemma_digits_end_bounds(s, i + 1);
    }
}

/// The unit run that starts inside the sequence ends between its start
/// and the end of the sequence.
pub proof fn lemma_unit_end_bounds(s: Seq<char>, i: int)
    requires
        0 <= i <= s.len(),
    ensures
        i <= unit_end(s, i) <= s.len(),
    decreases s.len() - i,
{
    if i < s.len() && is_unit_char(s[i]) {
        lemma_unit_end_bounds(s, i + 1);
    }
}

/// Powers of ten are positive.
pub proof fn lemma_pow10_pos(k: nat)
    ensures
        pow10(k) >= 1,
    decreases k,
{
    if k > 0 {
        lemma_pow10_pos((k - 1) as nat);
    }
}

/// Powers of ten grow with the exponent.
pub proof fn lemma_pow10_mono(a: nat, b: nat)
    requires
        a <= b,
    ensures
        pow10(a) <= pow10(b),
    decreases b,
{
    if a < b {
        lemma_pow10_mono(a, (b - 1) as nat);
        lemma_pow10_pos((b - 1) as nat);
    }
}

/// The largest power of ten the fraction arithmetic uses, as a number.
pub proof fn lemma_pow10_fraction_digits()
    ensures
        pow10(FRACTION_DIGITS as nat) == 1_000_000_000_000_000_000,
{
    assert(pow10(0) == 1);
    assert(pow10(1) == 10);
    assert(pow10(2) == 100);
    assert(pow10(3) == 1_000);
    assert(pow10(4) == 10_000);
    assert(pow10(5) == 100_000);
    assert(pow10(6) == 1_000_000);
    assert(pow10(7) == 10_000_000);
    assert(pow10(8) == 100_000_000);
    assert(pow10(9) == 1_000_000_000);
    assert(pow10(10) == 10_000_000_000);
    assert(pow10(11) == 100_000_000_000);
    assert(pow10(12) == 1_000_000_000_000);
    assert(pow10(13) == 10_000_000_000_000);
    assert(pow10(14) == 100_000_000_000_000);
    assert(pow10(15) == 1_000_000_000_000_000);
    assert(pow10(16) == 10_000_000_000_000_000);
    assert(pow10(17) == 100_000_000_000_000_000);
    assert(pow10(18) == 1_000_000_000_000_000_000);
}

/// A recognised unit is between one nanosecond and one hour.
pub proof fn lemma_unit_scale_bounds(s: Seq<char>, i: int, j: int)
    ensures
        (spec_unit_scale(s, i, j) matches Some(u) ==> 1 <= u <= 3_600_000_000_000),
{
}

/// A component sequence that parses is worth at least the integer part
/// of its first component.
pub proof fn lemma_component_min(s: Seq<char>, i: int)
    requires
        0 <= i < s.len(),
    ensures
        (spec_components_val(s, i) matches Some(w) ==> w >= digits_val(s, i, digits_end(s, i))),
{
    if spec_components_val(s, i) is Some {
        let int_end = digits_end(s, i);
        let has_dot = int_end < s.len() && s[int_end] == '.';
        let frac_start = if has_dot {
            int_end + 1
        } else {
            int_end
        };
        let frac_end = digits_end(s, frac_start);
        let unit_end_pos = unit_end(s, frac_end);
        let unit = spec_unit_scale(s, frac_end, unit_end_pos)->Some_0;
        let dv = digits_val(s, i, int_end);
        lemma_unit_scale_bounds(s, frac_end, unit_end_pos);
        assert(dv * unit >= dv * 1) by (nonlinear_arith)
            requires
                unit >= 1,
                dv >= 0,
        ;
    }
}

/// Tests whether a character is a decimal digit.
fn is_digit(c: char) -> (b: bool)
    ensures
        b == is_digit_char(c),
{
    '0' <= c && c <= '9'
}

/// Tests whether a character can belong to a unit suffix.
fn is_unit(c: char) -> (b: bool)
    ensures
        b == is_unit_char(c),
{
    !('0' <= c && c <= '9') && c != '.'
}

/// Advances from `start` past the run of decimal digits.
fn scan_digits(v: &str, start: usize, n: usize) -> (j: usize)
    requires
        n == v@.len(),
        start <= n,
    ensures
        start <= j <= n,
        j as int == digits_end(v@, start as int),
{
    let mut j = start;
    loop
        invariant_except_break
            n == v@.len(),
            start <= j <= n,
            digits_end(v@, start as int) == digits_end(v@, j as int),
        ensures
            start <= j <= n,
            j as int == digits_end(v@, start as int),
        decreases n - j,
    {
        if j == n {
            break ;
        }
        let c = v.get_char(j);
        if !is_digit(c) {
            break ;
        }
        j += 1;
    }
    j
}

/// Advances from `start` past the run of unit characters.
fn scan_unit(v: &str, start: usize, n: usize) -> (j: usize)
    requires
        n == v@.len(),
        start <= n,
    ensures
        start <= j <= n,
        j as int == unit_end(v@, start as int),
{
    let mut j = start;
    loop
        invariant_except_break
            n == v@.len(),
            start <= j <= n,
            unit_end(v@, start as int) == unit_end(v@, j as int),
        ensures
            start <= j <= n,
            j as int == unit_end(v@, start as int),
        decreases n - j,
    {
        if j == n {
            break ;
        }
        let c = v.get_char(j);
        if !is_unit(c) {
            break ;
        }
        j += 1;
    }
    j
}

/// Reads the value of the digits in `v[start..end)`. The flag reports
/// that the value does not fit a duration; the value itself is returned
/// only when it does.
fn read_int(v: &str, start: usize, end: usize, n: usize) -> (r: (u128, bool))
    requires
        n == v@.len(),
        start <= end <= n,
        forall|k: int| start <= k < end ==> is_digit_char(#[trigger] v@[k]),
    ensures
        !r.1 ==> r.0 as nat == digits_val(v@, start as int, end as int) && r.0
            <= MAX_DURATION_NANOS as u128,
        r.1 ==> digits_val(v@, start as int, end as int) > MAX_DURATION_NANOS,
{
    let mut acc: u128 = 0;
    let mut over = false;
    let mut k = start;
    while k < end
        invariant
            n == v@.len(),
            start <= k <= end <= n,
            forall|t: int| start <= t < end ==> is_digit_char(#[trigger] v@[t]),
            !over ==> acc as nat == digits_val(v@, start as int, k as int) && acc
                <= MAX_DURATION_NANOS as u128,
            over ==> digits_val(v@, start as int, k as int) > MAX_DURATION_NANOS,
        decreases end - k,
    {
        let c = v.get_char(k);
        assert(is_digit_char(c));
        let d = (c as u32 - 48) as u128;
        if over {
            assert(digits_val(v@, start as int, k as int + 1) > MAX_DURATION_NANOS);
        } else {
            let cand = acc * 10 + d;
            if cand > MAX_DURATION_NANOS as u128 {
                over = true;
            } else {
                acc = cand;
            }
        }
        k += 1;
    }
    (acc, over)
}

/// Reads the leading fraction digits in `v[fs..fe)` that carry value: at
/// most [`FRACTION_DIGITS`] of them. Returns their value and how many
/// were read.
fn read_frac(v: &str, fs: usize, fe: usize, n: usize) -> (r: (u128, usize))
    requires
        n == v@.len(),
        fs <= fe <= n,
        forall|k: int| fs <= k < fe ==> is_digit_char(#[trigger] v@[k]),
    ensures
        r.1 == if fe - fs <= FRACTION_DIGITS {
            fe - fs
        } else {
            FRACTION_DIGITS as int
        },
        r.0 as nat == digits_val(v@, fs as int, fs as int + r.1 as int),
        r.0 < pow10(r.1 as nat),
{
    let k = if fe - fs <= FRACTION_DIGITS {
        fe - fs
    } else {
        FRACTION_DIGITS
    };
    proof {
        lemma_pow10_fraction_digits();
    }
    let mut acc: u128 = 0;
    let mut t: usize = 0;
    while t < k
        invariant
            n == v@.len(),
            fs + k <= fe <= n,
            k <= FRACTION_DIGITS,
            t <= k,
            forall|u: int| fs <= u < fe ==> is_digit_char(#[trigger] v@[u]),
            acc as nat == digits_val(v@, fs as int, fs as int + t as int),
            acc < pow10(t as nat),
            pow10(FRACTION_DIGITS as nat) == 1_000_000_000_000_000_000,
        decreases k - t,
    {
        let c = v.get_char(fs + t);
        assert(is_digit_char(c));
        let d = (c as u32 - 48) as u128;
        proof {
            lemma_pow10_mono(t as nat, FRACTION_DIGITS as nat);
            assert(pow10(t as nat + 1) == 10 * pow10(t as nat));
        }
        acc = acc * 10 + d;
        t += 1;
    }
    (acc, t)
}

/// Computes ten to the `k` for the small exponents the fraction uses.
fn pow10_exec(k: usize) -> (p: u128)
    requires
        k <= FRACTION_DIGITS,
    ensures
        p as nat == pow10(k as nat),
{
    proof {
        lemma_pow10_fraction_digits();
    }
    let mut p: u128 = 1;
    let mut t: usize = 0;
    while t < k
        invariant
            t <= k <= FRACTION_DIGITS,
            p as nat == pow10(t as nat),
            pow10(FRACTION_DIGITS as nat) == 1_000_000_000_000_000_000,
        decreases k - t,
    {
        proof {
            lemma_pow10_mono(t as nat + 1, FRACTION_DIGITS as nat);
            assert(pow10(t as nat + 1) == 10 * pow10(t as nat));
        }
        p = p * 10;
        t += 1;
    }
    p
}

/// Looks up the unit suffix `v[us..ue)` in the unit table.
fn match_unit(v: &str, us: usize, ue: usize, n: usize) -> (u: Option<u64>)
    requires
        n == v@.len(),
        us <= ue <= n,
    ensures
        u == spec_unit_scale(v@, us as int, ue as int),
{
    if ue - us == 1 {
        let c = v.get_char(us);
        if c == 's' {
            Some(1_000_000_000)
        } else if c == 'm' {
            Some(60_000_000_000)
        } else if c == 'h' {
            Some(3_600_000_000_000)
        } else {
            None
        }
    } else if ue - us == 2 {
        let c1 = v.get_char(us + 1);
        if c1 == 's' {
            let c0 = v.get_char(us);
            if c0 == 'n' {
                Some(1)
            } else if c0 == 'u' {
                Some(1_000)
            } else if c0 == 'm' {
                Some(1_000_000)
            } else {
                None
            }
        } else {
            None
        }
    } else {
        None
    }
}

/// Parses a duration string such as `"3s"`, `"500ms"` or `"1h30m"` into a
/// nanosecond count. Returns `Ok` exactly on the strings that
/// [`spec_parse_duration`] accepts, with exactly the value it gives them,
/// and an error naming the reason otherwise.
pub fn parse_duration(v: &str) -> (r: Result<u64, String>)
    ensures
        (match spec_parse_duration(v@) {
            Some(d) => r == Ok::<u64, String>(d),
            None => r is Err,
        }),
{
    let n = v.unicode_len();
    let mut i: usize = 0;
    let mut neg = false;
    if n > 0 {
        let c = v.get_char(0);
        if c == '-' || c == '+' {
            neg = c == '-';
            i = 1;
        }
    }
    let ghost start: int = i as int;
    if n == i + 1 && v.get_char(i) == '0' {
        return Ok(0);
    }
    if i == n {
        return Err("invalid duration: no value".to_owned());
    }
    let mut total: u128 = 0;
    while i < n
        invariant
            n == v@.len(),
            0 <= start <= i <= n,
            total <= MAX_DURATION_NANOS as u128,
            (spec_components_val(v@, i as int) matches Some(w) ==> spec_components_val(v@, start)
                == Some((total as nat + w) as nat)),
            (spec_components_val(v@, i as int) is None ==> spec_components_val(v@, start)
                is None),
            !(v@.len() - start == 1 && v@[start] == '0'),
            v@.len() - start != 0,
            start == (if v@.len() > 0 && (v@[0] == '-' || v@[0] == '+') {
                1int
            } else {
                0int
            }),
            neg == (v@.len() > 0 && v@[0] == '-'),
        decreases n - i,
    {
        let int_end = scan_digits(v, i, n);
        let mut has_dot = false;
        if int_end < n {
            if v.get_char(int_end) == '.' {
                has_dot = true;
            }
        }
        let frac_start = if has_dot {
            int_end + 1
        } else {
            int_end
        };
        let frac_end = scan_digits(v, frac_start, n);
        if int_end == i && frac_end == frac_start {
            assert(spec_components_val(v@, i as int) is None);
            return Err("invalid duration: a number is missing".to_owned());
        }
        let unit_end_pos = scan_unit(v, frac_end, n);
        if unit_end_pos == frac_end {
            assert(spec_components_val(v@, i as int) is None);
            return Err("invalid duration: a unit is missing".to_owned());
        }
        let unit_opt = match_unit(v, frac_end, unit_end_pos, n);
        let unit = match unit_opt {
            None => {
                assert(spec_components_val(v@, i as int) is None);
                return Err("invalid duration: unknown unit".to_owned());
            },
            Some(u) => u,
        };
        proof {
            lemma_digits_end_digits(v@, i as int);
            lemma_digits_end_digits(v@, frac_start as int);
            lemma_unit_scale_bounds(v@, frac_end as int, unit_end_pos as int);
        }
        let (acc, over) = read_int(v, i, int_end, n);
        if over {
            proof {
                lemma_component_min(v@, i as int);
            }
            assert(spec_parse_duration(v@) is None);
            return Err("duration out of range".to_owned());
        }
        let (f, fk) = read_frac(v, frac_start, frac_end, n);
        let p = pow10_exec(fk);
        proof {
            lemma_pow10_pos(fk as nat);
            lemma_pow10_mono(fk as nat, FRACTION_DIGITS as nat);
            lemma_pow10_fraction_digits();
            assert((acc as nat) * (unit as nat) <= 9_223_372_036_854_775_807nat
                * 3_600_000_000_000nat) by (nonlinear_arith)
                requires
                    acc as nat <= 9_223_372_036_854_775_807nat,
                    unit as nat <= 3_600_000_000_000nat,
            ;
            assert((f as nat) * (unit as nat) <= 1_000_000_000_000_000_000nat
                * 3_600_000_000_000nat) by (nonlinear_arith)
                requires
                    f as nat <= 1_000_000_000_000_000_000nat,
                    unit as nat <= 3_600_000_000_000nat,
            ;
        }
        let base = acc * (unit as u128);
        let scaled = f * (unit as u128);
        proof {
            assert((scaled as nat) / (p as nat) <= scaled as nat) by (nonlinear_arith)
                requires
                    p as nat >= 1,
                    scaled as nat >= 0,
            ;
        }
        let fr = scaled / p;
        let comp = base + fr;
        assert(comp as nat == digits_val(v@, i as int, int_end as int) * (unit as nat) + frac_val(
            v@,
            frac_start as int,
            frac_end as int,
            unit,
        ));
        let total_new = total + comp;
        proof {
            let oi = i as int;
            let ni = unit_end_pos as int;
            assert(spec_components_val(v@, oi) == (match spec_components_val(v@, ni) {
                None => None::<nat>,
                Some(rest) => Some((comp as nat + rest) as nat),
            }));
        }
        if total_new > MAX_DURATION_NANOS as u128 {
            proof {
                let ni = unit_end_pos as int;
                if spec_components_val(v@, ni) is Some {
                    let rest = spec_components_val(v@, ni)->Some_0;
                    assert(spec_components_val(v@, start) == Some(
                        (total as nat + (comp as nat + rest)) as nat,
                    ));
                }
            }
            assert(spec_parse_duration(v@) is None);
            return Err("duration out of range".to_owned());
        }
        total = total_new;
        i = unit_end_pos;
    }
    assert(spec_components_val(v@, i as int) == Some(0nat));
    assert(spec_components_val(v@, start) == Some(total as nat));
    if neg {
        if total == 0 {
            return Ok(0);
        }
        return Err("negative durations are not accepted".to_owned());
    }
    Ok(total as u64)
}

} // verus!
