use vstd::prelude::*;
use vstd::arithmetic::div_mod::{lemma_fundamental_div_mod, lemma_mod_breakdown, lemma_small_mod};

verus! {

/// The character of a decimal digit.
pub open spec fn digit_char(d: nat) -> char {
    if d == 0 { '0' } else if d == 1 { '1' } else if d == 2 { '2' } else if d == 3 { '3' }
    else if d == 4 { '4' } else if d == 5 { '5' } else if d == 6 { '6' } else if d == 7 { '7' }
    else if d == 8 { '8' } else { '9' }
}

/// The decimal digits of `n`, most significant first, with no leading zeros.
pub open spec fn dec(n: nat) -> Seq<char>
    decreases n,
{
    if n < 10 {
        seq![digit_char(n)]
    } else {
        dec(n / 10).push(digit_char(n % 10))
    }
}

fn digit_str(d: u64) -> (r: &'static str)
    requires
        d < 10,
    ensures
        r@ == seq![digit_char(d as nat)],
{
    proof {
        reveal_strlit("0");
        reveal_strlit("1");
        reveal_strlit("2");
        reveal_strlit("3");
        reveal_strlit("4");
        reveal_strlit("5");
        reveal_strlit("6");
        reveal_strlit("7");
        reveal_strlit("8");
        reveal_strlit("9");
    }
    if d == 0 { "0" } else if d == 1 { "1" } else if d == 2 { "2" } else if d == 3 { "3" }
    else if d == 4 { "4" } else if d == 5 { "5" } else if d == 6 { "6" } else if d == 7 { "7" }
    else if d == 8 { "8" } else { "9" }
}

/// Appends the decimal digits of `n` to `out`.
pub fn push_decimal(out: &mut String, n: u64)
    ensures
        final(out)@ == old(out)@ + dec(n as nat),
    decreases n,
{
    if n >= 10 {
        push_decimal(out, n / 10);
    }
    out.append(digit_str(n % 10));
}

/// Ten to the power `w`.
pub open spec fn pow10(w: nat) -> nat
    decreases w,
{
    if w == 0 {
        1
    } else {
        10 * pow10((w - 1) as nat)
    }
}

/// The low `w` decimal digits of `f`, zero padded on the left to exactly `w` characters.
pub open spec fn padded_digits(f: nat, w: nat) -> Seq<char>
    decreases w,
{
    if w == 0 {
        seq![]
    } else {
        padded_digits(f / 10, (w - 1) as nat).push(digit_char(f % 10))
    }
}

pub open spec fn abs(v: int) -> nat {
    if v < 0 {
        (-v) as nat
    } else {
        v as nat
    }
}

/// The exact decimal text of the fixed-point number `v / 10^w`: an optional minus sign,
/// the integer part, a point, and exactly `w` fractional digits.
pub open spec fn fixed_text(v: int, w: nat) -> Seq<char> {
    (if v < 0 { seq!['-'] } else { seq![] }) + dec(abs(v) / pow10(w)) + seq!['.'] + padded_digits(
        abs(v) % pow10(w),
        w,
    )
}

/// `s` followed by spaces up to a total length of `w`; `s` itself when it is already that long.
pub open spec fn pad_right(s: Seq<char>, w: nat) -> Seq<char> {
    if s.len() >= w {
        s
    } else {
        s + Seq::new((w - s.len()) as nat, |i: int| ' ')
    }
}

proof fn lemma_pow10_mono(a: nat, b: nat)
    requires
        a <= b,
    ensures
        1 <= pow10(a) <= pow10(b),
    decreases b,
{
    if a < b {
        lemma_pow10_mono(a, (b - 1) as nat);
    } else if b > 0 {
        lemma_pow10_mono((b - 1) as nat, (b - 1) as nat);
    }
}

/// Ten to the power `w`, for the small widths used by the clock's numbers.
pub fn pow10_u64(w: u32) -> (r: u64)
    requires
        w <= 6,
    ensures
        r == pow10(w as nat),
        1 <= r <= 1000000,
{
    proof {
        reveal_with_fuel(pow10, 7);
        lemma_pow10_mono(w as nat, 6);
    }
    let mut r: u64 = 1;
    let mut i: u32 = 0;
    while i < w
        invariant
            i <= w <= 6,
            r == pow10(i as nat),
            pow10(w as nat) <= 1000000,
        decreases w - i,
    {
        proof {
            lemma_pow10_mono((i + 1) as nat, w as nat);
        }
        r = r * 10;
        i = i + 1;
    }
    r
}

fn push_padded_digits(out: &mut String, f: u64, w: u32)
    ensures
        final(out)@ == old(out)@ + padded_digits(f as nat, w as nat),
    decreases w,
{
    if w > 0 {
        push_padded_digits(out, f / 10, w - 1);
        out.append(digit_str(f % 10));
    }
}

/// Appends the exact decimal text of the fixed-point number `v / 10^w` to `out`.
pub fn push_fixed_u64(out: &mut String, v: u64, w: u32)
    requires
        w <= 6,
    ensures
        final(out)@ == old(out)@ + fixed_text(v as int, w as nat),
{
    let p = pow10_u64(w);
    proof {
        reveal_strlit(".");
    }
    push_decimal(out, v / p);
    out.append(".");
    push_padded_digits(out, v % p, w);
    assert(out@ =~= old(out)@ + fixed_text(v as int, w as nat));
}

/// Appends the exact decimal text of the fixed-point number `v / 10^w` to `out`.
pub fn push_fixed(out: &mut String, v: i64, w: u32)
    requires
        w <= 6,
    ensures
        final(out)@ == old(out)@ + fixed_text(v as int, w as nat),
{
    let a: u64 = if v < 0 {
        (-(v + 1)) as u64 + 1
    } else {
        v as u64
    };
    assert(a == abs(v as int));
    proof {
        reveal_strlit("-");
    }
    if v < 0 {
        out.append("-");
    }
    push_fixed_u64(out, a, w);
    assert(out@ =~= old(out)@ + fixed_text(v as int, w as nat));
}

/// `s` without its trailing zeros.
pub open spec fn strip_zeros(s: Seq<char>) -> Seq<char>
    decreases s.len(),
{
    if s.len() > 0 && s.last() == '0' {
        strip_zeros(s.drop_last())
    } else {
        s
    }
}

/// The shortest decimal text of the fixed-point number `v / 10^w`: the fraction loses its
/// trailing zeros, and a whole number has no point at all.
pub open spec fn short_text(v: int, w: nat) -> Seq<char> {
    let frac = strip_zeros(padded_digits(abs(v) % pow10(w), w));
    (if v < 0 { seq!['-'] } else { seq![] }) + dec(abs(v) / pow10(w)) + (if frac.len() == 0 {
        seq![]
    } else {
        seq!['.'] + frac
    })
}

/// Appends the shortest decimal text of the fixed-point number `v / 10^w` to `out`.
pub fn push_short(out: &mut String, v: i64, w: u32)
    requires
        w <= 6,
    ensures
        final(out)@ == old(out)@ + short_text(v as int, w as nat),
{
    let a: u64 = if v < 0 {
        (-(v + 1)) as u64 + 1
    } else {
        v as u64
    };
    assert(a == abs(v as int));
    let p = pow10_u64(w);
    proof {
        reveal_strlit("-");
        reveal_strlit(".");
    }
    if v < 0 {
        out.append("-");
    }
    push_decimal(out, a / p);
    let mut f: u64 = a % p;
    let mut k: u32 = w;
    while k > 0 && f % 10 == 0
        invariant
            k <= w,
            strip_zeros(padded_digits(f as nat, k as nat)) == strip_zeros(
                padded_digits((a % p) as nat, w as nat),
            ),
        decreases k,
    {
        assert(padded_digits(f as nat, k as nat).drop_last() == padded_digits((f / 10) as nat, (k - 1) as nat));
        f = f / 10;
        k = k - 1;
    }
    let ghost pd = padded_digits(f as nat, k as nat);
    assert(strip_zeros(pd) == pd) by {
        if k > 0 {
            assert(pd.last() == digit_char((f % 10) as nat));
        }
    }
    if k > 0 {
        out.append(".");
        push_padded_digits(out, f, k);
    }
    assert(out@ =~= old(out)@ + short_text(v as int, w as nat));
}

/// Appends `s` to `out`, followed by spaces up to a field width of `w`.
pub fn push_padded(out: &mut String, s: &str, w: usize)
    ensures
        final(out)@ == old(out)@ + pad_right(s@, w as nat),
{
    let n = s.unicode_len();
    out.append(s);
    let mut k: usize = n;
    while k < w
        invariant
            n == s@.len(),
            n <= k,
            k <= w || k == n,
            out@ == old(out)@ + s@ + Seq::new((k - n) as nat, |i: int| ' '),
        decreases w - k,
    {
        proof {
            reveal_strlit(" ");
        }
        out.append(" ");
        k = k + 1;
        assert(out@ =~= old(out)@ + s@ + Seq::new((k - n) as nat, |i: int| ' '));
    }
    assert(out@ =~= old(out)@ + pad_right(s@, w as nat));
}

pub open spec fn is_digit(c: char) -> bool {
    '0' <= c && c <= '9'
}

pub open spec fn digit_val(c: char) -> nat {
    ((c as u32) - ('0' as u32)) as nat
}

/// The number that a string of decimal digits denotes.
pub open spec fn digits_value(s: Seq<char>) -> nat
    decreases s.len(),
{
    if s.len() == 0 {
        0
    } else {
        digits_value(s.drop_last()) * 10 + digit_val(s.last())
    }
}

pub open spec fn all_digits(s: Seq<char>) -> bool {
    forall|i: int| 0 <= i < s.len() ==> is_digit(#[trigger] s[i])
}

/// `s` is a decimal number whose integer part is `s[0..k]`: at least one digit, then
/// either the end or a point followed by any number of digits.
pub open spec fn decimal_split(s: Seq<char>, k: int) -> bool {
    &&& 0 < k <= s.len()
    &&& all_digits(s.subrange(0, k))
    &&& (k == s.len() || (s[k] == '.' && all_digits(s.subrange(k + 1, s.len() as int))))
}

pub open spec fn is_decimal(s: Seq<char>) -> bool {
    exists|k: int| decimal_split(s, k)
}

/// The first `w` digits of a fraction, with zeros added where it has fewer.
pub open spec fn fraction_digits(f: Seq<char>, w: nat) -> Seq<char> {
    if f.len() >= w {
        f.subrange(0, w as int)
    } else {
        f + Seq::new((w - f.len()) as nat, |i: int| '0')
    }
}

/// The value of the decimal number `s` in units of `10^-w`, further fractional digits
/// being dropped.
pub open spec fn decimal_units(s: Seq<char>, w: nat) -> nat {
    let k = choose|k: int| decimal_split(s, k);
    digits_value(s.subrange(0, k)) * pow10(w) + digits_value(
        fraction_digits(
            if k < s.len() {
                s.subrange(k + 1, s.len() as int)
            } else {
                seq![]
            },
            w,
        ),
    )
}

/// What `parse_fixed` gives for `s`: the value in units of `10^-w` when `s` is a
/// decimal number whose value fits in a `u64`.
pub open spec fn parsed_fixed(s: Seq<char>, w: nat) -> Option<u64> {
    if is_decimal(s) && decimal_units(s, w) <= u64::MAX {
        Some(decimal_units(s, w) as u64)
    } else {
        None
    }
}

pub proof fn lemma_split_unique(s: Seq<char>, k1: int, k2: int)
    requires
        decimal_split(s, k1),
        decimal_split(s, k2),
    ensures
        k1 == k2,
{
    if k1 < k2 {
        assert(s.subrange(0, k2)[k1] == s[k1]);
    } else if k2 < k1 {
        assert(s.subrange(0, k1)[k2] == s[k2]);
    }
}

proof fn lemma_digits_prefix_mono(s: Seq<char>, i: int, j: int)
    requires
        0 <= i <= j <= s.len(),
    ensures
        digits_value(s.subrange(0, i)) <= digits_value(s.subrange(0, j)),
    decreases j - i,
{
    if i < j {
        lemma_digits_prefix_mono(s, i, j - 1);
        assert(s.subrange(0, j).drop_last() =~= s.subrange(0, j - 1));
    }
}

fn is_digit_char(c: char) -> (r: bool)
    ensures
        r == is_digit(c),
{
    '0' <= c && c <= '9'
}

/// The value of a decimal digit character.
fn char_digit(c: char) -> (r: u64)
    requires
        is_digit(c),
    ensures
        r == digit_val(c),
        r < 10,
{
    ((c as u32) - ('0' as u32)) as u64
}

/// Reads the decimal number `s` (digits, then optionally a point and more digits) as a
/// fixed-point value in units of `10^-w`. Fractional digits past the `w`-th are
/// dropped. `None` when `s` is not such a number or its value does not fit in a `u64`.
pub fn parse_fixed(s: &str, w: u32) -> (r: Option<u64>)
    requires
        w <= 6,
    ensures
        r == parsed_fixed(s@, w as nat),
{
    let n = s.unicode_len();
    let ghost t = s@;
    // the integer part
    let mut k: usize = 0;
    while k < n && is_digit_char(s.get_char(k))
        invariant
            n == t.len(),
            t == s@,
            k <= n,
            all_digits(t.subrange(0, k as int)),
        decreases n - k,
    {
        assert(all_digits(t.subrange(0, k + 1)));
        k = k + 1;
    }
    if k == 0 || (k < n && s.get_char(k) != '.') {
        proof {
            if is_decimal(t) {
                let k2 = choose|k2: int| decimal_split(t, k2);
                if k2 < k {
                    assert(t.subrange(0, k as int)[k2] == t[k2]);
                } else if k2 > k {
                    assert(t.subrange(0, k2)[k as int] == t[k as int]);
                }
            }
        }
        return None;
    }
    // the fraction must be digits alone
    let start: usize = if k < n {
        k + 1
    } else {
        n
    };
    let mut j: usize = start;
    while j < n
        invariant
            n == t.len(),
            t == s@,
            start <= j <= n,
            start == (if k < n { k + 1 } else { n as int }),
            0 < k <= n,
            k < n ==> t[k as int] == '.',
            all_digits(t.subrange(0, k as int)),
            all_digits(t.subrange(start as int, j as int)),
        decreases n - j,
    {
        if !is_digit_char(s.get_char(j)) {
            proof {
                if is_decimal(t) {
                    let k2 = choose|k2: int| decimal_split(t, k2);
                    if k2 < k {
                        assert(t.subrange(0, k as int)[k2] == t[k2]);
                    } else if k2 > k {
                        assert(t.subrange(0, k2)[k as int] == t[k as int]);
                    }
                    assert(t.subrange(k + 1, n as int)[j - (k + 1)] == t[j as int]);
                }
            }
            return None;
        }
        assert(all_digits(t.subrange(start as int, j + 1)));
        j = j + 1;
    }
    proof {
        assert(decimal_split(t, k as int));
        let k2 = choose|k2: int| decimal_split(t, k2);
        lemma_split_unique(t, k as int, k2);
    }
    let ghost f: Seq<char> = if k < n {
        t.subrange(k + 1, n as int)
    } else {
        seq![]
    };
    let ghost fd = fraction_digits(f, w as nat);
    let p = pow10_u64(w);
    assert(decimal_units(t, w as nat) == digits_value(t.subrange(0, k as int)) * p + digits_value(fd));
    // the integer part's value
    let mut i: usize = 0;
    let mut acc: u64 = 0;
    while i < k
        invariant
            n == t.len(),
            t == s@,
            k <= n,
            i <= k,
            1 <= p,
            is_decimal(t),
            decimal_units(t, w as nat) == digits_value(t.subrange(0, k as int)) * p + digits_value(fd),
            all_digits(t.subrange(0, k as int)),
            acc == digits_value(t.subrange(0, i as int)),
        decreases k - i,
    {
        assert(t.subrange(0, k as int)[i as int] == t[i as int]);
        let d = char_digit(s.get_char(i));
        assert(t.subrange(0, i + 1).drop_last() =~= t.subrange(0, i as int));
        if acc > (u64::MAX - d) / 10 {
            proof {
                assert(acc * 10 + d > u64::MAX) by (nonlinear_arith)
                    requires
                        acc > (u64::MAX - d) / 10,
                        d < 10,
                ;
                lemma_digits_prefix_mono(t, i + 1, k as int);
                let dv = digits_value(t.subrange(0, k as int));
                assert(dv * p >= dv) by (nonlinear_arith)
                    requires
                        p >= 1,
                ;
            }
            return None;
        }
        acc = acc * 10 + d;
        i = i + 1;
    }
    // the fraction's first w digits
    let flen: usize = n - start;
    assert(fd.len() == w);
    let mut q: u32 = 0;
    let mut frac: u64 = 0;
    while q < w
        invariant
            n == t.len(),
            t == s@,
            q <= w <= 6,
            flen == f.len(),
            start + flen == n,
            f == t.subrange(start as int, n as int),
            all_digits(f),
            fd == fraction_digits(f, w as nat),
            fd.len() == w,
            frac == digits_value(fd.subrange(0, q as int)),
            frac < pow10(q as nat),
            pow10(w as nat) <= 1000000,
        decreases w - q,
    {
        let c = if (q as usize) < flen {
            s.get_char(start + q as usize)
        } else {
            '0'
        };
        assert(c == fd[q as int]);
        let d = char_digit(c);
        assert(fd.subrange(0, q + 1).drop_last() =~= fd.subrange(0, q as int));
        proof {
            lemma_pow10_mono((q + 1) as nat, w as nat);
        }
        frac = frac * 10 + d;
        q = q + 1;
    }
    assert(fd.subrange(0, w as int) =~= fd);
    if acc > (u64::MAX - frac) / p {
        assert(acc * p + frac > u64::MAX) by (nonlinear_arith)
            requires
                acc > (u64::MAX - frac) / (p as int),
                p >= 1,
                frac <= u64::MAX,
        ;
        return None;
    }
    assert(acc * p + frac <= u64::MAX) by (nonlinear_arith)
        requires
            acc <= (u64::MAX - frac) / (p as int),
            p >= 1,
            frac <= u64::MAX,
    ;
    Some(acc * p + frac)
}

proof fn lemma_digit_char(d: nat)
    requires
        d < 10,
    ensures
        is_digit(digit_char(d)),
        digit_val(digit_char(d)) == d,
{
}

proof fn lemma_dec_digits(n: nat)
    ensures
        all_digits(dec(n)),
        digits_value(dec(n)) == n,
        dec(n).len() >= 1,
    decreases n,
{
    lemma_digit_char(n % 10);
    if n >= 10 {
        lemma_dec_digits(n / 10);
        assert(dec(n).drop_last() =~= dec(n / 10));
        assert(dec(n).last() == digit_char(n % 10));
        lemma_fundamental_div_mod(n as int, 10);
        assert(digits_value(dec(n)) == digits_value(dec(n / 10)) * 10 + digit_val(digit_char(n % 10)));
        assert forall|i: int| 0 <= i < dec(n).len() implies is_digit(#[trigger] dec(n)[i]) by {
            if i < dec(n).len() - 1 {
                assert(dec(n)[i] == dec(n / 10)[i]);
            }
        }
    } else {
        assert(dec(n).drop_last() =~= Seq::<char>::empty());
        lemma_small_mod(n, 10);
        assert(digits_value(dec(n)) == digits_value(Seq::<char>::empty()) * 10 + digit_val(digit_char(n % 10)));
    }
}

proof fn lemma_padded_digits(f: nat, w: nat)
    ensures
        all_digits(padded_digits(f, w)),
        padded_digits(f, w).len() == w,
        digits_value(padded_digits(f, w)) == f % pow10(w),
    decreases w,
{
    if w == 0 {
        lemma_small_mod(0, 1);
        assert(f % 1 == 0);
    } else {
        let w1 = (w - 1) as nat;
        lemma_padded_digits(f / 10, w1);
        lemma_digit_char(f % 10);
        let pd = padded_digits(f, w);
        assert(pd.drop_last() =~= padded_digits(f / 10, w1));
        assert forall|i: int| 0 <= i < pd.len() implies is_digit(#[trigger] pd[i]) by {
            if i < pd.len() - 1 {
                assert(pd[i] == padded_digits(f / 10, w1)[i]);
            }
        }
        lemma_pow10_mono(0, w1);
        lemma_mod_breakdown(f as int, 10, pow10(w1) as int);
    }
}

/// The text of a fixed-point number reads back as that number: formatting with `w`
/// decimals and parsing with `w` decimals is the identity.
pub proof fn lemma_fixed_text_round_trip(v: u64, w: nat)
    requires
        w <= 6,
    ensures
        parsed_fixed(fixed_text(v as int, w), w) == Some(v),
{
    let p = pow10(w);
    lemma_pow10_mono(0, w);
    let q = (v as nat) / p;
    let f = (v as nat) % p;
    let int_part = dec(q);
    let frac = padded_digits(f, w);
    lemma_dec_digits(q);
    lemma_padded_digits(f, w);
    let t = fixed_text(v as int, w);
    assert(t =~= int_part + seq!['.'] + frac);
    let k = int_part.len() as int;
    assert(t.subrange(0, k) =~= int_part);
    assert(t.subrange(k + 1, t.len() as int) =~= frac);
    assert(t[k] == '.');
    assert(decimal_split(t, k));
    let k2 = choose|k2: int| decimal_split(t, k2);
    lemma_split_unique(t, k, k2);
    assert(fraction_digits(frac, w) =~= frac);
    lemma_small_mod(f, p);
    lemma_fundamental_div_mod(v as int, p as int);
    assert(decimal_units(t, w) == q * p + f);
    assert(q * p + f == v) by (nonlinear_arith)
        requires
            v == p * q + f,
    ;
}

} // verus!
