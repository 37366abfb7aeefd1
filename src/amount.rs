use vstd::prelude::*;

verus! {

/// Decimal places of the token: an amount counts units of `10^-11`.
pub const TOKEN_DECIMALS: u32 = 11;

/// Units in one whole token.
pub const ONE_ORE: u64 = 100_000_000_000;

/// `10^n`.
pub open spec fn pow10(n: nat) -> nat
    decreases n,
{
    if n == 0 {
        1
    } else {
        10 * pow10((n - 1) as nat)
    }
}

/// The character of a decimal digit.
pub open spec fn digit_char(d: int) -> char {
    if d == 0 {
        '0'
    } else if d == 1 {
        '1'
    } else if d == 2 {
        '2'
    } else if d == 3 {
        '3'
    } else if d == 4 {
        '4'
    } else if d == 5 {
        '5'
    } else if d == 6 {
        '6'
    } else if d == 7 {
        '7'
    } else if d == 8 {
        '8'
    } else {
        '9'
    }
}

/// The digit a character stands for, or -1.
pub open spec fn digit_of(c: char) -> int {
    if c == '0' {
        0
    } else if c == '1' {
        1
    } else if c == '2' {
        2
    } else if c == '3' {
        3
    } else if c == '4' {
        4
    } else if c == '5' {
        5
    } else if c == '6' {
        6
    } else if c == '7' {
        7
    } else if c == '8' {
        8
    } else if c == '9' {
        9
    } else {
        -1
    }
}

pub open spec fn all_digits(s: Seq<char>) -> bool {
    forall|i: int| 0 <= i < s.len() ==> digit_of(#[trigger] s[i]) >= 0
}

/// Value of a string of decimal digits.
pub open spec fn digits_value(s: Seq<char>) -> nat
    decreases s.len(),
{
    if s.len() == 0 {
        0
    } else {
        let d = digit_of(s.last());
        digits_value(s.drop_last()) * 10 + (if d >= 0 {
            d as nat
        } else {
            0
        })
    }
}

/// Decimal digits of `n`, most significant first, without leading zeros.
pub open spec fn decimal(n: nat) -> Seq<char>
    decreases n,
{
    if n < 10 {
        seq![digit_char(n as int)]
    } else {
        decimal(n / 10).push(digit_char((n % 10) as int))
    }
}

/// The last `w` decimal digits of `n`, with leading zeros.
pub open spec fn padded(n: nat, w: nat) -> Seq<char>
    decreases w,
{
    if w == 0 {
        Seq::empty()
    } else {
        padded(n / 10, (w - 1) as nat).push(digit_char((n % 10) as int))
    }
}

/// The string without its trailing zeros.
pub open spec fn trim_zeros(s: Seq<char>) -> Seq<char>
    decreases s.len(),
{
    if s.len() > 0 && s.last() == '0' {
        trim_zeros(s.drop_last())
    } else {
        s
    }
}

/// An amount as a decimal number of tokens: the whole part, then, when the
/// fraction is not zero, a point and the fraction without trailing zeros.
pub open spec fn amount_text(a: u64) -> Seq<char> {
    let whole = (a / ONE_ORE) as nat;
    let frac = (a % ONE_ORE) as nat;
    if frac == 0 {
        decimal(whole)
    } else {
        decimal(whole) + seq!['.'] + trim_zeros(padded(frac, TOKEN_DECIMALS as nat))
    }
}

/// The point stands at `p`, with digits before it and one to eleven digits
/// after it.
pub open spec fn point_at(s: Seq<char>, p: int) -> bool {
    &&& 1 <= p
    &&& p + 1 < s.len()
    &&& s.len() - p - 1 <= TOKEN_DECIMALS
    &&& s[p] == '.'
    &&& all_digits(s.take(p))
    &&& all_digits(s.skip(p + 1))
}

/// The units a decimal number of tokens stands for: digits, optionally
/// followed by a point and at most eleven digits; none for other text.
pub open spec fn parse_amount(s: Seq<char>) -> Option<nat> {
    if s.len() > 0 && all_digits(s) {
        Some(digits_value(s) * (ONE_ORE as nat))
    } else if exists|p: int| point_at(s, p) {
        let p = choose|p: int| point_at(s, p);
        let frac = s.skip(p + 1);
        Some(
            digits_value(s.take(p)) * (ONE_ORE as nat) + digits_value(frac) * pow10(
                (TOKEN_DECIMALS - frac.len()) as nat,
            ),
        )
    } else {
        None
    }
}

/// The parsed amount when it fits in a `u64`.
pub open spec fn parse_amount_u64(s: Seq<char>) -> Option<u64> {
    match parse_amount(s) {
        Some(v) => if v <= u64::MAX {
            Some(v as u64)
        } else {
            None
        },
        None => None,
    }
}

proof fn lemma_pow10_11()
    ensures
        pow10(11) == ONE_ORE,
{
    reveal_with_fuel(pow10, 12);
}

proof fn lemma_pow10_pos(n: nat)
    ensures
        pow10(n) >= 1,
    decreases n,
{
    if n > 0 {
        lemma_pow10_pos((n - 1) as nat);
    }
}

proof fn lemma_digit_round_trip(d: int)
    requires
        0 <= d < 10,
    ensures
        digit_of(digit_char(d)) == d,
{
}

proof fn lemma_decimal(n: nat)
    ensures
        decimal(n).len() >= 1,
        all_digits(decimal(n)),
        digits_value(decimal(n)) == n,
    decreases n,
{
    if n < 10 {
        lemma_digit_round_trip(n as int);
        let s = decimal(n);
        assert(s.drop_last() =~= Seq::<char>::empty());
        assert(digits_value(Seq::<char>::empty()) == 0);
        assert(s.last() == digit_char(n as int));
        assert(digits_value(s) == digits_value(s.drop_last()) * 10 + n);
    } else {
        lemma_decimal(n / 10);
        lemma_digit_round_trip((n % 10) as int);
        let s = decimal(n);
        assert(s.drop_last() =~= decimal(n / 10));
        assert(s.last() == digit_char((n % 10) as int));
        assert(digits_value(s) == digits_value(s.drop_last()) * 10 + n % 10);
        assert(n == (n / 10) * 10 + n % 10);
        assert forall|i: int| 0 <= i < s.len() implies digit_of(#[trigger] s[i]) >= 0 by {
            if i < s.len() - 1 {
                assert(s[i] == decimal(n / 10)[i]);
            }
        }
    }
}

proof fn lemma_padded(n: nat, w: nat)
    ensures
        padded(n, w).len() == w,
        all_digits(padded(n, w)),
        digits_value(padded(n, w)) == n % pow10(w),
    decreases w,
{
    if w > 0 {
        lemma_padded(n / 10, (w - 1) as nat);
        lemma_digit_round_trip((n % 10) as int);
        let s = padded(n, w);
        assert(s.drop_last() =~= padded(n / 10, (w - 1) as nat));
        assert forall|i: int| 0 <= i < s.len() implies digit_of(#[trigger] s[i]) >= 0 by {
            if i < s.len() - 1 {
                assert(s[i] == padded(n / 10, (w - 1) as nat)[i]);
            }
        }
        lemma_pow10_pos((w - 1) as nat);
        let m = pow10((w - 1) as nat);
        assert(pow10(w) == 10 * m);
        vstd::arithmetic::div_mod::lemma_mod_breakdown(n as int, 10, m as int);
        assert(10 * m == m * 10) by (nonlinear_arith);
    }
}

proof fn lemma_trim(s: Seq<char>)
    requires
        all_digits(s),
    ensures
        all_digits(trim_zeros(s)),
        trim_zeros(s).len() <= s.len(),
        trim_zeros(s) =~= s.take(trim_zeros(s).len() as int),
        digits_value(trim_zeros(s)) * pow10((s.len() - trim_zeros(s).len()) as nat) == digits_value(s),
    decreases s.len(),
{
    if s.len() > 0 && s.last() == '0' {
        let t = s.drop_last();
        assert(all_digits(t)) by {
            assert forall|i: int| 0 <= i < t.len() implies digit_of(#[trigger] t[i]) >= 0 by {
                assert(t[i] == s[i]);
            }
        }
        lemma_trim(t);
        let tt = trim_zeros(t);
        let k = (t.len() - tt.len()) as nat;
        assert(trim_zeros(s) == tt);
        assert(digit_of(s.last()) == 0);
        assert(digits_value(s) == digits_value(t) * 10);
        assert(tt =~= s.take(tt.len() as int));
        assert(pow10(k + 1) == 10 * pow10(k));
        assert(digits_value(tt) * pow10(k) == digits_value(t));
        assert(((s.len() - tt.len()) as nat) == k + 1);
        assert(digits_value(tt) * (10 * pow10(k)) == (digits_value(tt) * pow10(k)) * 10) by (
        nonlinear_arith);
        assert(pow10((s.len() - trim_zeros(s).len()) as nat) == pow10(k + 1));
        assert(digits_value(trim_zeros(s)) * pow10((s.len() - trim_zeros(s).len()) as nat)
            == digits_value(tt) * (10 * pow10(k)));
        assert((digits_value(tt) * pow10(k)) * 10 == digits_value(t) * 10);
    } else {
        assert(s.take(s.len() as int) =~= s);
        assert(trim_zeros(s) == s);
        assert(pow10(0) == 1);
        assert(((s.len() - trim_zeros(s).len()) as nat) == 0);
        assert(digits_value(s) * pow10(0) == digits_value(s));
    }
}

proof fn lemma_pow10_mono(a: nat, b: nat)
    requires
        a <= b,
    ensures
        pow10(a) <= pow10(b),
    decreases b,
{
    if a < b {
        lemma_pow10_mono(a, (b - 1) as nat);
    }
}

/// Only the first point of a string can be the point of an amount.
proof fn lemma_point_unique(s: Seq<char>, p: int)
    requires
        0 <= p < s.len(),
        s[p] == '.',
        forall|k: int| 0 <= k < p ==> s[k] != '.',
    ensures
        forall|q: int| point_at(s, q) ==> q == p,
        !all_digits(s),
{
    assert(digit_of(s[p]) < 0);
    assert forall|q: int| point_at(s, q) implies q == p by {
        if q > p {
            assert(s.take(q)[p] == s[p]);
        }
    }
}

/// `10^e` for small `e`.
fn pow10_exec(e: u32) -> (r: u64)
    requires
        e <= 11,
    ensures
        r as nat == pow10(e as nat),
        r <= ONE_ORE,
{
    let mut r: u64 = 1;
    let mut i: u32 = 0;
    proof {
        lemma_pow10_11();
    }
    while i < e
        invariant
            i <= e <= 11,
            r as nat == pow10(i as nat),
            pow10(11) == ONE_ORE,
        decreases e - i,
    {
        proof {
            lemma_pow10_mono((i + 1) as nat, 11);
        }
        r = r * 10;
        i = i + 1;
    }
    proof {
        lemma_pow10_mono(e as nat, 11);
    }
    r
}

/// Reads the characters of `s` in `[from, to)` as decimal digits: whether they
/// all are digits, and then their value, or none when it exceeds `u64::MAX`.
fn scan_digits(s: &str, from: usize, to: usize) -> (r: (bool, Option<u64>))
    requires
        from <= to <= s@.len(),
    ensures
        r.0 == all_digits(s@.subrange(from as int, to as int)),
        r.0 ==> (r.1 matches Some(v) ==> v as nat == digits_value(
            s@.subrange(from as int, to as int),
        )),
        r.0 ==> (r.1 is None ==> digits_value(s@.subrange(from as int, to as int)) > u64::MAX),
{
    let mut acc: u64 = 0;
    let mut over = false;
    let mut k: usize = from;
    proof {
        assert(s@.subrange(from as int, from as int) =~= Seq::<char>::empty());
    }
    while k < to
        invariant
            from <= k <= to <= s@.len(),
            all_digits(s@.subrange(from as int, k as int)),
            !over ==> acc as nat == digits_value(s@.subrange(from as int, k as int)),
            over ==> digits_value(s@.subrange(from as int, k as int)) > u64::MAX,
        decreases to - k,
    {
        let c = s.get_char(k);
        let ghost prev = s@.subrange(from as int, k as int);
        let ghost next = s@.subrange(from as int, k + 1);
        proof {
            assert(next.drop_last() =~= prev);
            assert(next.last() == c);
        }
        match digit_value(c) {
            None => {
                proof {
                    assert(next[next.len() - 1] == c);
                    assert(!all_digits(s@.subrange(from as int, to as int))) by {
                        assert(s@.subrange(from as int, to as int)[k - from] == c);
                    }
                }
                return (false, None);
            },
            Some(d) => {
                if !over {
                    if acc <= (u64::MAX - d) / 10 {
                        acc = acc * 10 + d;
                    } else {
                        over = true;
                    }
                }
                proof {
                    assert forall|i: int| 0 <= i < next.len() implies digit_of(#[trigger] next[i])
                        >= 0 by {
                        if i < prev.len() {
                            assert(next[i] == prev[i]);
                        }
                    }
                }
                k = k + 1;
            },
        }
    }
    if over {
        (true, None)
    } else {
        (true, Some(acc))
    }
}

/// A decimal number of tokens read back in units (`1.5` is `150000000000`):
/// none for text that is not such a number, or whose amount exceeds
/// `u64::MAX`.
pub fn amount_string_to_u64(s: &str) -> (r: Option<u64>)
    ensures
        r == parse_amount_u64(s@),
{
    let n = s.unicode_len();
    let mut p: usize = 0;
    while p < n && s.get_char(p) != '.'
        invariant
            p <= n,
            n == s@.len(),
            forall|k: int| 0 <= k < p ==> s@[k] != '.',
        decreases n - p,
    {
        p = p + 1;
    }
    proof {
        lemma_pow10_11();
        assert(s@.subrange(0, p as int) =~= s@.take(p as int));
    }
    if p == 0 {
        proof {
            if n > 0 {
                lemma_point_unique(s@, 0);
            }
        }
        return None;
    }
    let (whole_digits, whole) = scan_digits(s, 0, p);
    if p == n {
        proof {
            assert(s@.take(p as int) =~= s@);
            assert forall|q: int| !point_at(s@, q) by {
                if 0 <= q < n {
                    assert(s@[q] != '.');
                }
            }
        }
        if !whole_digits {
            return None;
        }
        return match whole {
            None => None,
            Some(w) => w.checked_mul(ONE_ORE),
        };
    }
    proof {
        lemma_point_unique(s@, p as int);
    }
    let m: usize = n - p - 1;
    if m == 0 || m > 11 || !whole_digits {
        return None;
    }
    let (frac_digits, frac) = scan_digits(s, p + 1, n);
    proof {
        assert(s@.subrange(p + 1, n as int) =~= s@.skip(p + 1));
    }
    if !frac_digits {
        return None;
    }
    proof {
        assert(point_at(s@, p as int));
        let c = choose|q: int| point_at(s@, q);
        assert(c == p);
    }
    match (whole, frac) {
        (Some(w), Some(f)) => {
            let scale = pow10_exec((11 - m) as u32);
            proof {
                assert(w as int * ONE_ORE as int <= u64::MAX as int * ONE_ORE as int) by (
                nonlinear_arith)
                    requires
                        w <= u64::MAX,
                ;
                assert(f as int * scale as int <= u64::MAX as int * ONE_ORE as int) by (
                nonlinear_arith)
                    requires
                        f <= u64::MAX,
                        scale <= ONE_ORE,
                ;
            }
            let total: u128 = w as u128 * ONE_ORE as u128 + f as u128 * scale as u128;
            if total > u64::MAX as u128 {
                None
            } else {
                Some(total as u64)
            }
        },
        (None, _) => {
            proof {
                let v = digits_value(s@.take(p as int));
                let fv = digits_value(s@.skip(p + 1));
                let sc = pow10((11 - m) as nat);
                assert(v * ONE_ORE >= v) by (nonlinear_arith);
                assert(fv * sc >= 0) by (nonlinear_arith);
            }
            None
        },
        (Some(w), None) => {
            proof {
                let v = digits_value(s@.take(p as int));
                let fv = digits_value(s@.skip(p + 1));
                let sc = pow10((11 - m) as nat);
                lemma_pow10_pos(sc);
                lemma_pow10_pos((11 - m) as nat);
                assert(fv * sc >= fv) by (nonlinear_arith)
                    requires
                        sc >= 1,
                ;
                assert(v * ONE_ORE >= 0) by (nonlinear_arith);
            }
            None
        },
    }
}

/// Reading back the text of an amount gives the amount.
pub proof fn lemma_amount_round_trip(a: u64)
    ensures
        parse_amount(amount_text(a)) == Some(a as nat),
        parse_amount_u64(amount_text(a)) == Some(a),
{
    let whole = (a / ONE_ORE) as nat;
    let frac = (a % ONE_ORE) as nat;
    let d = decimal(whole);
    lemma_decimal(whole);
    lemma_pow10_11();
    assert(a == whole * ONE_ORE + frac);
    if frac == 0 {
        assert(amount_text(a) == d);
    } else {
        let pf = padded(frac, 11);
        lemma_padded(frac, 11);
        lemma_trim(pf);
        let t = trim_zeros(pf);
        let k = (11 - t.len()) as nat;
        assert(digits_value(pf) == frac);
        lemma_pow10_pos(k);
        if t.len() == 0 {
            assert(digits_value(t) == 0);
            assert(0 * pow10(k) == 0);
        }
        let s = d + seq!['.'] + t;
        assert(amount_text(a) == s);
        let p = d.len() as int;
        assert(s.take(p) =~= d);
        assert(s.skip(p + 1) =~= t);
        assert(s[p] == '.');
        assert(point_at(s, p));
        assert(!all_digits(s)) by {
            assert(digit_of(s[p]) < 0);
        }
        assert forall|q: int| point_at(s, q) implies q == p by {
            if q < p {
                assert(s.skip(q + 1)[p - q - 1] == s[p]);
            } else if q > p {
                assert(s.take(q)[p] == s[p]);
            }
        }
        let c = choose|q: int| point_at(s, q);
        assert(c == p);
    }
}

/// The character of digit `d`.
fn digit(d: u64) -> (r: char)
    requires
        d < 10,
    ensures
        r == digit_char(d as int),
{
    if d == 0 {
        '0'
    } else if d == 1 {
        '1'
    } else if d == 2 {
        '2'
    } else if d == 3 {
        '3'
    } else if d == 4 {
        '4'
    } else if d == 5 {
        '5'
    } else if d == 6 {
        '6'
    } else if d == 7 {
        '7'
    } else if d == 8 {
        '8'
    } else {
        '9'
    }
}

/// The digit a character stands for.
fn digit_value(c: char) -> (r: Option<u64>)
    ensures
        digit_of(c) >= 0 ==> r == Some(digit_of(c) as u64),
        digit_of(c) < 0 ==> r is None,
{
    if c == '0' {
        Some(0)
    } else if c == '1' {
        Some(1)
    } else if c == '2' {
        Some(2)
    } else if c == '3' {
        Some(3)
    } else if c == '4' {
        Some(4)
    } else if c == '5' {
        Some(5)
    } else if c == '6' {
        Some(6)
    } else if c == '7' {
        Some(7)
    } else if c == '8' {
        Some(8)
    } else if c == '9' {
        Some(9)
    } else {
        None
    }
}

/// Appends the decimal digits of `n`.
pub fn push_decimal(out: &mut Vec<char>, n: u64)
    ensures
        final(out)@ == old(out)@ + decimal(n as nat),
    decreases n,
{
    if n >= 10 {
        push_decimal(out, n / 10);
    }
    out.push(digit(n % 10));
    proof {
        if n >= 10 {
            assert(final(out)@ =~= old(out)@ + decimal(n as nat));
        } else {
            assert(final(out)@ =~= old(out)@ + decimal(n as nat));
        }
    }
}

/// Appends the last `w` digits of `n`, with leading zeros.
fn push_padded(out: &mut Vec<char>, n: u64, w: u32)
    ensures
        final(out)@ == old(out)@ + padded(n as nat, w as nat),
    decreases w,
{
    if w > 0 {
        push_padded(out, n / 10, w - 1);
        out.push(digit(n % 10));
        assert(final(out)@ =~= old(out)@ + padded(n as nat, w as nat));
    } else {
        assert(final(out)@ =~= old(out)@ + padded(n as nat, w as nat));
    }
}

/// Relies on String's `FromIterator<char>`: the characters in order.
#[verifier::external_body]
pub(crate) fn string_of(chars: Vec<char>) -> (r: String)
    ensures
        r@ == chars@,
{
    String::from_iter(chars)
}

/// An amount in units as a decimal number of tokens (`150000000000` is
/// `1.5`).
pub fn amount_u64_to_string(amount: u64) -> (r: String)
    ensures
        r@ == amount_text(amount),
{
    let mut out: Vec<char> = Vec::new();
    let whole = amount / ONE_ORE;
    let frac = amount % ONE_ORE;
    push_decimal(&mut out, whole);
    if frac != 0 {
        out.push('.');
        let mut f: Vec<char> = Vec::new();
        push_padded(&mut f, frac, TOKEN_DECIMALS);
        assert(f@ == padded(frac as nat, 11));
        while f.len() > 0 && f[f.len() - 1] == '0'
            invariant
                trim_zeros(f@) == trim_zeros(padded(frac as nat, 11)),
            decreases f@.len(),
        {
            f.pop();
        }
        let mut i: usize = 0;
        let ghost base = out@;
        while i < f.len()
            invariant
                i <= f@.len(),
                out@ == base + f@.take(i as int),
            decreases f@.len() - i,
        {
            out.push(f[i]);
            i = i + 1;
            assert(out@ =~= base + f@.take(i as int));
        }
        assert(f@.take(f@.len() as int) =~= f@);
        assert(out@ =~= amount_text(amount));
    } else {
        assert(out@ =~= amount_text(amount));
    }
    string_of(out)
}

} // verus!
