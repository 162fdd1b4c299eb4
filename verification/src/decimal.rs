use vstd::prelude::*;
use crate::strutil::{is_digit, digit_check, chars_of};
use vstd::arithmetic::power::{pow, lemma_pow_adds, lemma_pow_positive};
use vstd::arithmetic::mul::{
    lemma_mul_strict_inequality, lemma_mul_strict_inequality_converse, lemma_mul_equality_converse,
    lemma_mul_is_distributive_add_other_way, lemma_mul_is_associative, lemma_mul_is_commutative,
    lemma_mul_inequality, lemma_mul_strictly_positive, lemma_mul_nonnegative,
    lemma_mul_unary_negation,
};

verus! {

// ---------------------------------------------------------------------------
// Values of digit strings
// ---------------------------------------------------------------------------
/// Numeric value of one decimal digit; other characters count as zero.
pub open spec fn digit_val(c: char) -> nat {
    if is_digit(c) {
        (c as u32 - 48) as nat
    } else {
        0
    }
}

/// Value of a string of decimal digits, most significant first.
pub open spec fn digs_val(s: Seq<char>) -> nat
    decreases s.len(),
{
    if s.len() == 0 {
        0
    } else {
        digs_val(s.drop_last()) * 10 + digit_val(s.last())
    }
}

pub open spec fn all_digits(s: Seq<char>) -> bool {
    forall|i: int| 0 <= i < s.len() ==> is_digit(s[i])
}

pub open spec fn all_zeros(s: Seq<char>) -> bool {
    forall|i: int| 0 <= i < s.len() ==> s[i] == '0'
}

/// A digit string is worth less than the power of ten of its width.
pub proof fn lemma_digs_val_bound(s: Seq<char>)
    ensures
        digs_val(s) < pow(10, s.len()),
    decreases s.len(),
{
    if s.len() == 0 {
        vstd::arithmetic::power::lemma_pow0(10);
    } else {
        lemma_digs_val_bound(s.drop_last());
        lemma_pow_adds(10, (s.len() - 1) as nat, 1);
        vstd::arithmetic::power::lemma_pow1(10);
        assert(digs_val(s.drop_last()) * 10 + digit_val(s.last()) < pow(10, (s.len() - 1) as nat)
            * 10) by {
            lemma_mul_strict_inequality(
                digs_val(s.drop_last()) as int,
                pow(10, (s.len() - 1) as nat),
                10,
            );
        }
    }
}

proof fn lemma_char_is_zero(c: char)
    requires
        c as u32 == 48,
    ensures
        c == '0',
{
}

/// A digit string is worth zero exactly when it is all zeros.
pub proof fn lemma_digs_val_zero(s: Seq<char>)
    requires
        all_digits(s),
    ensures
        (digs_val(s) == 0) <==> all_zeros(s),
    decreases s.len(),
{
    if s.len() > 0 {
        assert(all_digits(s.drop_last())) by {
            assert(forall|i: int| 0 <= i < s.len() - 1 ==> s.drop_last()[i] == s[i]);
        }
        lemma_digs_val_zero(s.drop_last());
        if all_zeros(s) {
            assert(all_zeros(s.drop_last()));
            assert(s.last() == s[s.len() - 1]);
            assert(digit_val(s.last()) == 0);
        }
        if digs_val(s) == 0 {
            assert(digs_val(s.drop_last()) * 10 >= 0);
            assert(digs_val(s.drop_last()) == 0);
            assert(digit_val(s.last()) == 0);
            assert forall|i: int| 0 <= i < s.len() implies s[i] == '0' by {
                if i < s.len() - 1 {
                    assert(s.drop_last()[i] == '0');
                } else {
                    assert(is_digit(s[i]));
                    assert(digit_val(s[i]) == 0);
                    assert(s[i] as u32 == 48);
                    lemma_char_is_zero(s[i]);
                }
            }
        }
    }
}

/// Concatenation shifts the left part by the width of the right part.
pub proof fn lemma_digs_val_append(s: Seq<char>, t: Seq<char>)
    ensures
        digs_val(s + t) == digs_val(s) * pow(10, t.len()) + digs_val(t),
    decreases t.len(),
{
    if t.len() == 0 {
        assert(s + t =~= s);
        vstd::arithmetic::power::lemma_pow0(10);
    } else {
        assert((s + t).drop_last() =~= s + t.drop_last());
        assert((s + t).last() == t.last());
        lemma_digs_val_append(s, t.drop_last());
        lemma_pow_adds(10, (t.len() - 1) as nat, 1);
        vstd::arithmetic::power::lemma_pow1(10);
        let a = digs_val(s) as int;
        let p = pow(10, (t.len() - 1) as nat);
        let q = digs_val(t.drop_last()) as int;
        assert(digs_val(s + t) == (a * p + q) * 10 + digit_val(t.last()));
        assert((a * p + q) * 10 == a * p * 10 + q * 10) by {
            lemma_mul_is_distributive_add_other_way(10, a * p, q);
        }
        assert(a * p * 10 == a * (p * 10)) by {
            lemma_mul_is_associative(a, p, 10);
        }
        assert(digs_val(t) == q * 10 + digit_val(t.last()));
    }
}

/// Leading zeros do not change the value of a digit string.
pub proof fn lemma_digs_val_leading_zeros(z: Seq<char>, s: Seq<char>)
    requires
        all_zeros(z),
    ensures
        digs_val(z + s) == digs_val(s),
{
    lemma_digs_val_append(z, s);
    lemma_digs_val_zero(z);
    assert(digs_val(z) * pow(10, s.len()) == 0) by {
        assert(digs_val(z) == 0);
    }
}

// ---------------------------------------------------------------------------
// Canonical form of a numeric literal
// ---------------------------------------------------------------------------
/// Index of the first '.' in the string, or its length if there is none.
pub open spec fn first_dot(s: Seq<char>) -> int
    decreases s.len(),
{
    if s.len() == 0 {
        0
    } else if s[0] == '.' {
        0
    } else {
        1 + first_dot(s.drop_first())
    }
}

proof fn lemma_first_dot(s: Seq<char>)
    ensures
        0 <= first_dot(s) <= s.len(),
        forall|i: int| 0 <= i < first_dot(s) ==> s[i] != '.',
        first_dot(s) < s.len() ==> s[first_dot(s)] == '.',
    decreases s.len(),
{
    if s.len() > 0 && s[0] != '.' {
        lemma_first_dot(s.drop_first());
        assert(forall|i: int| 0 <= i < first_dot(s.drop_first()) ==> s.drop_first()[i] != '.');
        assert forall|i: int| 0 <= i < first_dot(s) implies s[i] != '.' by {
            if i > 0 {
                assert(s.drop_first()[i - 1] != '.');
            }
        }
    }
}

/// Strips leading zeros but keeps at least one character.
pub open spec fn strip_leading_zeros(s: Seq<char>) -> Seq<char>
    decreases s.len(),
{
    if s.len() > 1 && s[0] == '0' {
        strip_leading_zeros(s.drop_first())
    } else {
        s
    }
}

/// Strips trailing zeros, possibly leaving the string empty.
pub open spec fn strip_trailing_zeros(s: Seq<char>) -> Seq<char>
    decreases s.len(),
{
    if s.len() > 0 && s.last() == '0' {
        strip_trailing_zeros(s.drop_last())
    } else {
        s
    }
}

/// Canonical decimal form of a numeric literal `digits [ '.' digits ]`:
/// leading zeros of the integer part and trailing zeros of the fractional
/// part are dropped, and a fractional part left empty is dropped with its
/// dot, so that `007.50` reads `7.5` and `1.0` reads `1`.
pub open spec fn canon_dec(s: Seq<char>) -> Seq<char> {
    let k = first_dot(s);
    let ip = strip_leading_zeros(s.subrange(0, k));
    let fp = if k < s.len() {
        strip_trailing_zeros(s.subrange(k + 1, s.len() as int))
    } else {
        Seq::empty()
    };
    if fp.len() == 0 {
        ip
    } else {
        ip + "."@ + fp
    }
}

/// Rewrites a numeric literal in its canonical decimal form.
pub fn canon_decimal(s: &str) -> (r: String)
    ensures
        r@ == canon_dec(s@),
{
    let v = chars_of(s);
    let n = v.len();
    proof {
        lemma_first_dot(s@);
    }
    // Find the first dot.
    let mut k: usize = 0;
    while k < n && v[k] != '.'
        invariant
            n == v@.len(),
            v@ == s@,
            k <= n,
            forall|i: int| 0 <= i < k ==> v@[i] != '.',
        decreases n - k,
    {
        k = k + 1;
    }
    proof {
        assert(k as int == first_dot(s@)) by {
            lemma_first_dot_at(s@, k as int);
        }
    }
    // Strip leading zeros of the integer part.
    let mut a: usize = 0;
    while k - a > 1 && v[a] == '0'
        invariant
            n == v@.len(),
            v@ == s@,
            k <= n,
            a <= k,
            strip_leading_zeros(s@.subrange(0, k as int)) == strip_leading_zeros(
                s@.subrange(a as int, k as int),
            ),
        decreases k - a,
    {
        proof {
            let cur = s@.subrange(a as int, k as int);
            assert(cur.len() > 1 && cur[0] == '0');
            assert(cur.drop_first() =~= s@.subrange(a as int + 1, k as int));
        }
        a = a + 1;
    }
    proof {
        let cur = s@.subrange(a as int, k as int);
        assert(strip_leading_zeros(cur) == cur) by {
            if cur.len() > 1 && cur[0] == '0' {
                assert(false);
            }
        }
    }
    let mut r = s.substring_char(a, k).to_owned();
    // The fractional part, with trailing zeros stripped.
    if k < n {
        let mut e: usize = n;
        while e > k + 1 && v[e - 1] == '0'
            invariant
                n == v@.len(),
                v@ == s@,
                k < n,
                k + 1 <= e <= n,
                strip_trailing_zeros(s@.subrange(k as int + 1, n as int))
                    == strip_trailing_zeros(s@.subrange(k as int + 1, e as int)),
            decreases e,
        {
            proof {
                let cur = s@.subrange(k as int + 1, e as int);
                assert(cur.len() > 0 && cur.last() == '0');
                assert(cur.drop_last() =~= s@.subrange(k as int + 1, e as int - 1));
            }
            e = e - 1;
        }
        proof {
            let cur = s@.subrange(k as int + 1, e as int);
            assert(strip_trailing_zeros(cur) == cur) by {
                if cur.len() > 0 && cur.last() == '0' {
                    assert(false);
                }
            }
        }
        if e > k + 1 {
            r.append(".");
            let fp = s.substring_char(k + 1, e);
            r.append(fp);
            proof {
                assert(r@ =~= canon_dec(s@));
            }
            return r;
        }
        proof {
            assert(s@.subrange(k as int + 1, e as int).len() == 0);
        }
    }
    proof {
        assert(r@ =~= canon_dec(s@));
    }
    r
}

proof fn lemma_first_dot_at(s: Seq<char>, k: int)
    requires
        0 <= k <= s.len(),
        forall|i: int| 0 <= i < k ==> s[i] != '.',
        k < s.len() ==> s[k] == '.',
    ensures
        first_dot(s) == k,
    decreases s.len(),
{
    if s.len() > 0 && s[0] != '.' {
        assert(k >= 1);
        lemma_first_dot_at(s.drop_first(), k - 1);
    }
}

// ---------------------------------------------------------------------------
// Decimal form of an unsigned integer
// ---------------------------------------------------------------------------
/// The decimal digit character for a value below ten.
pub open spec fn digit_char(d: nat) -> char {
    if d == 0 {
        '0'
    } else if d == 1 {
        '1'
    } else if d == 2 {
        '2'
    } else if d == 3 {
        '3'
    } else if d == 4 {
        '4'
    } else if d == 5 {
        '5'
    } else if d == 6 {
        '6'
    } else if d == 7 {
        '7'
    } else if d == 8 {
        '8'
    } else {
        '9'
    }
}

/// Decimal representation of a natural number, without leading zeros.
pub open spec fn dec_str(n: nat) -> Seq<char>
    decreases n,
{
    if n < 10 {
        seq![digit_char(n)]
    } else {
        dec_str(n / 10).push(digit_char(n % 10))
    }
}

fn push_digit(s: &mut String, d: u32)
    requires
        d < 10,
    ensures
        final(s)@ == old(s)@.push(digit_char(d as nat)),
{
    if d == 0 {
        s.append("0");
        proof {
            reveal_strlit("0");
            assert(s@ =~= old(s)@.push('0'));
        }
    } else if d == 1 {
        s.append("1");
        proof {
            reveal_strlit("1");
            assert(s@ =~= old(s)@.push('1'));
        }
    } else if d == 2 {
        s.append("2");
        proof {
            reveal_strlit("2");
            assert(s@ =~= old(s)@.push('2'));
        }
    } else if d == 3 {
        s.append("3");
        proof {
            reveal_strlit("3");
            assert(s@ =~= old(s)@.push('3'));
        }
    } else if d == 4 {
        s.append("4");
        proof {
            reveal_strlit("4");
            assert(s@ =~= old(s)@.push('4'));
        }
    } else if d == 5 {
        s.append("5");
        proof {
            reveal_strlit("5");
            assert(s@ =~= old(s)@.push('5'));
        }
    } else if d == 6 {
        s.append("6");
        proof {
            reveal_strlit("6");
            assert(s@ =~= old(s)@.push('6'));
        }
    } else if d == 7 {
        s.append("7");
        proof {
            reveal_strlit("7");
            assert(s@ =~= old(s)@.push('7'));
        }
    } else if d == 8 {
        s.append("8");
        proof {
            reveal_strlit("8");
            assert(s@ =~= old(s)@.push('8'));
        }
    } else {
        s.append("9");
        proof {
            reveal_strlit("9");
            assert(s@ =~= old(s)@.push('9'));
        }
    }
}

fn u32_digits(n: u32, s: &mut String)
    ensures
        final(s)@ == old(s)@ + dec_str(n as nat),
    decreases n,
{
    if n < 10 {
        push_digit(s, n);
        proof {
            assert(old(s)@ + dec_str(n as nat) =~= old(s)@.push(digit_char(n as nat)));
        }
    } else {
        u32_digits(n / 10, s);
        push_digit(s, n % 10);
        proof {
            assert(old(s)@ + dec_str(n as nat) =~= (old(s)@ + dec_str((n / 10) as nat)).push(
                digit_char((n % 10) as nat),
            ));
        }
    }
}

/// The decimal string of an unsigned integer, as step ids and status codes
/// are rendered.
pub fn u32_to_string(n: u32) -> (r: String)
    ensures
        r@ == dec_str(n as nat),
{
    let mut r = String::new();
    u32_digits(n, &mut r);
    proof {
        assert(Seq::<char>::empty() + dec_str(n as nat) =~= dec_str(n as nat));
    }
    r
}

/// Rendering "true" or "false", as the success flag is read back.
pub fn bool_to_string(b: bool) -> (r: String)
    ensures
        b ==> r@ == "true"@,
        !b ==> r@ == "false"@,
{
    if b {
        "true".to_owned()
    } else {
        "false".to_owned()
    }
}

// ---------------------------------------------------------------------------
// Parsing a string as a signed decimal number
// ---------------------------------------------------------------------------
/// First index at or after `i` holding a non-digit, or the length.
pub open spec fn digits_end(s: Seq<char>, i: int) -> int
    decreases s.len() - i,
{
    if i < s.len() && is_digit(s[i]) {
        digits_end(s, i + 1)
    } else {
        i
    }
}

pub proof fn lemma_digits_end(s: Seq<char>, i: int)
    requires
        i <= s.len(),
    ensures
        i <= digits_end(s, i) <= s.len(),
        forall|j: int| i <= j < digits_end(s, i) ==> is_digit(s[j]),
        digits_end(s, i) < s.len() ==> !is_digit(s[digits_end(s, i)]),
    decreases s.len() - i,
{
    if i < s.len() && is_digit(s[i]) {
        lemma_digits_end(s, i + 1);
    }
}

pub proof fn lemma_digits_end_at(s: Seq<char>, i: int, k: int)
    requires
        0 <= i <= k <= s.len(),
        forall|j: int| i <= j < k ==> is_digit(s[j]),
        k < s.len() ==> !is_digit(s[k]),
    ensures
        digits_end(s, i) == k,
    decreases s.len() - i,
{
    if i < s.len() && is_digit(s[i]) {
        lemma_digits_end_at(s, i + 1, k);
    }
}

/// How a character string reads as a signed decimal number: an optional
/// sign, then digits with at most one point, with at least one digit.
/// Strings of any other shape do not read as a number at all.
pub open spec fn sp_parse_dec(s: Seq<char>) -> Option<(bool, Seq<char>, Seq<char>)> {
    let neg = s.len() > 0 && s[0] == '-';
    let i0: int = if s.len() > 0 && (s[0] == '-' || s[0] == '+') {
        1
    } else {
        0
    };
    let k = digits_end(s, i0);
    let ints = s.subrange(i0, k);
    if k == s.len() {
        if ints.len() > 0 {
            Option::Some((neg, ints, Seq::empty()))
        } else {
            Option::None
        }
    } else if s[k] == '.' {
        let e = digits_end(s, k + 1);
        if e == s.len() && (ints.len() > 0 || e > k + 1) {
            Option::Some((neg, ints, s.subrange(k + 1, e)))
        } else {
            Option::None
        }
    } else {
        Option::None
    }
}

/// The magnitude digits and the sign of a string read as a decimal number.
/// A string that does not read as a number counts as zero; that covers any
/// form outside plain sign-and-digits notation, exponent notation included.
pub open spec fn num_of(s: Seq<char>) -> int {
    match sp_parse_dec(s) {
        Option::Some(t) => if t.0 {
            -(digs_val(t.1 + t.2) as int)
        } else {
            digs_val(t.1 + t.2) as int
        },
        Option::None => 0,
    }
}

/// The number of fractional digits a string carries when read as a decimal
/// number.
pub open spec fn scale_of(s: Seq<char>) -> nat {
    match sp_parse_dec(s) {
        Option::Some(t) => t.2.len(),
        Option::None => 0,
    }
}

/// Numeric order of two strings read as decimal numbers: the values
/// `num_of / 10^scale_of` are compared exactly, by cross-multiplication.
pub open spec fn dec_lt(a: Seq<char>, b: Seq<char>) -> bool {
    num_of(a) * pow(10, scale_of(b)) < num_of(b) * pow(10, scale_of(a))
}

/// Numeric equality of two strings read as decimal numbers.
pub open spec fn dec_num_eq(a: Seq<char>, b: Seq<char>) -> bool {
    num_of(a) * pow(10, scale_of(b)) == num_of(b) * pow(10, scale_of(a))
}

/// The sign and digit strings of a decimal number, as parsed from text.
pub struct DecParts {
    pub neg: bool,
    pub int_digits: Vec<char>,
    pub frac_digits: Vec<char>,
}

/// Reads a string as a signed decimal number, mirroring `sp_parse_dec`.
pub fn parse_dec(s: &str) -> (r: Option<DecParts>)
    ensures
        match (r, sp_parse_dec(s@)) {
            (Option::Some(p), Option::Some(m)) => p.neg == m.0 && p.int_digits@ == m.1
                && p.frac_digits@ == m.2 && all_digits(p.int_digits@) && all_digits(
                p.frac_digits@,
            ),
            (Option::None, Option::None) => true,
            _ => false,
        },
{
    let v = chars_of(s);
    let n = v.len();
    let neg = n > 0 && v[0] == '-';
    let i0: usize = if n > 0 && (v[0] == '-' || v[0] == '+') {
        1
    } else {
        0
    };
    let mut k: usize = i0;
    while k < n && digit_check(v[k])
        invariant
            n == v@.len(),
            v@ == s@,
            i0 <= k <= n,
            forall|j: int| i0 <= j < k ==> is_digit(v@[j]),
        decreases n - k,
    {
        k = k + 1;
    }
    proof {
        lemma_digits_end_at(s@, i0 as int, k as int);
    }
    let mut ints: Vec<char> = Vec::new();
    let mut i: usize = i0;
    while i < k
        invariant
            n == v@.len(),
            v@ == s@,
            i0 <= i <= k <= n,
            ints@ == s@.subrange(i0 as int, i as int),
        decreases k - i,
    {
        ints.push(v[i]);
        i = i + 1;
        proof {
            assert(ints@ =~= s@.subrange(i0 as int, i as int));
        }
    }
    if k == n {
        if ints.len() > 0 {
            Option::Some(DecParts { neg, int_digits: ints, frac_digits: Vec::new() })
        } else {
            Option::None
        }
    } else if v[k] == '.' {
        let mut e: usize = k + 1;
        while e < n && digit_check(v[e])
            invariant
                n == v@.len(),
                v@ == s@,
                k + 1 <= e <= n,
                forall|j: int| k + 1 <= j < e ==> is_digit(v@[j]),
            decreases n - e,
        {
            e = e + 1;
        }
        proof {
            lemma_digits_end_at(s@, k as int + 1, e as int);
        }
        if e == n && (ints.len() > 0 || e > k + 1) {
            let mut fracs: Vec<char> = Vec::new();
            let mut i2: usize = k + 1;
            while i2 < e
                invariant
                    n == v@.len(),
                    v@ == s@,
                    k + 1 <= i2 <= e <= n,
                    fracs@ == s@.subrange(k as int + 1, i2 as int),
                decreases e - i2,
            {
                fracs.push(v[i2]);
                i2 = i2 + 1;
                proof {
                    assert(fracs@ =~= s@.subrange(k as int + 1, i2 as int));
                }
            }
            Option::Some(DecParts { neg, int_digits: ints, frac_digits: fracs })
        } else {
            Option::None
        }
    } else {
        Option::None
    }
}

// ---------------------------------------------------------------------------
// Exact comparison of decimal numbers
// ---------------------------------------------------------------------------
/// The order of one decimal string against another.
#[derive(Clone, Copy, Debug, PartialEq, Eq, Structural)]
pub enum DecOrder {
    Less,
    Equal,
    Greater,
}

proof fn lemma_digit_prefix_lt(x: Seq<char>, y: Seq<char>, k: int)
    requires
        x.len() == y.len(),
        0 <= k < x.len(),
        forall|j: int| 0 <= j < k ==> x[j] == y[j],
        digit_val(x[k]) < digit_val(y[k]),
    ensures
        digs_val(x) < digs_val(y),
{
    let len = x.len() as int;
    let m = (len - k - 1) as nat;
    let xp = x.subrange(0, k);
    let yp = y.subrange(0, k);
    let xs = x.subrange(k, len);
    let ys = y.subrange(k, len);
    assert(xp =~= yp);
    assert(x =~= xp + xs);
    assert(y =~= yp + ys);
    lemma_digs_val_append(xp, xs);
    lemma_digs_val_append(yp, ys);
    // Split off the head digit of each suffix.
    let xt = x.subrange(k + 1, len);
    let yt = y.subrange(k + 1, len);
    assert(xs =~= seq![x[k]] + xt);
    assert(ys =~= seq![y[k]] + yt);
    lemma_digs_val_append(seq![x[k]], xt);
    lemma_digs_val_append(seq![y[k]], yt);
    assert(digs_val(seq![x[k]]) == digit_val(x[k])) by {
        assert(seq![x[k]].drop_last() =~= Seq::<char>::empty());
        assert(digs_val(Seq::<char>::empty()) == 0);
        assert(seq![x[k]].last() == x[k]);
    }
    assert(digs_val(seq![y[k]]) == digit_val(y[k])) by {
        assert(seq![y[k]].drop_last() =~= Seq::<char>::empty());
        assert(digs_val(Seq::<char>::empty()) == 0);
        assert(seq![y[k]].last() == y[k]);
    }
    lemma_digs_val_bound(xt);
    let p = pow(10, m);
    lemma_pow_positive(10, m);
    let dx = digit_val(x[k]) as int;
    let dy = digit_val(y[k]) as int;
    assert(xt.len() == m);
    assert(yt.len() == m);
    assert(digs_val(xs) == dx * p + digs_val(xt));
    assert(digs_val(ys) == dy * p + digs_val(yt));
    assert(dx * p + p == (dx + 1) * p) by {
        lemma_mul_is_distributive_add_other_way(p, dx, 1);
    }
    assert((dx + 1) * p <= dy * p) by {
        lemma_mul_inequality(dx + 1, dy, p);
    }
    assert(digs_val(ys) >= dy * p);
    assert(digs_val(xs) < digs_val(ys));
    assert(digs_val(xp) * pow(10, xs.len()) == digs_val(yp) * pow(10, ys.len()));
}

fn push_all(dst: &mut Vec<char>, src: &Vec<char>)
    ensures
        final(dst)@ == old(dst)@ + src@,
{
    let mut i: usize = 0;
    while i < src.len()
        invariant
            i <= src@.len(),
            dst@ == old(dst)@ + src@.subrange(0, i as int),
        decreases src@.len() - i,
    {
        dst.push(src[i]);
        i = i + 1;
        proof {
            assert(dst@ =~= old(dst)@ + src@.subrange(0, i as int));
        }
    }
    proof {
        assert(old(dst)@ + src@.subrange(0, src@.len() as int) =~= old(dst)@ + src@);
    }
}

fn push_zeros(dst: &mut Vec<char>, count: usize)
    ensures
        final(dst)@ == old(dst)@ + Seq::new(count as nat, |i: int| '0'),
{
    let mut i: usize = 0;
    while i < count
        invariant
            i <= count,
            dst@ == old(dst)@ + Seq::new(i as nat, |j: int| '0'),
        decreases count - i,
    {
        dst.push('0');
        i = i + 1;
        proof {
            assert(dst@ =~= old(dst)@ + Seq::new(i as nat, |j: int| '0'));
        }
    }
}

/// Compares two all-digit strings by value, padding the shorter with
/// leading zeros and then comparing digit by digit.
fn cmp_digits(x: &Vec<char>, y: &Vec<char>) -> (r: DecOrder)
    requires
        all_digits(x@),
        all_digits(y@),
    ensures
        (r == DecOrder::Less <==> digs_val(x@) < digs_val(y@)),
        (r == DecOrder::Equal <==> digs_val(x@) == digs_val(y@)),
        (r == DecOrder::Greater <==> digs_val(x@) > digs_val(y@)),
{
    let n = if x.len() > y.len() {
        x.len()
    } else {
        y.len()
    };
    let mut px: Vec<char> = Vec::new();
    push_zeros(&mut px, n - x.len());
    push_all(&mut px, x);
    let mut py: Vec<char> = Vec::new();
    push_zeros(&mut py, n - y.len());
    push_all(&mut py, y);
    proof {
        lemma_digs_val_leading_zeros(Seq::new((n - x.len()) as nat, |i: int| '0'), x@);
        lemma_digs_val_leading_zeros(Seq::new((n - y.len()) as nat, |i: int| '0'), y@);
        assert(digs_val(px@) == digs_val(x@));
        assert(digs_val(py@) == digs_val(y@));
        assert(all_digits(px@));
        assert(all_digits(py@));
    }
    let mut i: usize = 0;
    while i < n
        invariant
            n == px@.len(),
            n == py@.len(),
            i <= n,
            all_digits(px@),
            all_digits(py@),
            digs_val(px@) == digs_val(x@),
            digs_val(py@) == digs_val(y@),
            forall|j: int| 0 <= j < i ==> px@[j] == py@[j],
        decreases n - i,
    {
        let cx = px[i] as u32;
        let cy = py[i] as u32;
        if cx < cy {
            proof {
                lemma_digit_prefix_lt(px@, py@, i as int);
            }
            return DecOrder::Less;
        }
        if cx > cy {
            proof {
                lemma_digit_prefix_lt(py@, px@, i as int);
            }
            return DecOrder::Greater;
        }
        proof {
            lemma_char_eq_by_u32(px@[i as int], py@[i as int]);
        }
        i = i + 1;
    }
    proof {
        assert(px@ =~= py@);
    }
    DecOrder::Equal
}

proof fn lemma_char_eq_by_u32(a: char, b: char)
    requires
        a as u32 == b as u32,
    ensures
        a == b,
{
}

/// Cross-multiplied comparison is unchanged by scaling both magnitudes to a
/// common number of fractional digits.
proof fn lemma_scale_cmp(m1: int, m2: int, s1: nat, s2: nat)
    requires
        m1 >= 0,
        m2 >= 0,
    ensures
        ({
            let l = if s1 > s2 {
                s1
            } else {
                s2
            };
            ((m1 * pow(10, (l - s1) as nat) < m2 * pow(10, (l - s2) as nat)) <==> (m1 * pow(
                10,
                s2,
            ) < m2 * pow(10, s1))) && ((m1 * pow(10, (l - s1) as nat) == m2 * pow(
                10,
                (l - s2) as nat,
            )) <==> (m1 * pow(10, s2) == m2 * pow(10, s1)))
        }),
{
    let l = if s1 > s2 {
        s1
    } else {
        s2
    };
    let c = pow(10, (s1 + s2 - l) as nat);
    lemma_pow_positive(10, (s1 + s2 - l) as nat);
    let z1 = m1 * pow(10, (l - s1) as nat);
    let z2 = m2 * pow(10, (l - s2) as nat);
    assert(z1 * c == m1 * pow(10, s2)) by {
        lemma_mul_is_associative(m1, pow(10, (l - s1) as nat), c);
        lemma_pow_adds(10, (l - s1) as nat, (s1 + s2 - l) as nat);
        assert(((l - s1) as nat + (s1 + s2 - l) as nat) == s2);
    }
    assert(z2 * c == m2 * pow(10, s1)) by {
        lemma_mul_is_associative(m2, pow(10, (l - s2) as nat), c);
        lemma_pow_adds(10, (l - s2) as nat, (s1 + s2 - l) as nat);
        assert(((l - s2) as nat + (s1 + s2 - l) as nat) == s1);
    }
    if z1 < z2 {
        lemma_mul_strict_inequality(z1, z2, c);
    }
    if z1 * c < z2 * c {
        lemma_mul_strict_inequality_converse(z1, z2, c);
    }
    if z1 * c == z2 * c {
        lemma_mul_equality_converse(c, z1, z2);
        assert(c * z1 == z1 * c) by {
            lemma_mul_is_commutative(c, z1);
        }
        assert(c * z2 == z2 * c) by {
            lemma_mul_is_commutative(c, z2);
        }
    }
}

/// A product with a positive factor is zero exactly when the magnitude is.
proof fn lemma_mag_zero(m: int, p: int)
    requires
        m >= 0,
        p > 0,
    ensures
        (m * p == 0) <==> (m == 0),
{
    if m > 0 {
        lemma_mul_strictly_positive(m, p);
    }
}

/// Tests whether a digit string is all zeros.
fn digits_all_zero(v: &Vec<char>) -> (r: bool)
    ensures
        r == all_zeros(v@),
{
    let mut i: usize = 0;
    while i < v.len()
        invariant
            i <= v@.len(),
            forall|j: int| 0 <= j < i ==> v@[j] == '0',
        decreases v@.len() - i,
    {
        if v[i] != '0' {
            proof {
                assert(v@[i as int] != '0');
            }
            return false;
        }
        i = i + 1;
    }
    true
}

/// A strictly smaller sign makes the cross products strictly ordered.
proof fn lemma_sign_lt(x: int, y: int, px: int, py: int)
    requires
        px > 0,
        py > 0,
        (x < 0 && y >= 0) || (x == 0 && y > 0),
    ensures
        x * py < y * px,
{
    if x < 0 {
        lemma_mul_strict_inequality(x, 0, py);
        assert(x * py < 0);
    } else {
        assert(x * py == 0);
    }
    if y > 0 {
        lemma_mul_strictly_positive(y, px);
    } else {
        assert(y >= 0);
        lemma_mul_nonnegative(y, px);
    }
}

/// Negating both magnitudes flips the cross-multiplied order.
proof fn lemma_neg_flip(m1: int, m2: int, p1: int, p2: int)
    ensures
        ((-m1) * p2 < (-m2) * p1) <==> (m2 * p1 < m1 * p2),
        ((-m1) * p2 == (-m2) * p1) <==> (m2 * p1 == m1 * p2),
{
    lemma_mul_unary_negation(m1, p2);
    lemma_mul_unary_negation(m2, p1);
}

/// Compares two strings as decimal numbers, exactly; a string that does not
/// read as a number counts as zero.
pub fn dec_cmp(a: &str, b: &str) -> (r: DecOrder)
    ensures
        (r == DecOrder::Less <==> dec_lt(a@, b@)),
        (r == DecOrder::Greater <==> dec_lt(b@, a@)),
        (r == DecOrder::Equal <==> dec_num_eq(a@, b@)),
{
    let pa = parse_dec(a);
    let pb = parse_dec(b);
    let (na, ia, fa) = match pa {
        Option::Some(p) => (p.neg, p.int_digits, p.frac_digits),
        Option::None => (false, Vec::new(), Vec::new()),
    };
    let (nb, ib, fb) = match pb {
        Option::Some(p) => (p.neg, p.int_digits, p.frac_digits),
        Option::None => (false, Vec::new(), Vec::new()),
    };
    let ghost magn_a = digs_val(ia@ + fa@) as int;
    let ghost magn_b = digs_val(ib@ + fb@) as int;
    proof {
        assert(ia@ + fa@ =~= match sp_parse_dec(a@) {
            Option::Some(t) => t.1 + t.2,
            Option::None => Seq::<char>::empty(),
        });
        assert(ib@ + fb@ =~= match sp_parse_dec(b@) {
            Option::Some(t) => t.1 + t.2,
            Option::None => Seq::<char>::empty(),
        });
        assert(num_of(a@) == if na { -magn_a } else { magn_a });
        assert(num_of(b@) == if nb { -magn_b } else { magn_b });
        assert(scale_of(a@) == fa@.len());
        assert(scale_of(b@) == fb@.len());
        assert(all_digits(ia@ + fa@));
        assert(all_digits(ib@ + fb@));
    }
    let sa = fa.len();
    let sb = fb.len();
    let l = if sa > sb {
        sa
    } else {
        sb
    };
    let mut ma: Vec<char> = Vec::new();
    push_all(&mut ma, &ia);
    push_all(&mut ma, &fa);
    push_zeros(&mut ma, l - sa);
    let mut mb: Vec<char> = Vec::new();
    push_all(&mut mb, &ib);
    push_all(&mut mb, &fb);
    push_zeros(&mut mb, l - sb);
    proof {
        assert(ma@ =~= (ia@ + fa@) + Seq::new((l - sa) as nat, |i: int| '0'));
        assert(mb@ =~= (ib@ + fb@) + Seq::new((l - sb) as nat, |i: int| '0'));
        lemma_digs_val_append(ia@ + fa@, Seq::new((l - sa) as nat, |i: int| '0'));
        lemma_digs_val_append(ib@ + fb@, Seq::new((l - sb) as nat, |i: int| '0'));
        assert(all_digits(Seq::new((l - sa) as nat, |i: int| '0')));
        assert(all_digits(Seq::new((l - sb) as nat, |i: int| '0')));
        lemma_digs_val_zero(Seq::new((l - sa) as nat, |i: int| '0'));
        lemma_digs_val_zero(Seq::new((l - sb) as nat, |i: int| '0'));
        assert(digs_val(ma@) == magn_a * pow(10, (l - sa) as nat));
        assert(digs_val(mb@) == magn_b * pow(10, (l - sb) as nat));
        assert(all_digits(ma@));
        assert(all_digits(mb@));
    }
    let za = digits_all_zero(&ma);
    let zb = digits_all_zero(&mb);
    proof {
        lemma_digs_val_zero(ma@);
        lemma_digs_val_zero(mb@);
        lemma_pow_positive(10, (l - sa) as nat);
        lemma_pow_positive(10, (l - sb) as nat);
        lemma_mag_zero(magn_a, pow(10, (l - sa) as nat));
        lemma_mag_zero(magn_b, pow(10, (l - sb) as nat));
        assert(za <==> magn_a == 0);
        assert(zb <==> magn_b == 0);
    }
    let sga: i32 = if za {
        0
    } else if na {
        -1
    } else {
        1
    };
    let sgb: i32 = if zb {
        0
    } else if nb {
        -1
    } else {
        1
    };
    let ghost pa_pow = pow(10, scale_of(a@));
    let ghost pb_pow = pow(10, scale_of(b@));
    proof {
        lemma_pow_positive(10, scale_of(a@));
        lemma_pow_positive(10, scale_of(b@));
    }
    if sga < sgb {
        proof {
            lemma_sign_lt(num_of(a@), num_of(b@), pa_pow, pb_pow);
        }
        return DecOrder::Less;
    }
    if sga > sgb {
        proof {
            lemma_sign_lt(num_of(b@), num_of(a@), pb_pow, pa_pow);
        }
        return DecOrder::Greater;
    }
    if sga == 0 {
        proof {
            assert(num_of(a@) == 0);
            assert(num_of(b@) == 0);
            assert(num_of(a@) * pb_pow == 0);
            assert(num_of(b@) * pa_pow == 0);
        }
        return DecOrder::Equal;
    }
    let mag = cmp_digits(&ma, &mb);
    proof {
        lemma_scale_cmp(magn_a, magn_b, scale_of(a@), scale_of(b@));
        lemma_scale_cmp(magn_b, magn_a, scale_of(b@), scale_of(a@));
        lemma_neg_flip(magn_a, magn_b, pa_pow, pb_pow);
        lemma_neg_flip(magn_b, magn_a, pb_pow, pa_pow);
    }
    if sga > 0 {
        mag
    } else {
        match mag {
            DecOrder::Less => DecOrder::Greater,
            DecOrder::Equal => DecOrder::Equal,
            DecOrder::Greater => DecOrder::Less,
        }
    }
}

} // verus!
