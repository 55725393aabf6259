//! Decimal text for unsigned and signed integers: a character-level
//! specification of base-10 rendering and parsing, with verified
//! executable conversions used by paths and by the binary codec.

use vstd::prelude::*;

verus! {

/// Whether `c` is an ASCII decimal digit.
pub open spec fn spec_char_is_digit(c: char) -> bool {
    48 <= c as u32 <= 57
}

/// The numeric value of an ASCII decimal digit.
pub open spec fn spec_digit_val(c: char) -> int {
    c as u32 - 48
}

/// The digit character for `d` in `0..10`.
pub open spec fn spec_digit_char(d: int) -> char {
    if d == 0 {
        '0'
    } else if d == 1 {
        '1'
    } else if d == 2 {
        '2'
    } else if d == 3 {
        '3'
    } else if d == 4 {
        '4'
    } else if d == 5 {
        '5'
    } else if d == 6 {
        '6'
    } else if d == 7 {
        '7'
    } else if d == 8 {
        '8'
    } else {
        '9'
    }
}

/// Every character of `s` is a decimal digit and there is at least one.
pub open spec fn spec_is_numeric(s: Seq<char>) -> bool {
    s.len() > 0 && (forall|i: int| 0 <= i < s.len() ==> spec_char_is_digit(#[trigger] s[i]))
}

/// The value denoted by a sequence of decimal digits (most significant
/// first); an empty sequence denotes zero.
pub open spec fn spec_digits_val(s: Seq<char>) -> int
    decreases s.len(),
{
    if s.len() == 0 {
        0
    } else {
        spec_digits_val(s.drop_last()) * 10 + spec_digit_val(s.last())
    }
}

/// The canonical decimal rendering of a non-negative integer: no leading
/// zeros, except that zero itself renders as a single `'0'`.
pub open spec fn spec_dec_digits(n: nat) -> Seq<char>
    decreases n,
{
    if n < 10 {
        seq![spec_digit_char(n as int)]
    } else {
        spec_dec_digits(n / 10).push(spec_digit_char((n % 10) as int))
    }
}

/// The canonical decimal rendering of a signed integer: a leading `'-'`
/// for negative values, then the magnitude's digits.
pub open spec fn spec_dec_signed(n: int) -> Seq<char> {
    if n >= 0 {
        spec_dec_digits(n as nat)
    } else {
        seq!['-'].add(spec_dec_digits((-n) as nat))
    }
}

/// Extending a digit string can only keep or grow the denoted value.
pub proof fn lemma_digits_val_take_monotone(s: Seq<char>, i: int, j: int)
    requires
        0 <= i <= j <= s.len(),
        forall|k: int| 0 <= k < s.len() ==> spec_char_is_digit(#[trigger] s[k]),
    ensures
        spec_digits_val(s.take(i)) <= spec_digits_val(s.take(j)),
        spec_digits_val(s.take(i)) >= 0,
    decreases j - i,
{
    if i == j {
        lemma_digits_val_nonneg(s.take(i));
    } else {
        lemma_digits_val_take_monotone(s, i, j - 1);
        let t = s.take(j);
        assert(t.drop_last() =~= s.take(j - 1));
        assert(spec_char_is_digit(t.last()));
        lemma_digits_val_nonneg(s.take(j - 1));
    }
}

/// A digit string denotes a non-negative value.
pub proof fn lemma_digits_val_nonneg(s: Seq<char>)
    requires
        forall|k: int| 0 <= k < s.len() ==> spec_char_is_digit(#[trigger] s[k]),
    ensures
        spec_digits_val(s) >= 0,
    decreases s.len(),
{
    if s.len() > 0 {
        lemma_digits_val_nonneg(s.drop_last());
    }
}

/// The single-character string for the digit `d`.
pub fn digit_str(d: u8) -> (r: &'static str)
    requires
        d < 10,
    ensures
        r@ =~= seq![spec_digit_char(d as int)],
{
    proof {
        reveal_strlit("0");
        reveal_strlit("1");
        reveal_strlit("2");
        reveal_strlit("3");
        reveal_strlit("4");
        reveal_strlit("5");
        reveal_strlit("6");
        reveal_strlit("7");
        reveal_strlit("8");
        reveal_strlit("9");
    }
    match d {
        0 => "0",
        1 => "1",
        2 => "2",
        3 => "3",
        4 => "4",
        5 => "5",
        6 => "6",
        7 => "7",
        8 => "8",
        _ => "9",
    }
}

/// Renders `n` in decimal.
pub fn u128_to_dec(n: u128) -> (r: String)
    ensures
        r@ == spec_dec_digits(n as nat),
    decreases n,
{
    if n < 10 {
        let s = digit_str(n as u8);
        String::from_str(s)
    } else {
        let prefix = u128_to_dec(n / 10);
        let s = digit_str((n % 10) as u8);
        let r = prefix.concat(s);
        proof {
            assert(r@ =~= spec_dec_digits(n as nat));
        }
        r
    }
}

/// Renders `n` in decimal.
pub fn usize_to_dec(n: usize) -> (r: String)
    ensures
        r@ == spec_dec_digits(n as nat),
{
    u128_to_dec(n as u128)
}

/// Renders `n` in decimal, with a leading minus sign when negative.
pub fn i128_to_dec(n: i128) -> (r: String)
    ensures
        r@ == spec_dec_signed(n as int),
{
    if n >= 0 {
        u128_to_dec(n as u128)
    } else {
        // `-i128::MIN` overflows; negate via the unsigned magnitude.
        let mag: u128 = if n == i128::MIN {
            170141183460469231731687303715884105728u128
        } else {
            (-n) as u128
        };
        proof {
            reveal_strlit("-");
        }
        let r = String::from_str("-").concat(u128_to_dec(mag).as_str());
        proof {
            assert(r@ =~= spec_dec_signed(n as int));
        }
        r
    }
}

/// Parses a sequence of decimal digits into a `u128`, reporting `None`
/// on overflow. `s` must be wholly numeric.
pub fn parse_digits_u128(s: &str) -> (r: Option<u128>)
    requires
        spec_is_numeric(s@),
    ensures
        match r {
            Some(v) => v as int == spec_digits_val(s@),
            None => spec_digits_val(s@) > u128::MAX,
        },
{
    let n = s.unicode_len();
    let mut v: u128 = 0;
    let mut i: usize = 0;
    proof {
        assert(s@.take(0int) =~= Seq::<char>::empty());
    }
    while i < n
        invariant
            spec_is_numeric(s@),
            n == s@.len(),
            0 <= i <= n,
            v as int == spec_digits_val(s@.take(i as int)),
        decreases n - i,
    {
        let c = s.get_char(i);
        let u = c as u32;
        assert(48 <= u <= 57);
        let d = (u - 48) as u128;
        let step = match v.checked_mul(10) {
            Some(m) => m.checked_add(d),
            None => None,
        };
        match step {
            Some(next) => {
                proof {
                    assert(s@.take(i + 1).drop_last() =~= s@.take(i as int));
                    assert(s@.take(i + 1).last() == s@[i as int]);
                }
                v = next;
                i += 1;
            },
            None => {
                proof {
                    assert(s@.take(i + 1).drop_last() =~= s@.take(i as int));
                    assert(spec_digits_val(s@.take(i + 1)) > u128::MAX);
                    lemma_digits_val_take_monotone(s@, i + 1, s@.len() as int);
                    assert(s@.take(s@.len() as int) =~= s@);
                }
                return None;
            },
        }
    }
    proof {
        assert(s@.take(n as int) =~= s@);
    }
    Some(v)
}

/// The canonical rendering of `n` is wholly numeric and denotes `n`.
pub proof fn lemma_dec_digits_val(n: nat)
    ensures
        spec_is_numeric(spec_dec_digits(n)),
        spec_digits_val(spec_dec_digits(n)) == n,
        spec_dec_digits(n).len() >= 1,
        spec_char_is_digit(spec_dec_digits(n)[0]),
    decreases n,
{
    if n < 10 {
        assert(spec_char_is_digit(spec_digit_char(n as int)));
        assert(spec_digit_val(spec_digit_char(n as int)) == n);
        assert(spec_dec_digits(n).drop_last() =~= Seq::<char>::empty());
        assert(spec_dec_digits(n).last() == spec_digit_char(n as int));
        assert(spec_digits_val(Seq::<char>::empty()) == 0);
        assert(spec_digits_val(spec_dec_digits(n)) == n);
    } else {
        lemma_dec_digits_val(n / 10);
        let prefix = spec_dec_digits(n / 10);
        let whole = spec_dec_digits(n);
        assert(spec_char_is_digit(spec_digit_char((n % 10) as int)));
        assert(forall|i: int|
            0 <= i < whole.len() ==> spec_char_is_digit(#[trigger] whole[i]));
        assert(whole.drop_last() =~= prefix);
        assert(spec_digits_val(whole) == spec_digits_val(prefix) * 10 + spec_digit_val(
            whole.last(),
        ));
        assert(whole.last() == spec_digit_char((n % 10) as int));
        assert(spec_digit_val(spec_digit_char((n % 10) as int)) == n % 10);
        assert((n / 10) * 10 + n % 10 == n) by (nonlinear_arith);
        assert(spec_digits_val(spec_dec_digits(n)) == n);
    }
}

/// The canonical signed rendering of `n` reads back as `n`.
pub proof fn lemma_dec_signed_val(n: int)
    ensures
        n >= 0 ==> {
            &&& spec_is_numeric(spec_dec_signed(n))
            &&& spec_digits_val(spec_dec_signed(n)) == n
            &&& spec_dec_signed(n)[0] != '-'
        },
        n < 0 ==> {
            &&& spec_dec_signed(n).len() >= 2
            &&& spec_dec_signed(n)[0] == '-'
            &&& spec_is_numeric(spec_dec_signed(n).skip(1))
            &&& spec_digits_val(spec_dec_signed(n).skip(1)) == -n
        },
{
    if n >= 0 {
        lemma_dec_digits_val(n as nat);
        assert(spec_char_is_digit(spec_dec_digits(n as nat)[0]));
        assert(spec_dec_digits(n as nat)[0] as u32 >= 48);
        assert('-' as u32 == 45);
    } else {
        lemma_dec_digits_val((-n) as nat);
        assert(spec_dec_signed(n).skip(1) =~= spec_dec_digits((-n) as nat));
    }
}

} // verus!
