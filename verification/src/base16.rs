//! Hexadecimal byte strings: two digits per byte, either letter case
//! accepted.

use vstd::prelude::*;

verus! {

/// The value of one hexadecimal digit.
pub open spec fn spec_hex_digit(c: char) -> Option<int> {
    let u = c as u32;
    if 48 <= u <= 57 {
        Some(u - 48)
    } else if 97 <= u <= 102 {
        Some(u - 97 + 10)
    } else if 65 <= u <= 70 {
        Some(u - 65 + 10)
    } else {
        None
    }
}

/// The bytes a hexadecimal text denotes: nothing for an odd length or
/// a non-digit character.
pub open spec fn spec_hex_decode(s: Seq<char>) -> Option<Seq<u8>>
    decreases s.len(),
{
    if s.len() == 0 {
        Some(Seq::empty())
    } else if s.len() == 1 {
        None
    } else {
        match (spec_hex_digit(s[0]), spec_hex_digit(s[1])) {
            (Some(hi), Some(lo)) => {
                match spec_hex_decode(s.skip(2)) {
                    Some(rest) => Some(seq![(hi * 16 + lo) as u8].add(rest)),
                    None => None,
                }
            },
            _ => None,
        }
    }
}

/// `Some(prefix + rest)` when `tail` is `Some(rest)`.
pub open spec fn spec_hex_prepend(prefix: Seq<u8>, tail: Option<Seq<u8>>) -> Option<Seq<u8>> {
    match tail {
        Some(rest) => Some(prefix + rest),
        None => None,
    }
}

/// The value of one hexadecimal digit character.
fn hex_digit(c: char) -> (r: Option<u8>)
    ensures
        match r {
            Some(d) => spec_hex_digit(c) == Some(d as int),
            None => spec_hex_digit(c) is None,
        },
{
    let u = c as u32;
    if 48 <= u && u <= 57 {
        Some((u - 48) as u8)
    } else if 97 <= u && u <= 102 {
        Some((u - 97 + 10) as u8)
    } else if 65 <= u && u <= 70 {
        Some((u - 65 + 10) as u8)
    } else {
        None
    }
}

/// Decodes hexadecimal text into bytes; fails exactly where the
/// mathematical decoding does.
pub fn hex_decode(text: &str) -> (r: Option<Vec<u8>>)
    ensures
        match r {
            Some(b) => spec_hex_decode(text@) == Some(b@),
            None => spec_hex_decode(text@) is None,
        },
{
    let n = text.unicode_len();
    let mut out: Vec<u8> = Vec::new();
    let mut i: usize = 0;
    proof {
        assert(text@.skip(0int) =~= text@);
    }
    while i + 1 < n
        invariant
            n == text@.len(),
            0 <= i <= n,
            i % 2 == 0,
            spec_hex_decode(text@) == spec_hex_prepend(out@, spec_hex_decode(text@.skip(i as int))),
        decreases n - i,
    {
        let hi = match hex_digit(text.get_char(i)) {
            Some(d) => d,
            None => {
                proof {
                    assert(text@.skip(i as int)[0] == text@[i as int]);
                }
                return None;
            },
        };
        let lo = match hex_digit(text.get_char(i + 1)) {
            Some(d) => d,
            None => {
                proof {
                    assert(text@.skip(i as int)[0] == text@[i as int]);
                    assert(text@.skip(i as int)[1] == text@[i + 1]);
                }
                return None;
            },
        };
        let byte: u8 = hi * 16 + lo;
        let ghost prior = out@;
        out.push(byte);
        proof {
            assert(text@.skip(i as int)[0] == text@[i as int]);
            assert(text@.skip(i as int)[1] == text@[i + 1]);
            assert(text@.skip(i as int).skip(2) =~= text@.skip(i + 2));
            assert(out@ =~= prior.push(byte));
            assert(spec_hex_decode(text@) == spec_hex_prepend(
                out@,
                spec_hex_decode(text@.skip(i + 2)),
            )) by {
                if spec_hex_decode(text@.skip(i + 2)) is Some {
                    assert(prior + seq![byte].add(spec_hex_decode(text@.skip(i + 2)).unwrap())
                        =~= out@ + spec_hex_decode(text@.skip(i + 2)).unwrap());
                }
            }
        }
        i += 2;
    }
    if i < n {
        proof {
            assert(text@.skip(i as int).len() == 1);
        }
        return None;
    }
    proof {
        assert(text@.skip(i as int) =~= Seq::<char>::empty());
        assert(spec_hex_decode(text@) == Some(out@ + Seq::<u8>::empty()));
        assert(out@ + Seq::<u8>::empty() =~= out@);
    }
    Some(out)
}

} // verus!
