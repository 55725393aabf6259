//! Casing conventions of IDL documents: names arrive in either
//! camelCase or snake_case and are normalized to snake_case inside
//! the library; exports can render camelCase again.

use vstd::prelude::*;

verus! {

/// Whether `c` is an ASCII uppercase letter.
pub open spec fn spec_is_upper(c: char) -> bool {
    65 <= c as u32 <= 90
}

/// Whether `c` is an ASCII lowercase letter.
pub open spec fn spec_is_lower(c: char) -> bool {
    97 <= c as u32 <= 122
}

/// The lowercase form of an ASCII uppercase letter; other characters
/// are unchanged.
pub open spec fn spec_lower_of(c: char) -> char {
    if c == 'A' { 'a' } else if c == 'B' { 'b' } else if c == 'C' { 'c' }
    else if c == 'D' { 'd' } else if c == 'E' { 'e' } else if c == 'F' { 'f' }
    else if c == 'G' { 'g' } else if c == 'H' { 'h' } else if c == 'I' { 'i' }
    else if c == 'J' { 'j' } else if c == 'K' { 'k' } else if c == 'L' { 'l' }
    else if c == 'M' { 'm' } else if c == 'N' { 'n' } else if c == 'O' { 'o' }
    else if c == 'P' { 'p' } else if c == 'Q' { 'q' } else if c == 'R' { 'r' }
    else if c == 'S' { 's' } else if c == 'T' { 't' } else if c == 'U' { 'u' }
    else if c == 'V' { 'v' } else if c == 'W' { 'w' } else if c == 'X' { 'x' }
    else if c == 'Y' { 'y' } else if c == 'Z' { 'z' } else { c }
}

/// The uppercase form of an ASCII lowercase letter; other characters
/// are unchanged.
pub open spec fn spec_upper_of(c: char) -> char {
    if c == 'a' { 'A' } else if c == 'b' { 'B' } else if c == 'c' { 'C' }
    else if c == 'd' { 'D' } else if c == 'e' { 'E' } else if c == 'f' { 'F' }
    else if c == 'g' { 'G' } else if c == 'h' { 'H' } else if c == 'i' { 'I' }
    else if c == 'j' { 'J' } else if c == 'k' { 'K' } else if c == 'l' { 'L' }
    else if c == 'm' { 'M' } else if c == 'n' { 'N' } else if c == 'o' { 'O' }
    else if c == 'p' { 'P' } else if c == 'q' { 'Q' } else if c == 'r' { 'R' }
    else if c == 's' { 'S' } else if c == 't' { 'T' } else if c == 'u' { 'U' }
    else if c == 'v' { 'V' } else if c == 'w' { 'W' } else if c == 'x' { 'X' }
    else if c == 'y' { 'Y' } else if c == 'z' { 'Z' } else { c }
}

/// snake_case of a name: each uppercase letter is lowered, preceded by
/// an underscore except at the start.
pub open spec fn spec_to_snake(s: Seq<char>) -> Seq<char>
    decreases s.len(),
{
    if s.len() == 0 {
        Seq::empty()
    } else {
        let prefix = spec_to_snake(s.drop_last());
        let last = s.last();
        if spec_is_upper(last) {
            if s.len() == 1 {
                seq![spec_lower_of(last)]
            } else {
                prefix + seq!['_', spec_lower_of(last)]
            }
        } else {
            prefix.push(last)
        }
    }
}

/// camelCase of a name: each underscore is dropped and the letter
/// after it uppercased.
pub open spec fn spec_to_camel(s: Seq<char>) -> Seq<char>
    decreases s.len(),
{
    if s.len() == 0 {
        Seq::empty()
    } else if s[0] == '_' {
        if s.len() == 1 {
            Seq::empty()
        } else {
            seq![spec_upper_of(s[1])] + spec_to_camel(s.skip(2))
        }
    } else {
        seq![s[0]] + spec_to_camel(s.skip(1))
    }
}

/// The lowercase form of one character.
fn lower_of(c: char) -> (r: char)
    ensures
        r == spec_lower_of(c),
{
    if c == 'A' { 'a' } else if c == 'B' { 'b' } else if c == 'C' { 'c' }
    else if c == 'D' { 'd' } else if c == 'E' { 'e' } else if c == 'F' { 'f' }
    else if c == 'G' { 'g' } else if c == 'H' { 'h' } else if c == 'I' { 'i' }
    else if c == 'J' { 'j' } else if c == 'K' { 'k' } else if c == 'L' { 'l' }
    else if c == 'M' { 'm' } else if c == 'N' { 'n' } else if c == 'O' { 'o' }
    else if c == 'P' { 'p' } else if c == 'Q' { 'q' } else if c == 'R' { 'r' }
    else if c == 'S' { 's' } else if c == 'T' { 't' } else if c == 'U' { 'u' }
    else if c == 'V' { 'v' } else if c == 'W' { 'w' } else if c == 'X' { 'x' }
    else if c == 'Y' { 'y' } else if c == 'Z' { 'z' } else { c }
}

/// The uppercase form of one character.
fn upper_of(c: char) -> (r: char)
    ensures
        r == spec_upper_of(c),
{
    if c == 'a' { 'A' } else if c == 'b' { 'B' } else if c == 'c' { 'C' }
    else if c == 'd' { 'D' } else if c == 'e' { 'E' } else if c == 'f' { 'F' }
    else if c == 'g' { 'G' } else if c == 'h' { 'H' } else if c == 'i' { 'I' }
    else if c == 'j' { 'J' } else if c == 'k' { 'K' } else if c == 'l' { 'L' }
    else if c == 'm' { 'M' } else if c == 'n' { 'N' } else if c == 'o' { 'O' }
    else if c == 'p' { 'P' } else if c == 'q' { 'Q' } else if c == 'r' { 'R' }
    else if c == 's' { 'S' } else if c == 't' { 'T' } else if c == 'u' { 'U' }
    else if c == 'v' { 'V' } else if c == 'w' { 'W' } else if c == 'x' { 'X' }
    else if c == 'y' { 'Y' } else if c == 'z' { 'Z' } else { c }
}

/// A character as a one-character string.
fn char_str(c: char) -> (r: String)
    ensures
        r@ =~= seq![c],
{
    let out = String::new();
    proof {
        assert(out@ =~= Seq::<char>::empty());
    }
    crate::outside::string_push(out, c)
}

/// Renders a name in snake_case.
pub fn to_snake_case(name: &str) -> (r: String)
    ensures
        r@ == spec_to_snake(name@),
{
    let n = name.unicode_len();
    let mut out = String::new();
    let mut i: usize = 0;
    proof {
        assert(name@.take(0int) =~= Seq::<char>::empty());
        assert(spec_to_snake(name@.take(0int)) =~= Seq::<char>::empty());
    }
    while i < n
        invariant
            n == name@.len(),
            0 <= i <= n,
            out@ == spec_to_snake(name@.take(i as int)),
        decreases n - i,
    {
        let c = name.get_char(i);
        proof {
            assert(name@.take(i + 1).drop_last() =~= name@.take(i as int));
            assert(name@.take(i + 1).last() == name@[i as int]);
        }
        let u = c as u32;
        if 65 <= u && u <= 90 {
            if i > 0 {
                let low = lower_of(c);
                let piece = char_str('_').concat(char_str(low).as_str());
                out = out.concat(piece.as_str());
                proof {
                    assert(out@ =~= spec_to_snake(name@.take(i + 1)));
                }
            } else {
                let low = lower_of(c);
                out = out.concat(char_str(low).as_str());
                proof {
                    assert(out@ =~= spec_to_snake(name@.take(i + 1)));
                }
            }
        } else {
            out = out.concat(char_str(c).as_str());
            proof {
                assert(out@ =~= spec_to_snake(name@.take(i + 1)));
            }
        }
        i += 1;
    }
    proof {
        assert(name@.take(n as int) =~= name@);
    }
    out
}

/// Renders a name in camelCase.
pub fn to_camel_case(name: &str) -> (r: String)
    ensures
        r@ == spec_to_camel(name@),
{
    let n = name.unicode_len();
    let mut out = String::new();
    let mut i: usize = 0;
    proof {
        assert(name@.skip(0int) =~= name@);
        assert(out@ =~= Seq::<char>::empty());
    }
    while i < n
        invariant
            n == name@.len(),
            0 <= i <= n,
            spec_to_camel(name@) =~= out@ + spec_to_camel(name@.skip(i as int)),
        decreases n - i,
    {
        let c = name.get_char(i);
        proof {
            assert(name@.skip(i as int)[0] == name@[i as int]);
            if i + 1 < n {
                assert(name@.skip(i as int)[1] == name@[i + 1]);
            }
            assert(name@.skip(i as int).skip(1) =~= name@.skip(i + 1));
            if i + 2 <= n {
                assert(name@.skip(i as int).skip(2) =~= name@.skip(i + 2));
            }
        }
        if c == '_' {
            if i + 1 < n {
                let next = name.get_char(i + 1);
                let up = upper_of(next);
                out = out.concat(char_str(up).as_str());
                proof {
                    assert(spec_to_camel(name@) =~= out@ + spec_to_camel(name@.skip(i + 2)));
                }
                i += 2;
            } else {
                proof {
                    assert(spec_to_camel(name@.skip(i as int)) =~= Seq::<char>::empty());
                    assert(spec_to_camel(name@) =~= out@ + spec_to_camel(name@.skip(i + 1)));
                }
                i += 1;
            }
        } else {
            out = out.concat(char_str(c).as_str());
            proof {
                assert(spec_to_camel(name@) =~= out@ + spec_to_camel(name@.skip(i + 1)));
            }
            i += 1;
        }
    }
    proof {
        assert(name@.skip(n as int) =~= Seq::<char>::empty());
        assert(out@ + Seq::<char>::empty() =~= out@);
    }
    out
}

} // verus!
