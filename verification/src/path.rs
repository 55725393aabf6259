//! Dot-separated path addressing: an ordered sequence of parts, each
//! empty, a numeric index, or a string key, produced by splitting a
//! source string on `'.'`. A leading empty part (from a leading dot) is
//! dropped; a wholly numeric segment whose value does not fit in `usize`
//! is a parse error.

use vstd::prelude::*;

use crate::decimal::spec_char_is_digit;
use crate::decimal::spec_dec_digits;
use crate::decimal::spec_digits_val;
use crate::decimal::spec_is_numeric;
use crate::decimal::digit_str;
use crate::decimal::parse_digits_u128;
use crate::decimal::usize_to_dec;
use crate::error::ToolboxIdlError;

verus! {

/// One segment of a path.
#[derive(Debug, PartialEq)]
pub enum ToolboxIdlPathPart {
    Empty,
    Index(usize),
    Key(String),
}

/// A parsed path: the ordered segments of a dot-separated string.
#[derive(Debug, PartialEq)]
pub struct ToolboxIdlPath {
    pub parts: Vec<ToolboxIdlPathPart>,
}

impl Clone for ToolboxIdlPathPart {
    fn clone(&self) -> (r: Self)
        ensures
            r == *self,
    {
        match self {
            ToolboxIdlPathPart::Empty => ToolboxIdlPathPart::Empty,
            ToolboxIdlPathPart::Index(i) => ToolboxIdlPathPart::Index(*i),
            ToolboxIdlPathPart::Key(k) => ToolboxIdlPathPart::Key(k.clone()),
        }
    }
}

impl Clone for ToolboxIdlPath {
    fn clone(&self) -> (r: Self)
        ensures
            r.parts@ == self.parts@,
    {
        let mut parts: Vec<ToolboxIdlPathPart> = Vec::new();
        let mut i: usize = 0;
        while i < self.parts.len()
            invariant
                0 <= i <= self.parts.len(),
                parts@ =~= self.parts@.take(i as int),
            decreases self.parts.len() - i,
        {
            parts.push(self.parts[i].clone());
            i += 1;
        }
        proof {
            assert(parts@ =~= self.parts@);
        }
        ToolboxIdlPath { parts }
    }
}

/// Splitting a character sequence on `'.'`: always at least one segment;
/// a trailing dot yields a trailing empty segment.
pub open spec fn spec_split_dots(s: Seq<char>) -> Seq<Seq<char>>
    decreases s.len(),
{
    if s.len() == 0 {
        seq![Seq::<char>::empty()]
    } else {
        let prev = spec_split_dots(s.drop_last());
        if s.last() == '.' {
            prev.push(Seq::<char>::empty())
        } else {
            prev.update(prev.len() - 1, prev.last().push(s.last()))
        }
    }
}

pub proof fn lemma_split_dots_len(s: Seq<char>)
    ensures
        spec_split_dots(s).len() >= 1,
    decreases s.len(),
{
    if s.len() > 0 {
        lemma_split_dots_len(s.drop_last());
    }
}

/// Segments other than the still-open last one never change as the
/// source string grows.
pub proof fn lemma_split_dots_frozen(s: Seq<char>, i: int, j: int)
    requires
        0 <= i <= s.len(),
        0 <= j < spec_split_dots(s.take(i)).len() - 1,
    ensures
        spec_split_dots(s).len() > spec_split_dots(s.take(i)).len() - 1,
        spec_split_dots(s)[j] == spec_split_dots(s.take(i))[j],
    decreases s.len() - i,
{
    lemma_split_dots_len(s.take(i));
    if i == s.len() {
        assert(s.take(i) =~= s);
    } else {
        let t = s.take(i + 1);
        assert(t.drop_last() =~= s.take(i));
        assert(t.last() == s[i]);
        lemma_split_dots_frozen(s, i + 1, j);
    }
}

/// Whether the exec part `p` is the parse of the segment `seg`.
pub open spec fn spec_part_matches(p: ToolboxIdlPathPart, seg: Seq<char>) -> bool {
    if seg.len() == 0 {
        p == ToolboxIdlPathPart::Empty
    } else if spec_is_numeric(seg) {
        &&& p is Index
        &&& p->Index_0 as int == spec_digits_val(seg)
    } else {
        &&& p is Key
        &&& p->Key_0@ == seg
    }
}

/// The segments a parse works on: the split of the source, with a
/// leading empty segment dropped.
pub open spec fn spec_path_segments(s: Seq<char>) -> Seq<Seq<char>> {
    let segs = spec_split_dots(s);
    if segs[0].len() == 0 {
        segs.skip(1)
    } else {
        segs
    }
}

/// Whether every wholly numeric segment of the split fits in `usize`.
pub open spec fn spec_path_parse_ok(s: Seq<char>) -> bool {
    forall|j: int|
        0 <= j < spec_split_dots(s).len() && spec_is_numeric(#[trigger] spec_split_dots(s)[j])
            ==> spec_digits_val(spec_split_dots(s)[j]) <= usize::MAX
}

/// The canonical rendering of one part.
pub open spec fn spec_part_value(p: ToolboxIdlPathPart) -> Seq<char> {
    match p {
        ToolboxIdlPathPart::Empty => Seq::<char>::empty(),
        ToolboxIdlPathPart::Index(i) => spec_dec_digits(i as nat),
        ToolboxIdlPathPart::Key(k) => k@,
    }
}

/// The canonical rendering of a whole path: parts joined with `'.'`.
pub open spec fn spec_path_value(parts: Seq<ToolboxIdlPathPart>) -> Seq<char>
    decreases parts.len(),
{
    if parts.len() == 0 {
        Seq::<char>::empty()
    } else if parts.len() == 1 {
        spec_part_value(parts[0])
    } else {
        spec_path_value(parts.drop_last()).push('.').add(spec_part_value(parts.last()))
    }
}

/// Parses one already-delimited segment.
fn parse_segment(seg: &str) -> (r: Result<ToolboxIdlPathPart, ToolboxIdlError>)
    ensures
        r is Ok <==> (spec_is_numeric(seg@) ==> spec_digits_val(seg@) <= usize::MAX),
        r matches Ok(p) ==> spec_part_matches(p, seg@),
        r is Err ==> r->Err_0 is Parse,
{
    let n = seg.unicode_len();
    if n == 0 {
        return Ok(ToolboxIdlPathPart::Empty);
    }
    let mut i: usize = 0;
    while i < n
        invariant
            n == seg@.len(),
            0 <= i <= n,
            forall|k: int| 0 <= k < i ==> spec_char_is_digit(#[trigger] seg@[k]),
        decreases n - i,
    {
        let c = seg.get_char(i);
        let u = c as u32;
        if u < 48 || u > 57 {
            return Ok(ToolboxIdlPathPart::Key(String::from_str(seg)));
        }
        i += 1;
    }
    match parse_digits_u128(seg) {
        Some(v) => {
            if v <= usize::MAX as u128 {
                Ok(ToolboxIdlPathPart::Index(v as usize))
            } else {
                Err(ToolboxIdlError::Parse(String::from_str("path segment index overflow")))
            }
        },
        None => Err(ToolboxIdlError::Parse(String::from_str("path segment index overflow"))),
    }
}

impl ToolboxIdlPath {
    /// Splits `value` on dots and classifies each segment as empty,
    /// numeric index, or key; a leading empty segment is dropped.
    /// Fails exactly when a wholly numeric segment overflows `usize`.
    pub fn try_parse(value: &str) -> (r: Result<ToolboxIdlPath, ToolboxIdlError>)
        ensures
            r is Ok <==> spec_path_parse_ok(value@),
            r matches Ok(path) ==> {
                &&& path.parts@.len() == spec_path_segments(value@).len()
                &&& forall|j: int|
                    0 <= j < path.parts@.len() ==> spec_part_matches(
                        path.parts@[j],
                        #[trigger] spec_path_segments(value@)[j],
                    )
            },
            r is Err ==> r->Err_0 is Parse,
    {
        let n = value.unicode_len();
        let mut parts: Vec<ToolboxIdlPathPart> = Vec::new();
        let mut start: usize = 0;
        let mut i: usize = 0;
        proof {
            assert(spec_split_dots(value@.take(0int)) =~= seq![Seq::<char>::empty()]);
        }
        while i < n
            invariant
                n == value@.len(),
                0 <= start <= i <= n,
                parts@.len() == spec_split_dots(value@.take(i as int)).len() - 1,
                forall|j: int|
                    0 <= j < parts@.len() ==> spec_part_matches(
                        parts@[j],
                        #[trigger] spec_split_dots(value@.take(i as int))[j],
                    ),
                spec_split_dots(value@.take(i as int)).last() =~= value@.subrange(
                    start as int,
                    i as int,
                ),
            decreases n - i,
        {
            let c = value.get_char(i);
            proof {
                let t = value@.take(i + 1);
                assert(t.drop_last() =~= value@.take(i as int));
                assert(t.last() == value@[i as int]);
            }
            if c == '.' {
                let seg = value.substring_char(start, i);
                match parse_segment(seg) {
                    Ok(part) => {
                        parts.push(part);
                    },
                    Err(e) => {
                        proof {
                            lemma_split_dots_len(value@.take(i as int));
                            lemma_split_dots_frozen(
                                value@,
                                i + 1,
                                spec_split_dots(value@.take(i as int)).len() - 1,
                            );
                        }
                        return Err(e);
                    },
                }
                start = i + 1;
                proof {
                    assert(value@.subrange(start as int, i + 1) =~= Seq::<char>::empty());
                }
            } else {
                proof {
                    let prev = spec_split_dots(value@.take(i as int));
                    assert(prev.last().push(value@[i as int]) =~= value@.subrange(
                        start as int,
                        i + 1,
                    ));
                    assert(spec_split_dots(value@.take(i + 1)) =~= prev.update(
                        prev.len() - 1,
                        value@.subrange(start as int, i + 1),
                    ));
                }
            }
            i += 1;
        }
        proof {
            assert(value@.take(n as int) =~= value@);
        }
        let seg = value.substring_char(start, n);
        match parse_segment(seg) {
            Ok(part) => {
                parts.push(part);
            },
            Err(e) => {
                proof {
                    lemma_split_dots_len(value@);
                }
                return Err(e);
            },
        }
        proof {
            lemma_split_dots_len(value@);
        }
        if parts.len() > 0 {
            let is_leading_empty = match &parts[0] {
                ToolboxIdlPathPart::Empty => true,
                _ => false,
            };
            if is_leading_empty {
                parts.remove(0);
                proof {
                    assert(spec_split_dots(value@)[0].len() == 0);
                    assert(parts@ =~= parts@);
                }
                return Ok(ToolboxIdlPath { parts });
            }
        }
        proof {
            assert(spec_split_dots(value@)[0].len() != 0 ==> spec_path_segments(value@)
                == spec_split_dots(value@));
        }
        Ok(ToolboxIdlPath { parts })
    }

    /// A new path holding this path's parts followed by `other`'s.
    pub fn concat(&self, other: &ToolboxIdlPath) -> (r: ToolboxIdlPath)
        ensures
            r.parts@ == self.parts@ + other.parts@,
    {
        let mut parts = self.clone().parts;
        let mut i: usize = 0;
        while i < other.parts.len()
            invariant
                0 <= i <= other.parts.len(),
                parts@ =~= self.parts@ + other.parts@.take(i as int),
            decreases other.parts.len() - i,
        {
            parts.push(other.parts[i].clone());
            i += 1;
        }
        proof {
            assert(self.parts@ + other.parts@.take(other.parts@.len() as int) =~= self.parts@
                + other.parts@);
        }
        ToolboxIdlPath { parts }
    }

    /// Whether the path has no parts.
    pub fn is_empty(&self) -> (r: bool)
        ensures
            r == (self.parts@.len() == 0),
    {
        self.parts.len() == 0
    }

    /// The first part and the remaining path, if any part exists.
    pub fn split_first(&self) -> (r: Option<(ToolboxIdlPathPart, ToolboxIdlPath)>)
        ensures
            match r {
                Some(pair) => {
                    &&& self.parts@.len() > 0
                    &&& pair.0 == self.parts@[0]
                    &&& pair.1.parts@ == self.parts@.skip(1)
                },
                None => self.parts@.len() == 0,
            },
    {
        if self.parts.len() == 0 {
            return None;
        }
        let first = self.parts[0].clone();
        let mut rest: Vec<ToolboxIdlPathPart> = Vec::new();
        let mut i: usize = 1;
        while i < self.parts.len()
            invariant
                1 <= i <= self.parts.len(),
                rest@ =~= self.parts@.subrange(1, i as int),
            decreases self.parts.len() - i,
        {
            rest.push(self.parts[i].clone());
            i += 1;
        }
        proof {
            assert(rest@ =~= self.parts@.skip(1));
        }
        Some((first, ToolboxIdlPath { parts: rest }))
    }

    /// The canonical dot-joined rendering of the path.
    pub fn value(&self) -> (r: String)
        ensures
            r@ == spec_path_value(self.parts@),
    {
        let mut out = String::new();
        let mut i: usize = 0;
        while i < self.parts.len()
            invariant
                0 <= i <= self.parts.len(),
                out@ =~= spec_path_value(self.parts@.take(i as int)),
        decreases self.parts.len() - i,
        {
            proof {
                assert(self.parts@.take(i + 1).drop_last() =~= self.parts@.take(i as int));
                assert(self.parts@.take(i + 1).last() == self.parts@[i as int]);
            }
            if i > 0 {
                proof {
                    reveal_strlit(".");
                }
                out.append(".");
            }
            let part_text = self.parts[i].value();
            out.append(part_text.as_str());
            proof {
                if i == 0 {
                    assert(out@ =~= spec_path_value(self.parts@.take(1int)));
                } else {
                    assert(out@ =~= spec_path_value(self.parts@.take(i + 1)));
                }
            }
            i += 1;
        }
        proof {
            assert(self.parts@.take(self.parts@.len() as int) =~= self.parts@);
        }
        out
    }
}

impl ToolboxIdlPathPart {
    /// The key text, for a key part.
    pub fn key(&self) -> (r: Option<&str>)
        ensures
            match self {
                ToolboxIdlPathPart::Key(k) => r matches Some(s) && s@ == k@,
                _ => r is None,
            },
    {
        match self {
            ToolboxIdlPathPart::Empty => None,
            ToolboxIdlPathPart::Key(key) => Some(key.as_str()),
            ToolboxIdlPathPart::Index(_) => None,
        }
    }

    /// The numeric index, for an index part.
    pub fn index(&self) -> (r: Option<usize>)
        ensures
            match self {
                ToolboxIdlPathPart::Index(i) => r == Some(*i),
                _ => r is None,
            },
    {
        match self {
            ToolboxIdlPathPart::Empty => None,
            ToolboxIdlPathPart::Key(_) => None,
            ToolboxIdlPathPart::Index(index) => Some(*index),
        }
    }

    /// The canonical rendering of this part.
    pub fn value(&self) -> (r: String)
        ensures
            r@ == spec_part_value(*self),
    {
        match self {
            ToolboxIdlPathPart::Empty => String::new(),
            ToolboxIdlPathPart::Key(key) => key.clone(),
            ToolboxIdlPathPart::Index(index) => usize_to_dec(*index),
        }
    }
}

} // verus!
