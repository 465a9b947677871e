use vstd::prelude::*;

verus! {

/// Physical arrangement of a tensor's elements.
///
/// This library works with the plain row-major layouts, one per supported
/// dimension count, plus `Any`, which leaves the choice of layout open.
/// Blocked and permuted layouts are not part of this closed set.
#[derive(Debug, Clone, Copy, PartialEq, Eq, Structural)]
pub enum FormatTag {
    /// Plain 1-dimensional tensor.
    A,
    /// Plain 2-dimensional tensor.
    Ab,
    /// Plain 3-dimensional tensor.
    Abc,
    /// Plain 4-dimensional tensor.
    Abcd,
    /// Plain 5-dimensional tensor.
    Abcde,
    /// Plain 6-dimensional tensor.
    Abcdef,
    /// Plain 7-dimensional tensor.
    Abcdefg,
    /// Plain 8-dimensional tensor.
    Abcdefgh,
    /// Plain 9-dimensional tensor.
    Abcdefghi,
    /// Plain 10-dimensional tensor.
    Abcdefghij,
    /// Plain 11-dimensional tensor.
    Abcdefghijk,
    /// Plain 12-dimensional tensor.
    Abcdefghijkl,
    /// No fixed layout; the library may choose one.
    Any,
}

/// Dimension count a concrete tag is declared for; `Any` fits every count.
pub open spec fn spec_tag_arity(tag: FormatTag) -> Option<nat> {
    match tag {
        FormatTag::A => Some(1 as nat),
        FormatTag::Ab => Some(2 as nat),
        FormatTag::Abc => Some(3 as nat),
        FormatTag::Abcd => Some(4 as nat),
        FormatTag::Abcde => Some(5 as nat),
        FormatTag::Abcdef => Some(6 as nat),
        FormatTag::Abcdefg => Some(7 as nat),
        FormatTag::Abcdefgh => Some(8 as nat),
        FormatTag::Abcdefghi => Some(9 as nat),
        FormatTag::Abcdefghij => Some(10 as nat),
        FormatTag::Abcdefghijk => Some(11 as nat),
        FormatTag::Abcdefghijkl => Some(12 as nat),
        FormatTag::Any => None,
    }
}

/// True when a tag may describe a tensor with `ndims` dimensions.
pub open spec fn spec_tag_fits(tag: FormatTag, ndims: nat) -> bool {
    match spec_tag_arity(tag) {
        Some(a) => a == ndims,
        None => true,
    }
}

impl FormatTag {
    /// Dimension count this tag is declared for, or `None` for `Any`.
    pub fn arity(&self) -> (r: Option<usize>)
        ensures
            match spec_tag_arity(*self) {
                Some(a) => r == Some(a as usize),
                None => r == Option::<usize>::None,
            },
    {
        match self {
            FormatTag::A => Some(1),
            FormatTag::Ab => Some(2),
            FormatTag::Abc => Some(3),
            FormatTag::Abcd => Some(4),
            FormatTag::Abcde => Some(5),
            FormatTag::Abcdef => Some(6),
            FormatTag::Abcdefg => Some(7),
            FormatTag::Abcdefgh => Some(8),
            FormatTag::Abcdefghi => Some(9),
            FormatTag::Abcdefghij => Some(10),
            FormatTag::Abcdefghijk => Some(11),
            FormatTag::Abcdefghijkl => Some(12),
            FormatTag::Any => None,
        }
    }

    /// True when this tag may describe a tensor with `ndims` dimensions.
    pub fn fits(&self, ndims: usize) -> (r: bool)
        ensures
            r == spec_tag_fits(*self, ndims as nat),
    {
        match self.arity() {
            Some(a) => a == ndims,
            None => true,
        }
    }

    /// Code under which this tag is serialized into a descriptor blob.
    pub fn code(&self) -> (r: u8)
        ensures
            r == spec_tag_code(*self),
    {
        match self {
            FormatTag::A => 1,
            FormatTag::Ab => 2,
            FormatTag::Abc => 3,
            FormatTag::Abcd => 4,
            FormatTag::Abcde => 5,
            FormatTag::Abcdef => 6,
            FormatTag::Abcdefg => 7,
            FormatTag::Abcdefgh => 8,
            FormatTag::Abcdefghi => 9,
            FormatTag::Abcdefghij => 10,
            FormatTag::Abcdefghijk => 11,
            FormatTag::Abcdefghijkl => 12,
            FormatTag::Any => 13,
        }
    }

    /// Tag denoted by a blob code, if the code is in range.
    pub fn from_code(code: u8) -> (r: Option<FormatTag>)
        ensures
            r == spec_tag_from_code(code),
    {
        match code {
            1 => Some(FormatTag::A),
            2 => Some(FormatTag::Ab),
            3 => Some(FormatTag::Abc),
            4 => Some(FormatTag::Abcd),
            5 => Some(FormatTag::Abcde),
            6 => Some(FormatTag::Abcdef),
            7 => Some(FormatTag::Abcdefg),
            8 => Some(FormatTag::Abcdefgh),
            9 => Some(FormatTag::Abcdefghi),
            10 => Some(FormatTag::Abcdefghij),
            11 => Some(FormatTag::Abcdefghijk),
            12 => Some(FormatTag::Abcdefghijkl),
            13 => Some(FormatTag::Any),
            _ => None,
        }
    }
}

/// Blob code of a tag.
pub open spec fn spec_tag_code(tag: FormatTag) -> u8 {
    match tag {
        FormatTag::A => 1,
        FormatTag::Ab => 2,
        FormatTag::Abc => 3,
        FormatTag::Abcd => 4,
        FormatTag::Abcde => 5,
        FormatTag::Abcdef => 6,
        FormatTag::Abcdefg => 7,
        FormatTag::Abcdefgh => 8,
        FormatTag::Abcdefghi => 9,
        FormatTag::Abcdefghij => 10,
        FormatTag::Abcdefghijk => 11,
        FormatTag::Abcdefghijkl => 12,
        FormatTag::Any => 13,
    }
}

/// Tag denoted by a blob code.
pub open spec fn spec_tag_from_code(code: u8) -> Option<FormatTag> {
    if code == 1 {
        Some(FormatTag::A)
    } else if code == 2 {
        Some(FormatTag::Ab)
    } else if code == 3 {
        Some(FormatTag::Abc)
    } else if code == 4 {
        Some(FormatTag::Abcd)
    } else if code == 5 {
        Some(FormatTag::Abcde)
    } else if code == 6 {
        Some(FormatTag::Abcdef)
    } else if code == 7 {
        Some(FormatTag::Abcdefg)
    } else if code == 8 {
        Some(FormatTag::Abcdefgh)
    } else if code == 9 {
        Some(FormatTag::Abcdefghi)
    } else if code == 10 {
        Some(FormatTag::Abcdefghij)
    } else if code == 11 {
        Some(FormatTag::Abcdefghijk)
    } else if code == 12 {
        Some(FormatTag::Abcdefghijkl)
    } else if code == 13 {
        Some(FormatTag::Any)
    } else {
        None
    }
}

} // verus!
