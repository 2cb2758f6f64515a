//! Settings of a whole light mesh.
use vstd::prelude::*;

verus! {

/// Which parts of a light mesh the bloom fog pass draws.
#[derive(Copy, Clone, Debug, PartialEq, Eq, Structural)]
pub enum BloomfogStyle {
    BloomOnly,
    Everything,
    Nothing,
}

/// The byte a style is stored as.
pub open spec fn bloomfog_code(s: BloomfogStyle) -> u8 {
    match s {
        BloomfogStyle::BloomOnly => 0,
        BloomfogStyle::Everything => 1,
        BloomfogStyle::Nothing => 2,
    }
}

/// The style a stored byte reads as: every byte from 2 up reads as `Nothing`.
pub open spec fn bloomfog_of(v: u8) -> BloomfogStyle {
    if v == 0 {
        BloomfogStyle::BloomOnly
    } else if v == 1 {
        BloomfogStyle::Everything
    } else {
        BloomfogStyle::Nothing
    }
}

impl Default for BloomfogStyle {
    fn default() -> (r: Self)
        ensures
            r == BloomfogStyle::BloomOnly,
    {
        BloomfogStyle::BloomOnly
    }
}

impl BloomfogStyle {
    /// The label shown for the style.
    pub fn label(&self) -> (r: &'static str)
        ensures
            r@ == match *self {
                BloomfogStyle::BloomOnly => "Bloom Only"@,
                BloomfogStyle::Everything => "Everything"@,
                BloomfogStyle::Nothing => "Nothing"@,
            },
    {
        match self {
            BloomfogStyle::BloomOnly => "Bloom Only",
            BloomfogStyle::Everything => "Everything",
            BloomfogStyle::Nothing => "Nothing",
        }
    }
}

impl From<u8> for BloomfogStyle {
    fn from(value: u8) -> (r: Self) {
        if value == 0 {
            BloomfogStyle::BloomOnly
        } else if value == 1 {
            BloomfogStyle::Everything
        } else {
            BloomfogStyle::Nothing
        }
    }
}

impl vstd::std_specs::convert::FromSpecImpl<u8> for BloomfogStyle {
    open spec fn obeys_from_spec() -> bool {
        true
    }

    open spec fn from_spec(v: u8) -> BloomfogStyle {
        bloomfog_of(v)
    }
}

impl From<BloomfogStyle> for u8 {
    fn from(value: BloomfogStyle) -> (r: u8) {
        match value {
            BloomfogStyle::BloomOnly => 0,
            BloomfogStyle::Everything => 1,
            BloomfogStyle::Nothing => 2,
        }
    }
}

impl vstd::std_specs::convert::FromSpecImpl<BloomfogStyle> for u8 {
    open spec fn obeys_from_spec() -> bool {
        true
    }

    open spec fn from_spec(v: BloomfogStyle) -> u8 {
        bloomfog_code(v)
    }
}

/// A stored style reads back as itself, and a byte read as a style and stored
/// again is kept when it was 0, 1 or 2 and becomes 2 otherwise.
pub proof fn lemma_bloomfog_codes(s: BloomfogStyle, v: u8)
    ensures
        bloomfog_of(bloomfog_code(s)) == s,
        bloomfog_code(bloomfog_of(v)) == if v <= 2 { v } else { 2u8 },
{
}

/// The bytes a light mesh file writes for each style: bloom only is 0,
/// everything 1, nothing 2.
pub proof fn lemma_bloomfog_format_values()
    ensures
        bloomfog_code(BloomfogStyle::BloomOnly) == 0u8,
        bloomfog_code(BloomfogStyle::Everything) == 1u8,
        bloomfog_code(BloomfogStyle::Nothing) == 2u8,
        bloomfog_of(0u8) == BloomfogStyle::BloomOnly,
        bloomfog_of(1u8) == BloomfogStyle::Everything,
        bloomfog_of(2u8) == BloomfogStyle::Nothing,
{
}

} // verus!
