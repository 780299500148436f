//! Length tiers: how a declared maximum size selects the width of a length
//! prefix and the capacity class of a bounded text.

use crate::encoding::le::{le_bytes, le_value};
use amplify::num::u24;
use vstd::prelude::*;

verus! {

/// The width of a length prefix.
#[derive(PartialEq, Eq, Copy, Clone, Debug, Structural)]
pub enum LenTier {
    /// One byte.
    U8,
    /// Two bytes.
    U16,
    /// Three bytes.
    U24,
    /// Four bytes.
    U32,
}

impl LenTier {
    /// The number of bytes of the prefix.
    pub open spec fn spec_width(self) -> nat {
        match self {
            LenTier::U8 => 1,
            LenTier::U16 => 2,
            LenTier::U24 => 3,
            LenTier::U32 => 4,
        }
    }

    /// The number of bytes of the prefix.
    pub fn width(self) -> (w: usize)
        ensures
            w == self.spec_width(),
    {
        match self {
            LenTier::U8 => 1,
            LenTier::U16 => 2,
            LenTier::U24 => 3,
            LenTier::U32 => 4,
        }
    }
}

/// The tier of a collection declared with at most `max_len` items. A maximum
/// of 4294967295 or more has no tier: such a collection must not exist.
pub open spec fn spec_len_tier(max_len: nat) -> Option<LenTier> {
    if max_len <= 255 {
        Some(LenTier::U8)
    } else if max_len < 65535 {
        Some(LenTier::U16)
    } else if max_len < 16777215 {
        Some(LenTier::U24)
    } else if max_len < 4294967295 {
        Some(LenTier::U32)
    } else {
        None
    }
}

/// The number of bytes in which the length of a collection declared with at
/// most `max_len` items is read: that of its tier, and eight where it has none.
pub open spec fn spec_len_width(max_len: nat) -> nat {
    match spec_len_tier(max_len) {
        Some(tier) => tier.spec_width(),
        None => 8,
    }
}

/// `amplify::num::u24::MAX`, as `u24::into_u64` gives it. Trusted: it is 16777215.
#[verifier::external_body]
fn u24_max() -> (max: u64)
    ensures
        max == 0xFF_FFFF,
{
    u24::MAX.into_u64()
}

/// The three bytes of a 24-bit number, least significant first, through
/// `u24::with` and `u24::to_le_bytes`. Trusted: `with` takes any value up to
/// 16777215, and the bytes are those of that value.
#[verifier::external_body]
pub(crate) fn u24_to_le_bytes(value: u32) -> (bytes: [u8; 3])
    requires
        value <= 0xFF_FFFF,
    ensures
        bytes@ == le_bytes(value as nat, 3),
{
    u24::with(value).to_le_bytes()
}

/// The number that three bytes spell, least significant first, through
/// `u24::from_le_bytes` and `u24::into_u32`. Trusted: the result is that number.
#[verifier::external_body]
pub(crate) fn u24_from_le_bytes(bytes: [u8; 3]) -> (value: u32)
    ensures
        value == le_value(bytes@),
{
    u24::from_le_bytes(bytes).into_u32()
}

/// Selects the tier of a collection declared with at most `max_len` items.
pub fn len_tier(max_len: u64) -> (tier: Option<LenTier>)
    ensures
        tier == spec_len_tier(max_len as nat),
        tier == Some(LenTier::U8) <==> max_len <= 255,
        tier == Some(LenTier::U16) <==> 255 < max_len < 65535,
        tier == Some(LenTier::U24) <==> 65535 <= max_len < 16777215,
        tier == Some(LenTier::U32) <==> 16777215 <= max_len < 4294967295,
        tier is None <==> max_len >= 4294967295,
{
    if max_len <= u8::MAX as u64 {
        Some(LenTier::U8)
    } else if max_len < u16::MAX as u64 {
        Some(LenTier::U16)
    } else if max_len < u24_max() {
        Some(LenTier::U24)
    } else if max_len < u32::MAX as u64 {
        Some(LenTier::U32)
    } else {
        None
    }
}

/// The number of bytes in which the length of a collection declared with at
/// most `max_len` items is read.
pub fn len_width(max_len: u64) -> (width: usize)
    ensures
        width == spec_len_width(max_len as nat),
        width == 1 || width == 2 || width == 3 || width == 4 || width == 8,
{
    match len_tier(max_len) {
        Some(tier) => tier.width(),
        None => 8,
    }
}

/// The capacity class of a bounded text.
#[derive(PartialEq, Eq, Copy, Clone, Debug, Structural)]
pub enum TextTier {
    /// Up to 255 bytes.
    Tiny,
    /// Up to 65535 bytes.
    Small,
    /// Up to 16777215 bytes.
    Medium,
    /// Up to 4294967295 bytes.
    Large,
}

impl TextTier {
    /// The largest number of bytes that a text of this class holds.
    pub open spec fn spec_capacity(self) -> nat {
        match self {
            TextTier::Tiny => 255,
            TextTier::Small => 65535,
            TextTier::Medium => 16777215,
            TextTier::Large => 4294967295,
        }
    }

    /// The largest number of bytes that a text of this class holds.
    pub fn capacity(self) -> (max: u64)
        ensures
            max == self.spec_capacity(),
    {
        match self {
            TextTier::Tiny => u8::MAX as u64,
            TextTier::Small => u16::MAX as u64,
            TextTier::Medium => u24_max(),
            TextTier::Large => u32::MAX as u64,
        }
    }
}

/// The smallest capacity class that holds a text declared with at most
/// `max_len` bytes; none where the maximum is above 4294967295.
pub open spec fn spec_text_tier(max_len: nat) -> Option<TextTier> {
    if max_len <= 255 {
        Some(TextTier::Tiny)
    } else if max_len <= 65535 {
        Some(TextTier::Small)
    } else if max_len <= 16777215 {
        Some(TextTier::Medium)
    } else if max_len <= 4294967295 {
        Some(TextTier::Large)
    } else {
        None
    }
}

/// Selects the capacity class of a text declared with at most `max_len` bytes.
pub fn text_tier(max_len: u64) -> (tier: Option<TextTier>)
    ensures
        tier == spec_text_tier(max_len as nat),
        tier is Some ==> max_len <= tier->Some_0.spec_capacity(),
        tier is None <==> max_len > 4294967295,
{
    if max_len <= u8::MAX as u64 {
        Some(TextTier::Tiny)
    } else if max_len <= u16::MAX as u64 {
        Some(TextTier::Small)
    } else if max_len <= u24_max() {
        Some(TextTier::Medium)
    } else if max_len <= u32::MAX as u64 {
        Some(TextTier::Large)
    } else {
        None
    }
}

} // verus!
