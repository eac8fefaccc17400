//! The session's two color themes. Each role maps to one packed RGB
//! value per theme; the accent is shared by both.

use vstd::prelude::*;

verus! {

/// The main background color.
pub fn bg(is_dark: bool) -> (r: u32)
    ensures
        r == if is_dark {
            0x000000u32
        } else {
            0xffffffu32
        },
{
    if is_dark {
        0x000000u32
    } else {
        0xffffffu32
    }
}

/// The background of panels beside the main surface.
pub fn bg_secondary(is_dark: bool) -> (r: u32)
    ensures
        r == if is_dark {
            0x0b0b0bu32
        } else {
            0xf5f5f5u32
        },
{
    if is_dark {
        0x0b0b0bu32
    } else {
        0xf5f5f5u32
    }
}

/// The background of a hovered surface.
pub fn bg_hover(is_dark: bool) -> (r: u32)
    ensures
        r == if is_dark {
            0x171717u32
        } else {
            0xe9e9e9u32
        },
{
    if is_dark {
        0x171717u32
    } else {
        0xe9e9e9u32
    }
}

/// The border color.
pub fn border(is_dark: bool) -> (r: u32)
    ensures
        r == if is_dark {
            0x202020u32
        } else {
            0xd9d9d9u32
        },
{
    if is_dark {
        0x202020u32
    } else {
        0xd9d9d9u32
    }
}

/// The main text color.
pub fn text(is_dark: bool) -> (r: u32)
    ensures
        r == if is_dark {
            0xe8e8e8u32
        } else {
            0x111111u32
        },
{
    if is_dark {
        0xe8e8e8u32
    } else {
        0x111111u32
    }
}

/// The muted text color.
pub fn text_muted(is_dark: bool) -> (r: u32)
    ensures
        r == if is_dark {
            0x8b8b8bu32
        } else {
            0x666666u32
        },
{
    if is_dark {
        0x8b8b8bu32
    } else {
        0x666666u32
    }
}

/// The accent color, the same in both themes.
pub fn accent(_is_dark: bool) -> (r: u32)
    ensures
        r == 0xe94560u32,
{
    0xe94560u32
}

/// The selectable icon colors the session offers.
pub fn color_presets() -> (r: Vec<u32>)
    ensures
        r@ == seq![
            0xffffffu32,
            0xe94560u32,
            0xff6b6bu32,
            0xfeca57u32,
            0x48dbfbu32,
            0x1dd1a1u32,
            0x5f27cdu32,
            0x54a0ffu32,
        ],
{
    let mut r: Vec<u32> = Vec::new();
    r.push(0xffffffu32);
    r.push(0xe94560u32);
    r.push(0xff6b6bu32);
    r.push(0xfeca57u32);
    r.push(0x48dbfbu32);
    r.push(0x1dd1a1u32);
    r.push(0x5f27cdu32);
    r.push(0x54a0ffu32);
    proof {
        assert(r@ =~= seq![
            0xffffffu32,
            0xe94560u32,
            0xff6b6bu32,
            0xfeca57u32,
            0x48dbfbu32,
            0x1dd1a1u32,
            0x5f27cdu32,
            0x54a0ffu32,
        ]);
    }
    r
}

} // verus!
