//! Icon styling: the five size presets, the icon component model with its
//! builder methods, and the resolver that turns requested attributes and
//! host defaults into the final rendering color and pixel size.
//!
//! Pixel and rem magnitudes are carried as integers: a rem is split into
//! thousandths, which states every preset tier exactly.

use vstd::prelude::*;
use vstd::string::*;

verus! {

/// The five named size tiers, used when no explicit pixel size is given.
#[derive(Debug, Clone, Copy, PartialEq, Eq, Structural, Hash)]
pub enum IconSize {
    XSmall,
    Small,
    Medium,
    Large,
    XLarge,
}

/// The relative unit of a tier, in thousandths of the host's base unit.
pub open spec fn rem_thousandths(size: IconSize) -> u32 {
    match size {
        IconSize::XSmall => 750,
        IconSize::Small => 875,
        IconSize::Medium => 1000,
        IconSize::Large => 1500,
        IconSize::XLarge => 2000,
    }
}

/// The position of a tier in the ordered scale.
pub open spec fn tier_rank(size: IconSize) -> int {
    match size {
        IconSize::XSmall => 0,
        IconSize::Small => 1,
        IconSize::Medium => 2,
        IconSize::Large => 3,
        IconSize::XLarge => 4,
    }
}

impl IconSize {
    /// The relative unit of this tier, in thousandths of the host's base
    /// unit: three quarters, seven eighths, one, one and a half, two.
    pub fn to_rem_thousandths(self) -> (r: u32)
        ensures
            r == rem_thousandths(self),
    {
        match self {
            IconSize::XSmall => 750,
            IconSize::Small => 875,
            IconSize::Medium => 1000,
            IconSize::Large => 1500,
            IconSize::XLarge => 2000,
        }
    }

    /// Every preset, smallest tier first.
    pub fn all_presets() -> (r: Vec<IconSize>)
        ensures
            r@ == seq![
                IconSize::XSmall,
                IconSize::Small,
                IconSize::Medium,
                IconSize::Large,
                IconSize::XLarge,
            ],
    {
        let mut r: Vec<IconSize> = Vec::new();
        r.push(IconSize::XSmall);
        r.push(IconSize::Small);
        r.push(IconSize::Medium);
        r.push(IconSize::Large);
        r.push(IconSize::XLarge);
        proof {
            assert(r@ =~= seq![
                IconSize::XSmall,
                IconSize::Small,
                IconSize::Medium,
                IconSize::Large,
                IconSize::XLarge,
            ]);
        }
        r
    }
}

/// Law: the tier scale is monotonically increasing; a strictly higher
/// tier always maps to a strictly larger relative unit.
pub proof fn lemma_size_tiers_increase(a: IconSize, b: IconSize)
    requires
        tier_rank(a) < tier_rank(b),
    ensures
        rem_thousandths(a) < rem_thousandths(b),
{
}

/// A type that can name the asset path an icon renders from. Implement
/// it to plug a custom icon set into [`Icon`].
pub trait IconNamed {
    /// The asset path of this icon.
    fn path(&self) -> String;
}

/// An icon component: the asset path to render plus the requested style
/// attributes. Constructed per render; never persisted.
pub struct Icon {
    pub path: String,
    pub color: Option<u32>,
    pub size: Option<IconSize>,
    pub rotation_degrees: u32,
}

impl Default for Icon {
    /// An icon with no path and no requested attributes.
    fn default() -> (r: Self)
        ensures
            r.path@ == Seq::<char>::empty(),
            r.color is None,
            r.size is None,
            r.rotation_degrees == 0,
    {
        Icon { path: String::new(), color: None, size: None, rotation_degrees: 0 }
    }
}

impl Clone for Icon {
    /// Cloning keeps the whole configuration.
    fn clone(&self) -> (r: Self)
        ensures
            r.path@ == self.path@,
            r.color == self.color,
            r.size == self.size,
            r.rotation_degrees == self.rotation_degrees,
    {
        Icon {
            path: self.path.clone(),
            color: self.color,
            size: self.size,
            rotation_degrees: self.rotation_degrees,
        }
    }
}

impl Icon {
    /// An icon rendering the named icon's asset.
    pub fn new<T: IconNamed>(icon: T) -> (r: Self)
        ensures
            r.color is None,
            r.size is None,
            r.rotation_degrees == 0,
    {
        Self::from_path(icon.path())
    }

    /// An icon rendering the asset at the given path.
    pub fn from_path(path: String) -> (r: Self)
        ensures
            r.path@ == path@,
            r.color is None,
            r.size is None,
            r.rotation_degrees == 0,
    {
        Icon { path, color: None, size: None, rotation_degrees: 0 }
    }

    /// Replaces the asset path.
    pub fn path(self, path: String) -> (r: Self)
        ensures
            r.path@ == path@,
            r.color == self.color,
            r.size == self.size,
            r.rotation_degrees == self.rotation_degrees,
    {
        Icon { path, ..self }
    }

    /// Requests an explicit color.
    pub fn color(self, color: u32) -> (r: Self)
        ensures
            r.path@ == self.path@,
            r.color == Some(color),
            r.size == self.size,
            r.rotation_degrees == self.rotation_degrees,
    {
        Icon { color: Some(color), ..self }
    }

    /// Requests a preset size tier.
    pub fn with_size(self, size: IconSize) -> (r: Self)
        ensures
            r.path@ == self.path@,
            r.color == self.color,
            r.size == Some(size),
            r.rotation_degrees == self.rotation_degrees,
    {
        Icon { size: Some(size), ..self }
    }

    /// Requests a rotation, in whole degrees.
    pub fn rotate(self, degrees: u32) -> (r: Self)
        ensures
            r.path@ == self.path@,
            r.color == self.color,
            r.size == self.size,
            r.rotation_degrees == degrees,
    {
        Icon { rotation_degrees: degrees, ..self }
    }
}

/// The final display attributes of one icon.
pub struct ResolvedStyle {
    pub color: u32,
    pub size_px: u32,
}

/// The resolved pixel size: an explicit pixel override wins outright;
/// otherwise a preset tier scales the host's base unit; otherwise the
/// host's ambient text size stands.
pub open spec fn spec_resolve_size(
    explicit_px: Option<u32>,
    preset: Option<IconSize>,
    host_text_px: u32,
    rem_px: u32,
) -> int {
    match explicit_px {
        Some(px) => px as int,
        None => match preset {
            Some(p) => rem_thousandths(p) * rem_px / 1000,
            None => host_text_px as int,
        },
    }
}

/// Resolves requested attributes and host defaults into final display
/// attributes. An explicit color wins over the host's default color.
pub fn resolve_style(
    explicit_color: Option<u32>,
    explicit_px: Option<u32>,
    preset: Option<IconSize>,
    host_color: u32,
    host_text_px: u32,
    rem_px: u32,
) -> (r: ResolvedStyle)
    requires
        rem_px <= u32::MAX / 2,
    ensures
        r.color == (match explicit_color {
            Some(c) => c,
            None => host_color,
        }),
        r.size_px == spec_resolve_size(explicit_px, preset, host_text_px, rem_px),
{
    let color = match explicit_color {
        Some(c) => c,
        None => host_color,
    };
    let size_px = match explicit_px {
        Some(px) => px,
        None => match preset {
            Some(p) => {
                let thousandths = p.to_rem_thousandths();
                proof {
                    assert(thousandths <= 2000);
                    assert(thousandths as int * rem_px as int <= 2000 * (u32::MAX / 2) as int)
                        by (nonlinear_arith)
                        requires
                            thousandths <= 2000,
                            rem_px <= u32::MAX / 2,
                    ;
                    vstd::arithmetic::div_mod::lemma_div_is_ordered(
                        thousandths as int * rem_px as int,
                        2000 * (u32::MAX / 2) as int,
                        1000,
                    );
                }
                ((thousandths as u64) * (rem_px as u64) / 1000) as u32
            },
            None => host_text_px,
        },
    };
    ResolvedStyle { color, size_px }
}

/// The rotation angles the session offers, in degrees.
pub fn rotation_presets() -> (r: Vec<u32>)
    ensures
        r@ == seq![0u32, 45u32, 90u32, 180u32, 270u32],
{
    let mut r: Vec<u32> = Vec::new();
    r.push(0);
    r.push(45);
    r.push(90);
    r.push(180);
    r.push(270);
    proof {
        assert(r@ =~= seq![0u32, 45u32, 90u32, 180u32, 270u32]);
    }
    r
}

/// Shortens a long canonical name for a card label: a name longer than
/// ten characters keeps its first eight, followed by an ellipsis.
pub fn truncate_name(name: &str) -> (r: String)
    ensures
        name@.len() > 10 ==> r@ == name@.subrange(0, 8) + "..."@,
        name@.len() <= 10 ==> r@ == name@,
{
    let n = name.unicode_len();
    if n > 10 {
        let head = name.substring_char(0, 8);
        let mut out = String::new();
        out.append(head);
        out.append("...");
        assert(out@ =~= name@.subrange(0, 8) + "..."@);
        out
    } else {
        let mut out = String::new();
        out.append(name);
        assert(out@ =~= name@);
        out
    }
}

} // verus!
