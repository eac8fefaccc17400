//! The mutable session state of the browser: the query and its derived
//! filtered identifier list, the hovered identifier, and the chosen style
//! axes. State changes go through the mutators here and nowhere else;
//! each mutator commits its change and then counts one notification for
//! the host's observers.
//!
//! The session invariant: a hovered identifier is always a member of the
//! current filtered list. Changing the query re-derives the filtered
//! list first and only then validates the hover against it — validating
//! first would test against the stale list.

use vstd::prelude::*;
use crate::catalog::{IconCatalog, IconId};
use crate::filter::{filter_icons, spec_filter};
use crate::style::IconSize;

verus! {

/// Decides membership of an identifier in a filtered list.
pub fn contains_id(v: &Vec<IconId>, id: IconId) -> (r: bool)
    ensures
        r == v@.contains(id),
{
    let mut i: usize = 0;
    while i < v.len()
        invariant
            i <= v@.len(),
            forall|k: int| 0 <= k < i ==> v@[k] != id,
        decreases v@.len() - i,
    {
        if v[i].index == id.index {
            assert(v@[i as int] == id);
            return true;
        }
        i += 1;
    }
    false
}

/// One interactive session. Owned by the single UI thread; every
/// mutation is synchronous.
pub struct BrowserState {
    pub query: String,
    pub filtered: Vec<IconId>,
    pub hovered: Option<IconId>,
    pub is_dark: bool,
    pub selected_color: u32,
    pub selected_size: IconSize,
    pub rotation_degrees: u32,
    /// How many notifications the session has issued: one per committed
    /// mutation, issued after the change, never before.
    pub notify_count: u64,
}

impl BrowserState {
    /// The session invariant against its catalog: the filtered list is
    /// exactly what the current query selects, and a hovered identifier
    /// is a member of that list.
    pub open spec fn wf(&self, catalog: &IconCatalog) -> bool {
        &&& self.filtered@ == spec_filter(catalog.names(), self.query@)
        &&& match self.hovered {
            Some(h) => self.filtered@.contains(h),
            None => true,
        }
    }

    /// A fresh session over the catalog: empty query, whole catalog
    /// filtered in, nothing hovered, dark theme, white at the large tier
    /// with no rotation.
    pub fn new(catalog: &IconCatalog) -> (r: Self)
        ensures
            r.wf(catalog),
            r.query@ == Seq::<char>::empty(),
            r.filtered@ == spec_filter(catalog.names(), Seq::<char>::empty()),
            r.hovered is None,
            r.is_dark == true,
            r.selected_color == 0xffffffu32,
            r.selected_size == IconSize::Large,
            r.rotation_degrees == 0,
            r.notify_count == 0,
    {
        proof {
            reveal_strlit("");
            assert(""@ =~= Seq::<char>::empty());
        }
        let filtered = filter_icons("", catalog);
        BrowserState {
            query: String::new(),
            filtered,
            hovered: None,
            is_dark: true,
            selected_color: 0xffffff,
            selected_size: IconSize::Large,
            rotation_degrees: 0,
            notify_count: 0,
        }
    }

    /// Replaces the query: the filtered list is re-derived first, and a
    /// hovered identifier that the new list no longer contains is then
    /// cleared; one that it still contains is left untouched.
    pub fn set_query(&mut self, query: String, catalog: &IconCatalog)
        requires
            old(self).notify_count < u64::MAX,
        ensures
            final(self).query@ == query@,
            final(self).filtered@ == spec_filter(catalog.names(), query@),
            final(self).hovered == match old(self).hovered {
                Some(h) => if spec_filter(catalog.names(), query@).contains(h) {
                    Some(h)
                } else {
                    None::<IconId>
                },
                None => None::<IconId>,
            },
            final(self).wf(catalog),
            final(self).is_dark == old(self).is_dark,
            final(self).selected_color == old(self).selected_color,
            final(self).selected_size == old(self).selected_size,
            final(self).rotation_degrees == old(self).rotation_degrees,
            final(self).notify_count == old(self).notify_count + 1,
    {
        self.filtered = filter_icons(query.as_str(), catalog);
        self.query = query;
        let keep = match self.hovered {
            Some(h) => contains_id(&self.filtered, h),
            None => false,
        };
        if !keep {
            self.hovered = None;
        }
        self.notify_count = self.notify_count + 1;
    }

    /// Sets or clears the hovered identifier. Callers hand in an
    /// identifier drawn from the current filtered list, or nothing.
    pub fn set_hovered(&mut self, hovered: Option<IconId>)
        requires
            old(self).notify_count < u64::MAX,
            match hovered {
                Some(h) => old(self).filtered@.contains(h),
                None => true,
            },
        ensures
            final(self).hovered == hovered,
            final(self).query@ == old(self).query@,
            final(self).filtered@ == old(self).filtered@,
            final(self).is_dark == old(self).is_dark,
            final(self).selected_color == old(self).selected_color,
            final(self).selected_size == old(self).selected_size,
            final(self).rotation_degrees == old(self).rotation_degrees,
            final(self).notify_count == old(self).notify_count + 1,
    {
        self.hovered = hovered;
        self.notify_count = self.notify_count + 1;
    }

    /// Chooses the icon color.
    pub fn set_color(&mut self, color: u32)
        requires
            old(self).notify_count < u64::MAX,
        ensures
            final(self).selected_color == color,
            final(self).query@ == old(self).query@,
            final(self).filtered@ == old(self).filtered@,
            final(self).hovered == old(self).hovered,
            final(self).is_dark == old(self).is_dark,
            final(self).selected_size == old(self).selected_size,
            final(self).rotation_degrees == old(self).rotation_degrees,
            final(self).notify_count == old(self).notify_count + 1,
    {
        self.selected_color = color;
        self.notify_count = self.notify_count + 1;
    }

    /// Chooses the size tier.
    pub fn set_size(&mut self, size: IconSize)
        requires
            old(self).notify_count < u64::MAX,
        ensures
            final(self).selected_size == size,
            final(self).query@ == old(self).query@,
            final(self).filtered@ == old(self).filtered@,
            final(self).hovered == old(self).hovered,
            final(self).is_dark == old(self).is_dark,
            final(self).selected_color == old(self).selected_color,
            final(self).rotation_degrees == old(self).rotation_degrees,
            final(self).notify_count == old(self).notify_count + 1,
    {
        self.selected_size = size;
        self.notify_count = self.notify_count + 1;
    }

    /// Chooses the rotation, in whole degrees.
    pub fn set_rotation(&mut self, degrees: u32)
        requires
            old(self).notify_count < u64::MAX,
        ensures
            final(self).rotation_degrees == degrees,
            final(self).query@ == old(self).query@,
            final(self).filtered@ == old(self).filtered@,
            final(self).hovered == old(self).hovered,
            final(self).is_dark == old(self).is_dark,
            final(self).selected_color == old(self).selected_color,
            final(self).selected_size == old(self).selected_size,
            final(self).notify_count == old(self).notify_count + 1,
    {
        self.rotation_degrees = degrees;
        self.notify_count = self.notify_count + 1;
    }

    /// Switches between the dark and the light theme.
    pub fn toggle_theme(&mut self)
        requires
            old(self).notify_count < u64::MAX,
        ensures
            final(self).is_dark == !old(self).is_dark,
            final(self).query@ == old(self).query@,
            final(self).filtered@ == old(self).filtered@,
            final(self).hovered == old(self).hovered,
            final(self).selected_color == old(self).selected_color,
            final(self).selected_size == old(self).selected_size,
            final(self).rotation_degrees == old(self).rotation_degrees,
            final(self).notify_count == old(self).notify_count + 1,
    {
        self.is_dark = !self.is_dark;
        self.notify_count = self.notify_count + 1;
    }

    /// The color icons render with: the chosen color on the dark theme,
    /// black on the light theme.
    pub fn icon_render_color(&self) -> (r: u32)
        ensures
            r == if self.is_dark {
                self.selected_color
            } else {
                0u32
            },
    {
        if self.is_dark {
            self.selected_color
        } else {
            0x000000
        }
    }

    /// The icon the preview pane shows: the hovered identifier, or the
    /// given fallback while nothing is hovered.
    pub fn preview_icon(&self, fallback: IconId) -> (r: IconId)
        ensures
            r == match self.hovered {
                Some(h) => h,
                None => fallback,
            },
    {
        match self.hovered {
            Some(h) => h,
            None => fallback,
        }
    }
}

} // verus!
