//! A verified core for an icon browser: a closed catalog of named vector
//! assets, a case-insensitive search filter, a responsive grid layout,
//! a virtualized row window, and the mutable session state that ties the
//! pieces together. Rendering, file access and event dispatch are left to
//! the host; everything here is pure computation over plain values.

pub mod catalog;
pub mod filter;
pub mod layout;
pub mod state;
pub mod style;
pub mod text;
pub mod theme;
pub mod window;
