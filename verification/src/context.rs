//! The colour theme of the application.
use vstd::prelude::*;

verus! {

/// The colour theme.
#[derive(Clone, PartialEq, Eq, Debug, Copy, Structural)]
pub enum Theme {
    Dark,
    Light,
}

/// The other theme.
pub open spec fn toggled(t: Theme) -> Theme {
    match t {
        Theme::Dark => Theme::Light,
        Theme::Light => Theme::Dark,
    }
}

impl Theme {
    /// Whether this is the dark theme.
    pub fn is_dark(&self) -> (b: bool)
        ensures
            b == (*self == Theme::Dark),
    {
        match self {
            Theme::Dark => true,
            Theme::Light => false,
        }
    }

    /// The other theme.
    pub fn toggle(&self) -> (t: Theme)
        ensures
            t == toggled(*self),
    {
        match self {
            Theme::Dark => Theme::Light,
            Theme::Light => Theme::Dark,
        }
    }

    /// The value that belongs to this theme: `dark` for the dark theme,
    /// `light` for the light one.
    pub fn pick<T>(&self, dark: T, light: T) -> (r: T)
        ensures
            r == (if *self == Theme::Dark { dark } else { light }),
    {
        if self.is_dark() {
            dark
        } else {
            light
        }
    }
}

/// Toggling twice gives back the theme, and toggling always changes whether
/// the theme is dark.
pub proof fn law_toggle_involution(t: Theme)
    ensures
        toggled(toggled(t)) == t,
        (toggled(t) == Theme::Dark) == !(t == Theme::Dark),
{
}

} // verus!
