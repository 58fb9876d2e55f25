//! The theme variant and the choice of the active one.

use vstd::prelude::*;
use crate::text::{lowercase, to_lowercase};

verus! {

/// Theme variant selector.
#[derive(Debug, Clone, Copy, PartialEq, Eq, Structural)]
pub enum ThemeVariant {
    Dark,
    Light,
    System,
}

impl Default for ThemeVariant {
    /// Dark.
    fn default() -> (v: Self)
        ensures
            v == ThemeVariant::Dark,
    {
        ThemeVariant::Dark
    }
}

/// The variant a name selects, compared without case: `light`, `system`,
/// and dark for anything else.
pub open spec fn variant_named(lower: Seq<char>) -> ThemeVariant {
    if lower == "light"@ {
        ThemeVariant::Light
    } else if lower == "system"@ {
        ThemeVariant::System
    } else {
        ThemeVariant::Dark
    }
}

/// The next variant in the cycle dark, light, system.
pub open spec fn next_variant(v: ThemeVariant) -> ThemeVariant {
    match v {
        ThemeVariant::Dark => ThemeVariant::Light,
        ThemeVariant::Light => ThemeVariant::System,
        ThemeVariant::System => ThemeVariant::Dark,
    }
}

/// The variant a toggle switches to: light from dark, dark from light,
/// light from system.
pub open spec fn toggled_variant(v: ThemeVariant) -> ThemeVariant {
    match v {
        ThemeVariant::Dark => ThemeVariant::Light,
        ThemeVariant::Light => ThemeVariant::Dark,
        ThemeVariant::System => ThemeVariant::Light,
    }
}

impl ThemeVariant {
    /// The variant's name.
    pub fn as_str(&self) -> (s: &'static str)
        ensures
            s@ == match *self {
                ThemeVariant::Dark => "dark"@,
                ThemeVariant::Light => "light"@,
                ThemeVariant::System => "system"@,
            },
    {
        match self {
            ThemeVariant::Dark => "dark",
            ThemeVariant::Light => "light",
            ThemeVariant::System => "system",
        }
    }

    /// The variant a name selects, without regard to case; dark for an
    /// unknown name.
    pub fn from_str(s: &str) -> (v: Self)
        ensures
            v == variant_named(lowercase(s@)),
    {
        let lower = to_lowercase(s);
        Self::from_lowercase(lower.as_str())
    }

    /// The variant a lowercase name selects; dark for an unknown name.
    pub fn from_lowercase(lower: &str) -> (v: Self)
        ensures
            v == variant_named(lower@),
    {
        proof {
            reveal_strlit("light");
            reveal_strlit("system");
        }
        if crate::text::same_text(lower, "light") {
            ThemeVariant::Light
        } else if crate::text::same_text(lower, "system") {
            ThemeVariant::System
        } else {
            ThemeVariant::Dark
        }
    }

    /// The next variant in the cycle dark, light, system.
    pub fn cycle(&self) -> (v: Self)
        ensures
            v == next_variant(*self),
    {
        match self {
            ThemeVariant::Dark => ThemeVariant::Light,
            ThemeVariant::Light => ThemeVariant::System,
            ThemeVariant::System => ThemeVariant::Dark,
        }
    }
}

/// The active theme variant.
#[derive(Debug, Clone, Copy)]
pub struct ThemeState {
    variant: ThemeVariant,
}

impl ThemeState {
    /// The active variant.
    pub closed spec fn active(&self) -> ThemeVariant {
        self.variant
    }

    /// Dark, as the application starts.
    pub fn new() -> (s: Self)
        ensures
            s.active() == ThemeVariant::Dark,
    {
        ThemeState { variant: ThemeVariant::Dark }
    }

    /// The active variant.
    pub fn current_variant(&self) -> (v: ThemeVariant)
        ensures
            v == self.active(),
    {
        self.variant
    }

    /// Make `variant` the active one.
    pub fn set_theme(&mut self, variant: ThemeVariant)
        ensures
            final(self).active() == variant,
    {
        self.variant = variant;
    }

    /// Toggle between light and dark (system goes to light).
    pub fn toggle_theme(&mut self)
        ensures
            final(self).active() == toggled_variant(old(self).active()),
    {
        let next = match self.variant {
            ThemeVariant::Dark => ThemeVariant::Light,
            ThemeVariant::Light => ThemeVariant::Dark,
            ThemeVariant::System => ThemeVariant::Light,
        };
        self.set_theme(next);
    }

    /// Move to the next variant in the cycle.
    pub fn cycle_theme(&mut self)
        ensures
            final(self).active() == next_variant(old(self).active()),
    {
        let next = self.variant.cycle();
        self.set_theme(next);
    }
}

impl Default for ThemeState {
    /// Dark.
    fn default() -> (s: Self)
        ensures
            s.active() == ThemeVariant::Dark,
    {
        Self::new()
    }
}

/// Toggling twice from dark or light comes back to the same variant.
pub proof fn law_toggle_twice_returns(v: ThemeVariant)
    requires
        v != ThemeVariant::System,
    ensures
        toggled_variant(toggled_variant(v)) == v,
{
}

/// Three steps of the cycle come back to the same variant.
pub proof fn law_cycle_has_period_three(v: ThemeVariant)
    ensures
        next_variant(next_variant(next_variant(v))) == v,
{
}

} // verus!
