//! The numbers that shape a layout, and the actions that change them.
//!
//! The share of the main area is kept in thousandths, so that `600` stands
//! for six tenths of the screen. Whatever the actions do, it stays between
//! [`RATIO_MIN`] and [`RATIO_MAX`].

use vstd::prelude::*;
use crate::config::Config;

verus! {

/// The smallest share of the screen the main area can have, in thousandths.
pub const RATIO_MIN: u32 = 50;

/// The largest share of the screen the main area can have, in thousandths.
pub const RATIO_MAX: u32 = 950;

/// `v` brought into the range from [`RATIO_MIN`] to [`RATIO_MAX`].
pub open spec fn clamp_ratio(v: int) -> u32 {
    if v < RATIO_MIN {
        RATIO_MIN
    } else if v > RATIO_MAX {
        RATIO_MAX
    } else {
        v as u32
    }
}

/// The parameters of the layout.
#[derive(Clone, Copy, Debug, PartialEq, Eq, Structural)]
pub struct LayoutSpec {
    /// How many windows the main area holds.
    pub max_main: u32,
    /// The share of the screen given to the main area, in thousandths.
    pub ratio: u32,
    /// By how much one resize action changes `ratio`.
    pub ratio_step: u32,
    pub outer_gap: u32,
    pub inner_gap: u32,
    pub top_reserved: u32,
}

impl LayoutSpec {
    /// The share of the main area is within its bounds.
    pub open spec fn wf(self) -> bool {
        RATIO_MIN <= self.ratio <= RATIO_MAX
    }

    pub open spec fn spec_inc_main(self) -> LayoutSpec {
        LayoutSpec {
            max_main: if self.max_main < u32::MAX {
                (self.max_main + 1) as u32
            } else {
                self.max_main
            },
            ..self
        }
    }

    pub open spec fn spec_dec_main(self) -> LayoutSpec {
        LayoutSpec {
            max_main: if self.max_main > 0 {
                (self.max_main - 1) as u32
            } else {
                0
            },
            ..self
        }
    }

    pub open spec fn spec_expand_main(self) -> LayoutSpec {
        LayoutSpec { ratio: clamp_ratio(self.ratio + self.ratio_step), ..self }
    }

    pub open spec fn spec_shrink_main(self) -> LayoutSpec {
        LayoutSpec { ratio: clamp_ratio(self.ratio - self.ratio_step), ..self }
    }

    /// The layout after `times` expansions of the main area.
    pub open spec fn expanded(self, times: nat) -> LayoutSpec
        decreases times,
    {
        if times == 0 {
            self
        } else {
            self.expanded((times - 1) as nat).spec_expand_main()
        }
    }

    /// The layout after `times` reductions of the main area.
    pub open spec fn shrunk(self, times: nat) -> LayoutSpec
        decreases times,
    {
        if times == 0 {
            self
        } else {
            self.shrunk((times - 1) as nat).spec_shrink_main()
        }
    }

    /// A layout with these parameters; a share outside its bounds is
    /// brought to the nearer bound.
    pub fn new(
        max_main: u32,
        ratio: u32,
        ratio_step: u32,
        outer_gap: u32,
        inner_gap: u32,
        top_reserved: u32,
    ) -> (l: Self)
        ensures
            l.wf(),
            l == (LayoutSpec {
                max_main,
                ratio: clamp_ratio(ratio as int),
                ratio_step,
                outer_gap,
                inner_gap,
                top_reserved,
            }),
    {
        let ratio = if ratio < RATIO_MIN {
            RATIO_MIN
        } else if ratio > RATIO_MAX {
            RATIO_MAX
        } else {
            ratio
        };
        LayoutSpec { max_main, ratio, ratio_step, outer_gap, inner_gap, top_reserved }
    }

    /// The layout a configuration asks for.
    pub fn from_config(cfg: &Config) -> (l: Self)
        ensures
            l.wf(),
            l == (LayoutSpec {
                max_main: cfg.max_main,
                ratio: clamp_ratio(cfg.ratio as int),
                ratio_step: cfg.ratio_step,
                outer_gap: cfg.outer_gaps,
                inner_gap: cfg.inner_gaps,
                top_reserved: cfg.top_gaps,
            }),
    {
        Self::new(
            cfg.max_main,
            cfg.ratio,
            cfg.ratio_step,
            cfg.outer_gaps,
            cfg.inner_gaps,
            cfg.top_gaps,
        )
    }

    /// One more window in the main area.
    pub fn inc_main(&mut self)
        ensures
            *final(self) == old(self).spec_inc_main(),
    {
        if self.max_main < u32::MAX {
            self.max_main = self.max_main + 1;
        }
    }

    /// One window fewer in the main area, but never fewer than none.
    pub fn dec_main(&mut self)
        ensures
            *final(self) == old(self).spec_dec_main(),
    {
        if self.max_main > 0 {
            self.max_main = self.max_main - 1;
        }
    }

    /// The main area grows by one step, up to [`RATIO_MAX`].
    pub fn expand_main(&mut self)
        ensures
            *final(self) == old(self).spec_expand_main(),
            final(self).wf(),
    {
        let grown: u64 = self.ratio as u64 + self.ratio_step as u64;
        self.ratio = if grown < RATIO_MIN as u64 {
            RATIO_MIN
        } else if grown > RATIO_MAX as u64 {
            RATIO_MAX
        } else {
            grown as u32
        };
    }

    /// The main area shrinks by one step, down to [`RATIO_MIN`].
    pub fn shrink_main(&mut self)
        ensures
            *final(self) == old(self).spec_shrink_main(),
            final(self).wf(),
    {
        self.ratio = if self.ratio < self.ratio_step || self.ratio - self.ratio_step < RATIO_MIN {
            RATIO_MIN
        } else if self.ratio - self.ratio_step > RATIO_MAX {
            RATIO_MAX
        } else {
            self.ratio - self.ratio_step
        };
    }
}

/// However often the main area is expanded, its share never exceeds
/// [`RATIO_MAX`]; it never falls below [`RATIO_MIN`] either.
pub proof fn lemma_expand_stays_clamped(l: LayoutSpec, times: nat)
    requires
        times >= 1 || l.wf(),
    ensures
        l.expanded(times).wf(),
        l.expanded(times).ratio <= RATIO_MAX,
    decreases times,
{
    if times > 1 {
        lemma_expand_stays_clamped(l, (times - 1) as nat);
    }
}

/// However often the main area is shrunk, its share never falls below
/// [`RATIO_MIN`]; it never exceeds [`RATIO_MAX`] either.
pub proof fn lemma_shrink_stays_clamped(l: LayoutSpec, times: nat)
    requires
        times >= 1 || l.wf(),
    ensures
        l.shrunk(times).wf(),
        l.shrunk(times).ratio >= RATIO_MIN,
    decreases times,
{
    if times > 1 {
        lemma_shrink_stays_clamped(l, (times - 1) as nat);
    }
}

} // verus!
