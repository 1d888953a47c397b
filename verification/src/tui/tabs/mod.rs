//! The tabs.

pub mod config_tab;
pub mod operate_tab;

use vstd::prelude::*;

verus! {

/// A tab of the interface.
#[derive(Debug, Clone, Copy, PartialEq, Eq, Structural)]
pub enum TabId {
    Config,
    Operate,
    Checkout,
}

impl TabId {
    /// The tabs from left to right.
    pub const ALL: [TabId; 3] = [TabId::Config, TabId::Operate, TabId::Checkout];

    /// The text on the tab bar.
    pub open spec fn spec_label(self) -> Seq<char> {
        match self {
            TabId::Config => "1:Config"@,
            TabId::Operate => "2:Operate"@,
            TabId::Checkout => "3:Checkout"@,
        }
    }

    /// The tab to the right; behind the last comes the first.
    pub open spec fn spec_next(self) -> TabId {
        match self {
            TabId::Config => TabId::Operate,
            TabId::Operate => TabId::Checkout,
            TabId::Checkout => TabId::Config,
        }
    }

    /// The tab to the left; before the first comes the last.
    pub open spec fn spec_prev(self) -> TabId {
        match self {
            TabId::Config => TabId::Checkout,
            TabId::Operate => TabId::Config,
            TabId::Checkout => TabId::Operate,
        }
    }

    /// The text on the tab bar.
    pub fn label(self) -> (r: &'static str)
        ensures
            r@ == self.spec_label(),
    {
        match self {
            TabId::Config => "1:Config",
            TabId::Operate => "2:Operate",
            TabId::Checkout => "3:Checkout",
        }
    }

    /// The tab to the right; behind the last comes the first.
    pub fn next(self) -> (r: TabId)
        ensures
            r == self.spec_next(),
    {
        match self {
            TabId::Config => TabId::Operate,
            TabId::Operate => TabId::Checkout,
            TabId::Checkout => TabId::Config,
        }
    }

    /// The tab to the left; before the first comes the last.
    pub fn prev(self) -> (r: TabId)
        ensures
            r == self.spec_prev(),
    {
        match self {
            TabId::Config => TabId::Checkout,
            TabId::Operate => TabId::Config,
            TabId::Checkout => TabId::Operate,
        }
    }
}

/// The list of the tabs holds each of them, in the order in which one follows the
/// other.
pub proof fn all_tabs_are_listed(t: TabId)
    ensures
        TabId::ALL@.contains(t),
        TabId::ALL@.no_duplicates(),
        TabId::ALL@[0].spec_next() == TabId::ALL@[1],
        TabId::ALL@[1].spec_next() == TabId::ALL@[2],
        TabId::ALL@[2].spec_next() == TabId::ALL@[0],
{
    assert(TabId::ALL@[0] == TabId::Config);
    assert(TabId::ALL@[1] == TabId::Operate);
    assert(TabId::ALL@[2] == TabId::Checkout);
}

/// Going to the next tab and back, or the other way round, ends where it began;
/// three steps go all the way round.
pub proof fn tabs_form_a_ring(t: TabId)
    ensures
        t.spec_next().spec_prev() == t,
        t.spec_prev().spec_next() == t,
        t.spec_next().spec_next().spec_next() == t,
{
}

} // verus!
