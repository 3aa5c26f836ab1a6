//! A bar of tabs of which one is selected at a time.

use vstd::prelude::*;

verus! {

/// The tabs of the shell.
#[derive(Clone, Copy, Debug, PartialEq, Eq, Structural)]
pub enum Tab {
    Home,
    Settings,
    Stats,
}

/// The heading of the page behind a tab.
pub open spec fn heading_of(tab: Tab) -> Seq<char> {
    match tab {
        Tab::Home => "Home"@,
        Tab::Settings => "Settings"@,
        Tab::Stats => "Stats"@,
    }
}

/// The style class of the button of `tab` while `active` is selected.
pub open spec fn class_of(active: Tab, tab: Tab) -> Seq<char> {
    if active == tab {
        "tab active"@
    } else {
        "tab"@
    }
}

impl Tab {
    /// The heading of the page behind this tab, which is also the label of
    /// its button.
    pub fn heading(&self) -> (r: &'static str)
        ensures
            r@ == heading_of(*self),
    {
        match self {
            Tab::Home => "Home",
            Tab::Settings => "Settings",
            Tab::Stats => "Stats",
        }
    }
}

/// The bar of tabs: which tab is selected.
#[derive(Clone, Copy, Debug, PartialEq, Eq)]
pub struct TabBar {
    active: Tab,
}

impl View for TabBar {
    type V = Tab;

    /// The tab that is selected.
    closed spec fn view(&self) -> Tab {
        self.active
    }
}

impl TabBar {
    /// A bar with the home tab selected.
    pub fn new() -> (r: TabBar)
        ensures
            r@ == Tab::Home,
    {
        TabBar { active: Tab::Home }
    }

    /// The tab that is selected.
    pub fn active(&self) -> (r: Tab)
        ensures
            r == self@,
    {
        self.active
    }

    /// Selects `tab`.
    pub fn select(&mut self, tab: Tab)
        ensures
            final(self)@ == tab,
    {
        self.active = tab;
    }

    /// The style class of the button of `tab`: that of an active button
    /// for the selected tab, that of a plain one for the others.
    pub fn class(&self, tab: Tab) -> (r: &'static str)
        ensures
            r@ == class_of(self@, tab),
    {
        if self.active == tab {
            "tab active"
        } else {
            "tab"
        }
    }
}

/// The active style marks the selected tab and no other.
pub proof fn lemma_one_tab_is_marked(active: Tab, tab: Tab)
    ensures
        class_of(active, tab) == "tab active"@ <==> tab == active,
{
    reveal_strlit("tab active");
    reveal_strlit("tab");
    if tab != active {
        assert("tab"@.len() != "tab active"@.len());
    }
}

} // verus!
