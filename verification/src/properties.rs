//! Properties panel tabs.

use vstd::prelude::*;

verus! {

/// The tabs of the properties panel.
#[derive(Clone, Copy, PartialEq, Eq, Debug, Structural)]
pub enum PropertyTab {
    Properties,
    Filters,
    ColorEffect,
    Display,
}

/// The caption shown on a properties tab.
pub open spec fn property_tab_caption(tab: PropertyTab) -> Seq<char> {
    match tab {
        PropertyTab::Properties => "Properties"@,
        PropertyTab::Filters => "Filters"@,
        PropertyTab::ColorEffect => "Color Effect"@,
        PropertyTab::Display => "Display"@,
    }
}

impl PropertyTab {
    /// The caption of this tab.
    pub fn get_name(&self) -> (name: &'static str)
        ensures
            name@ == property_tab_caption(*self),
    {
        match self {
            PropertyTab::Properties => "Properties",
            PropertyTab::Filters => "Filters",
            PropertyTab::ColorEffect => "Color Effect",
            PropertyTab::Display => "Display",
        }
    }
}

} // verus!
