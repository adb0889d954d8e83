//! The tab that a tabbed screen shows.

use vstd::prelude::*;

verus! {

/// One of the four tabs, in their order on the screen.
#[derive(Debug, Clone, Copy, PartialEq, Eq, Structural)]
pub enum SelectedTab {
    Tab1,
    Tab2,
    Tab3,
    Tab4,
}

impl SelectedTab {
    /// The place of the tab among the four, counted from zero.
    pub open spec fn position(self) -> int {
        match self {
            SelectedTab::Tab1 => 0,
            SelectedTab::Tab2 => 1,
            SelectedTab::Tab3 => 2,
            SelectedTab::Tab4 => 3,
        }
    }

    /// The tab to the right, or the tab itself where it is the last.
    pub open spec fn to_right(self) -> SelectedTab {
        match self {
            SelectedTab::Tab1 => SelectedTab::Tab2,
            SelectedTab::Tab2 => SelectedTab::Tab3,
            SelectedTab::Tab3 => SelectedTab::Tab4,
            SelectedTab::Tab4 => SelectedTab::Tab4,
        }
    }

    /// The tab to the left, or the tab itself where it is the first.
    pub open spec fn to_left(self) -> SelectedTab {
        match self {
            SelectedTab::Tab1 => SelectedTab::Tab1,
            SelectedTab::Tab2 => SelectedTab::Tab1,
            SelectedTab::Tab3 => SelectedTab::Tab2,
            SelectedTab::Tab4 => SelectedTab::Tab3,
        }
    }

    /// The name of the tab as the screen shows it.
    pub open spec fn name(self) -> Seq<char> {
        match self {
            SelectedTab::Tab1 => "Tab 1"@,
            SelectedTab::Tab2 => "Tab 2"@,
            SelectedTab::Tab3 => "Tab 3"@,
            SelectedTab::Tab4 => "Tab 4"@,
        }
    }

    /// The place of the tab among the four, counted from zero.
    pub fn index(self) -> (i: usize)
        ensures
            i as int == self.position(),
    {
        match self {
            SelectedTab::Tab1 => 0,
            SelectedTab::Tab2 => 1,
            SelectedTab::Tab3 => 2,
            SelectedTab::Tab4 => 3,
        }
    }

    /// The tab at place `index`, if there is one.
    pub fn from_repr(index: usize) -> (tab: Option<SelectedTab>)
        ensures
            match tab {
                Some(t) => t.position() == index,
                None => index >= 4,
            },
    {
        match index {
            0 => Some(SelectedTab::Tab1),
            1 => Some(SelectedTab::Tab2),
            2 => Some(SelectedTab::Tab3),
            3 => Some(SelectedTab::Tab4),
            _ => None,
        }
    }

    /// The tab to the left, or the tab itself where it is the first.
    pub fn previous(self) -> (tab: SelectedTab)
        ensures
            tab == self.to_left(),
            tab.position() == if self.position() == 0 {
                0
            } else {
                self.position() - 1
            },
    {
        let current_index: usize = self.index();
        let previous_index: usize = current_index.saturating_sub(1);
        match SelectedTab::from_repr(previous_index) {
            Some(tab) => tab,
            None => self,
        }
    }

    /// The tab to the right, or the tab itself where it is the last.
    pub fn next(self) -> (tab: SelectedTab)
        ensures
            tab == self.to_right(),
            tab.position() == if self.position() == 3 {
                3
            } else {
                self.position() + 1
            },
    {
        let current_index: usize = self.index();
        let next_index: usize = current_index.saturating_add(1);
        match SelectedTab::from_repr(next_index) {
            Some(tab) => tab,
            None => self,
        }
    }

    /// The name of the tab as the screen shows it.
    pub fn title(self) -> (s: String)
        ensures
            s@ == self.name(),
    {
        match self {
            SelectedTab::Tab1 => "Tab 1".to_owned(),
            SelectedTab::Tab2 => "Tab 2".to_owned(),
            SelectedTab::Tab3 => "Tab 3".to_owned(),
            SelectedTab::Tab4 => "Tab 4".to_owned(),
        }
    }

    /// The four tabs, from left to right.
    pub fn all() -> (tabs: Vec<SelectedTab>)
        ensures
            tabs@ =~= seq![
                SelectedTab::Tab1,
                SelectedTab::Tab2,
                SelectedTab::Tab3,
                SelectedTab::Tab4,
            ],
    {
        vec![SelectedTab::Tab1, SelectedTab::Tab2, SelectedTab::Tab3, SelectedTab::Tab4]
    }
}

impl Default for SelectedTab {
    fn default() -> (tab: SelectedTab)
        ensures
            tab == SelectedTab::Tab1,
    {
        SelectedTab::Tab1
    }
}

/// Going right and then left comes back to the tab, unless it is the last;
/// going left and then right comes back to it, unless it is the first. No
/// step leaves the four tabs or skips one.
pub proof fn law_left_undoes_right(tab: SelectedTab)
    ensures
        !(tab is Tab4) ==> tab.to_right().to_left() == tab,
        !(tab is Tab1) ==> tab.to_left().to_right() == tab,
        tab.to_right().position() == if tab.position() == 3 {
            3
        } else {
            tab.position() + 1
        },
        tab.to_left().position() == if tab.position() == 0 {
            0
        } else {
            tab.position() - 1
        },
{
}

} // verus!
