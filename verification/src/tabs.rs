//! The fixed tab strip and its cursor.

use vstd::prelude::*;

verus! {

/// The reader's top-level tabs.
#[derive(Debug, Clone, Copy, PartialEq, Eq, Structural)]
pub enum Tab {
    FreshFeed,
    Category,
    Favourite,
    ReadLater,
    Archived,
    FeedManager,
}

impl Tab {
    /// The tab's display title.
    pub open spec fn spec_title(self) -> Seq<char> {
        match self {
            Tab::FreshFeed => "Fresh"@,
            Tab::Category => "Category"@,
            Tab::Favourite => "Favourite"@,
            Tab::ReadLater => "Read Later"@,
            Tab::Archived => "Archived"@,
            Tab::FeedManager => "Feeds"@,
        }
    }

    /// The tab's display title.
    pub fn title(&self) -> (r: String)
        ensures
            r@ == self.spec_title(),
    {
        match self {
            Tab::FreshFeed => "Fresh".to_owned(),
            Tab::Category => "Category".to_owned(),
            Tab::Favourite => "Favourite".to_owned(),
            Tab::ReadLater => "Read Later".to_owned(),
            Tab::Archived => "Archived".to_owned(),
            Tab::FeedManager => "Feeds".to_owned(),
        }
    }

    /// The tab's glyph.
    pub fn icon(&self) -> (r: &'static str) {
        match self {
            Tab::FreshFeed => "\u{f0238} ",
            Tab::Category => "\u{f0ede} ",
            Tab::Favourite => "\u{f00c0} ",
            Tab::ReadLater => "\u{f00f0} ",
            Tab::Archived => "\u{f01a7} ",
            Tab::FeedManager => "\u{f046b} ",
        }
    }
}

/// The tab strip: a fixed tab list and the active tab's index.
pub struct TabState {
    pub tabs: Vec<Tab>,
    pub active_index: usize,
}

impl TabState {
    /// The full strip, with the cursor in bounds.
    pub open spec fn wf(self) -> bool {
        &&& self.tabs@ == seq![
            Tab::FreshFeed,
            Tab::Category,
            Tab::Favourite,
            Tab::ReadLater,
            Tab::Archived,
            Tab::FeedManager,
        ]
        &&& self.active_index < self.tabs@.len()
    }

    /// Every tab in order, starting on the fresh feed.
    pub fn new() -> (r: TabState)
        ensures
            r.wf(),
            r.active_index == 0,
    {
        let mut tabs: Vec<Tab> = Vec::new();
        tabs.push(Tab::FreshFeed);
        tabs.push(Tab::Category);
        tabs.push(Tab::Favourite);
        tabs.push(Tab::ReadLater);
        tabs.push(Tab::Archived);
        tabs.push(Tab::FeedManager);
        proof {
            assert(tabs@ =~= seq![
                Tab::FreshFeed,
                Tab::Category,
                Tab::Favourite,
                Tab::ReadLater,
                Tab::Archived,
                Tab::FeedManager,
            ]);
        }
        TabState { tabs, active_index: 0 }
    }

    /// Step to the next tab, wrapping past the last.
    pub fn next(&mut self)
        requires
            old(self).wf(),
        ensures
            final(self).wf(),
            final(self).tabs@ == old(self).tabs@,
            final(self).active_index as int == (if old(self).active_index + 1 < old(
                self,
            ).tabs@.len() {
                old(self).active_index + 1
            } else {
                0int
            }),
    {
        if self.active_index + 1 < self.tabs.len() {
            self.active_index += 1;
        } else {
            self.active_index = 0;
        }
    }

    /// Step to the previous tab, wrapping before the first.
    pub fn previous(&mut self)
        requires
            old(self).wf(),
        ensures
            final(self).wf(),
            final(self).tabs@ == old(self).tabs@,
            final(self).active_index as int == (if old(self).active_index > 0 {
                old(self).active_index - 1
            } else {
                old(self).tabs@.len() - 1
            }),
    {
        if self.active_index > 0 {
            self.active_index -= 1;
        } else {
            self.active_index = self.tabs.len() - 1;
        }
    }

    /// Jump to a tab by index; an out-of-range index is ignored.
    pub fn set_active(&mut self, index: usize)
        requires
            old(self).wf(),
        ensures
            final(self).wf(),
            final(self).tabs@ == old(self).tabs@,
            final(self).active_index == (if index < old(self).tabs@.len() {
                index
            } else {
                old(self).active_index
            }),
    {
        if index < self.tabs.len() {
            self.active_index = index;
        }
    }

    /// The active tab.
    pub fn get_active(&self) -> (r: &Tab)
        requires
            self.wf(),
        ensures
            *r == self.tabs@[self.active_index as int],
    {
        &self.tabs[self.active_index]
    }
}

} // verus!
