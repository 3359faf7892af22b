//! A standalone category picker with a wrap-around cursor.

use vstd::prelude::*;
use crate::model::{contains_name, name_in};
use crate::store::Store;

verus! {

/// A pick-one list of category names; "General" is always available.
pub struct CategorySelector {
    pub categories: Vec<String>,
    pub selected_index: usize,
}

impl CategorySelector {
    /// The cursor stays in bounds, resting at zero on an empty list.
    pub open spec fn wf(self) -> bool {
        self.selected_index < self.categories@.len() || (self.categories@.len() == 0
            && self.selected_index == 0)
    }

    /// A selector holding just "General".
    pub fn new() -> (r: CategorySelector)
        ensures
            r.wf(),
            r.categories@.len() == 1,
            r.categories@[0]@ == "General"@,
            r.selected_index == 0,
    {
        let mut categories: Vec<String> = Vec::new();
        categories.push("General".to_owned());
        proof {
            assert(categories@[0]@ == "General"@);
        }
        CategorySelector { categories, selected_index: 0 }
    }

    /// Reload the list from the store, keeping "General" present and the
    /// cursor clamped.
    pub fn load_from_store(&mut self, store: &Store)
        requires
            old(self).wf(),
            store.wf(),
        ensures
            final(self).wf(),
            name_in(final(self).categories@, "General"@),
            store.spec_categories().len() > 0 ==> final(self).categories@
                == store.spec_categories(),
    {
        let cats = store.list_categories();
        if cats.len() > 0 {
            self.categories = cats;
        }
        let general = "General".to_owned();
        if !contains_name(&self.categories, &general) {
            self.categories.insert(0, general);
            proof {
                assert(self.categories@[0]@ == "General"@);
            }
        }
        if self.selected_index >= self.categories.len() {
            if self.categories.len() == 0 {
                self.selected_index = 0;
            } else {
                self.selected_index = self.categories.len() - 1;
            }
        }
    }

    /// The name under the cursor, defaulting to "General".
    pub fn get_selected(&self) -> (r: &str)
        ensures
            self.selected_index < self.categories@.len() ==> r@ == self.categories@[self.selected_index as int]@,
            self.selected_index >= self.categories@.len() ==> r@ == "General"@,
    {
        if self.selected_index < self.categories.len() {
            self.categories[self.selected_index].as_str()
        } else {
            "General"
        }
    }

    /// Step the cursor down, wrapping to the top past the end.
    pub fn next(&mut self)
        requires
            old(self).wf(),
        ensures
            final(self).wf(),
            final(self).categories@ == old(self).categories@,
            final(self).selected_index as int == (if old(self).categories@.len() > 0 && old(
                self,
            ).selected_index + 1 < old(self).categories@.len() {
                old(self).selected_index + 1
            } else {
                0int
            }),
    {
        let len = self.categories.len();
        if len > 0 && self.selected_index < len - 1 {
            self.selected_index += 1;
        } else {
            self.selected_index = 0;
        }
    }

    /// Step the cursor up, wrapping to the bottom before the start.
    pub fn previous(&mut self)
        requires
            old(self).wf(),
        ensures
            final(self).wf(),
            final(self).categories@ == old(self).categories@,
            final(self).selected_index as int == (if old(self).selected_index > 0 {
                old(self).selected_index - 1
            } else if old(self).categories@.len() > 0 {
                old(self).categories@.len() - 1
            } else {
                0int
            }),
    {
        if self.selected_index > 0 {
            self.selected_index -= 1;
        } else if self.categories.len() > 0 {
            self.selected_index = self.categories.len() - 1;
        }
    }
}

} // verus!
