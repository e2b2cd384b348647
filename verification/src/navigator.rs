//! Navigation state over the resolved page list, independent of any toolkit.

use vstd::prelude::*;
use crate::storage::copy_strings;

verus! {

/// Mathematical model of a [`Navigator`]: the page ids and the current index.
pub struct NavigatorView {
    pub pages: Seq<Seq<char>>,
    pub index: nat,
}

/// A well-formed position: at least one page, and the index inside the list.
pub open spec fn nav_wf(n: NavigatorView) -> bool {
    n.pages.len() > 0 && n.index < n.pages.len()
}

/// The page shown at a position.
pub open spec fn nav_current(n: NavigatorView) -> Seq<char> {
    n.pages[n.index as int]
}

/// One step forward, staying put on the last page.
pub open spec fn nav_next(n: NavigatorView) -> NavigatorView {
    if n.index + 1 < n.pages.len() {
        NavigatorView { pages: n.pages, index: n.index + 1 }
    } else {
        n
    }
}

/// One step back, staying put on the first page.
pub open spec fn nav_prev(n: NavigatorView) -> NavigatorView {
    if n.index > 0 {
        NavigatorView { pages: n.pages, index: (n.index - 1) as nat }
    } else {
        n
    }
}

/// Tracks the current position in the resolved page sequence.
#[derive(Debug)]
pub struct Navigator {
    pages: Vec<String>,
    index: usize,
}

impl View for Navigator {
    type V = NavigatorView;

    closed spec fn view(&self) -> NavigatorView {
        NavigatorView { pages: self.pages.deep_view(), index: self.index as nat }
    }
}

impl Clone for Navigator {
    /// A navigator at the same position over a copy of the same pages.
    fn clone(&self) -> (r: Navigator)
        ensures
            r@ == self@,
    {
        proof {
            use_type_invariant(self);
        }
        let pages = copy_strings(&self.pages);
        assert(pages.deep_view().len() == pages@.len());
        assert(self.pages.deep_view().len() == self.pages@.len());
        Navigator { pages, index: self.index }
    }
}

impl Navigator {
    #[verifier::type_invariant]
    spec fn well_formed(self) -> bool {
        self.pages.len() > 0 && self.index < self.pages.len()
    }

    /// Build from the resolved page order, starting on the first page.
    /// The list must not be empty (the resolver always yields the mandatory pages).
    pub fn new(pages: Vec<String>) -> (n: Navigator)
        requires
            pages.len() > 0,
        ensures
            n@.pages == pages.deep_view(),
            n@.index == 0,
            nav_wf(n@),
    {
        Navigator { pages, index: 0 }
    }

    /// The page id at the current position.
    pub fn current(&self) -> (page: &str)
        ensures
            nav_wf(self@),
            page@ == nav_current(self@),
    {
        proof {
            use_type_invariant(self);
        }
        self.pages[self.index].as_str()
    }

    /// Whether the current page is the first one.
    pub fn is_first(&self) -> (r: bool)
        ensures
            nav_wf(self@),
            r == (self@.index == 0),
    {
        proof {
            use_type_invariant(self);
        }
        self.index == 0
    }

    /// Whether the current page is the last one.
    pub fn is_last(&self) -> (r: bool)
        ensures
            nav_wf(self@),
            r == (self@.index + 1 == self@.pages.len()),
    {
        proof {
            use_type_invariant(self);
        }
        self.index + 1 == self.pages.len()
    }

    /// Advance one page unless already on the last. Returns the new current page.
    pub fn next(&mut self) -> (page: &str)
        ensures
            final(self)@ == nav_next(old(self)@),
            page@ == nav_current(final(self)@),
    {
        proof {
            use_type_invariant(&*self);
        }
        if self.index + 1 < self.pages.len() {
            self.index = self.index + 1;
        }
        self.current()
    }

    /// Go back one page unless already on the first. Returns the new current page.
    pub fn prev(&mut self) -> (page: &str)
        ensures
            final(self)@ == nav_prev(old(self)@),
            page@ == nav_current(final(self)@),
    {
        proof {
            use_type_invariant(&*self);
        }
        if self.index > 0 {
            self.index = self.index - 1;
        }
        self.current()
    }
}

/// Moving forward never leaves the page list, and the list itself never changes.
pub proof fn law_next_stays_in_range(n: NavigatorView)
    requires
        nav_wf(n),
    ensures
        nav_wf(nav_next(n)),
        nav_next(n).pages == n.pages,
        nav_next(n).index == if n.index + 1 < n.pages.len() { n.index + 1 } else { n.index },
{
}

/// Moving back never leaves the page list, and the list itself never changes.
pub proof fn law_prev_stays_in_range(n: NavigatorView)
    requires
        nav_wf(n),
    ensures
        nav_wf(nav_prev(n)),
        nav_prev(n).pages == n.pages,
        nav_prev(n).index == if n.index > 0 { n.index - 1 } else { 0 },
{
}

/// On the last page, `next` stays there; on the first page, `prev` stays there.
pub proof fn law_ends_clamp(n: NavigatorView)
    requires
        nav_wf(n),
    ensures
        n.index + 1 == n.pages.len() ==> nav_next(n) == n,
        n.index == 0 ==> nav_prev(n) == n,
{
}

/// Going back undoes going forward, except on the last page, where `next` does nothing.
pub proof fn law_prev_undoes_next(n: NavigatorView)
    requires
        nav_wf(n),
        n.index + 1 < n.pages.len(),
    ensures
        nav_prev(nav_next(n)) == n,
{
}

/// Going forward undoes going back, except on the first page, where `prev` does nothing.
pub proof fn law_next_undoes_prev(n: NavigatorView)
    requires
        nav_wf(n),
        n.index > 0,
    ensures
        nav_next(nav_prev(n)) == n,
{
}

} // verus!
