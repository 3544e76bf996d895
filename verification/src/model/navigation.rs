//! Document navigation: outlines (bookmarks) and link targets.

use vstd::prelude::*;

verus! {

/// One entry of the document outline, with its nested entries.
#[derive(Debug, PartialEq)]
pub struct OutlineItem {
    pub title: String,
    pub target_page: Option<usize>,
    pub children: Vec<OutlineItem>,
}

/// Where a link on a page leads.
#[derive(Debug, Clone, PartialEq)]
pub enum LinkTarget {
    Uri(String),
    LocalDestination(usize),
    RemoteDestination,
    Unknown,
}

/// `a` and `b` hold the same outline: the same title and target page, and
/// the same entries nested in them.
pub open spec fn same_outline(a: OutlineItem, b: OutlineItem) -> bool
    decreases a,
{
    &&& a.title == b.title
    &&& a.target_page == b.target_page
    &&& same_outlines(a.children@, b.children@)
}

/// `a` and `b` list the same outline entries, in order.
pub open spec fn same_outlines(a: Seq<OutlineItem>, b: Seq<OutlineItem>) -> bool
    decreases a,
{
    &&& a.len() == b.len()
    &&& a.len() > 0 ==> same_outlines(a.drop_last(), b.drop_last()) && same_outline(a.last(), b.last())
}

impl Clone for OutlineItem {
    fn clone(&self) -> (copy: Self)
        ensures
            same_outline(copy, *self),
        decreases self,
    {
        let mut children: Vec<OutlineItem> = Vec::new();
        let mut index: usize = 0;
        while index < self.children.len()
            invariant
                index <= self.children@.len(),
                same_outlines(children@, self.children@.take(index as int)),
            decreases self.children@.len() - index,
        {
            assert(decreases_to!(self => self.children@[index as int]));
            let child = self.children[index].clone();
            let ghost before = children@;
            children.push(child);
            proof {
                assert(children@.drop_last() =~= before);
                assert(self.children@.take(index + 1).drop_last() =~= self.children@.take(index as int));
                assert(self.children@.take(index + 1).last() == self.children@[index as int]);
            }
            index = index + 1;
        }
        assert(self.children@.take(self.children@.len() as int) =~= self.children@);
        OutlineItem { title: self.title.clone(), target_page: self.target_page, children }
    }
}

} // verus!
