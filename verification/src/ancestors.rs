//! The path of open elements: the tags from the root of the record to the
//! element that is open innermost.

use vstd::prelude::*;
use crate::text::str_eq;

verus! {

/// The tag of the innermost open element of a path.
pub open spec fn parent_of(stack: Seq<Seq<char>>) -> Option<Seq<char>> {
    if stack.len() > 0 {
        Some(stack.last())
    } else {
        None
    }
}

/// A path with its innermost element closed; the empty path stays empty.
pub open spec fn closed_one(stack: Seq<Seq<char>>) -> Seq<Seq<char>> {
    if stack.len() > 0 {
        stack.drop_last()
    } else {
        stack
    }
}

/// The texts of the tags on a path.
pub open spec fn stack_text(stack: Seq<String>) -> Seq<Seq<char>> {
    stack.map_values(|tag: String| tag@)
}

/// The tags of the open elements, outermost first.
#[derive(Debug)]
pub struct AncestorStack {
    tags: Vec<String>,
}

impl View for AncestorStack {
    type V = Seq<Seq<char>>;

    closed spec fn view(&self) -> Seq<Seq<char>> {
        stack_text(self.tags@)
    }
}

impl AncestorStack {
    /// The path before any element has opened.
    pub fn new() -> (r: Self)
        ensures
            r@ == Seq::<Seq<char>>::empty(),
    {
        let r = AncestorStack { tags: Vec::new() };
        assert(stack_text(r.tags@) =~= Seq::<Seq<char>>::empty());
        r
    }

    /// How many elements are open.
    pub fn depth(&self) -> (n: usize)
        ensures
            n == self@.len(),
    {
        self.tags.len()
    }

    /// The tag of the innermost open element, if any element is open.
    pub fn top(&self) -> (r: Option<&str>)
        ensures
            match r {
                Some(tag) => parent_of(self@) == Some(tag@),
                None => parent_of(self@).is_none(),
            },
    {
        let depth = self.tags.len();
        if depth == 0 {
            None
        } else {
            Some(self.tags[depth - 1].as_str())
        }
    }

    /// Whether the innermost open element has the tag `tag`.
    pub fn top_is(&self, tag: &str) -> (r: bool)
        ensures
            r == (parent_of(self@) == Some(tag@)),
    {
        match self.top() {
            Some(top) => str_eq(top, tag),
            None => false,
        }
    }

    /// An element with the tag `tag` opens.
    pub fn push(&mut self, tag: &str)
        ensures
            final(self)@ == old(self)@.push(tag@),
    {
        self.tags.push(tag.to_owned());
        assert(stack_text(self.tags@) =~= stack_text(old(self).tags@).push(tag@));
    }

    /// The innermost open element closes. With no element open, nothing
    /// changes.
    pub fn pop(&mut self)
        ensures
            final(self)@ == closed_one(old(self)@),
    {
        self.tags.pop();
        assert(stack_text(self.tags@) =~= closed_one(stack_text(old(self).tags@)));
    }
}

} // verus!
