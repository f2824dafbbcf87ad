use vstd::prelude::*;
use crate::error::TransportError;
use crate::json::{items_view, JsonValue, JsonView};

verus! {

/// A stream over values already at hand, handed out in order, with an
/// optional action run once when the stream is closed.
pub struct VecStreamResult<F: FnOnce() -> Result<(), TransportError>> {
    items: Vec<JsonValue>,
    index: usize,
    close_fn: Option<F>,
}

impl<F: FnOnce() -> Result<(), TransportError>> VecStreamResult<F> {
    /// The values of the stream and how many have been handed out.
    pub closed spec fn view(&self) -> (Seq<JsonView>, nat) {
        (items_view(self.items@), self.index as nat)
    }

    /// The close action, while it has not run.
    pub closed spec fn close_action(&self) -> Option<F> {
        self.close_fn
    }

    /// No more values are handed out than there are.
    pub closed spec fn wf(&self) -> bool {
        self.index <= self.items@.len()
    }

    /// A stream over `items`, none handed out yet.
    pub fn new(items: Vec<JsonValue>, close_fn: Option<F>) -> (r: VecStreamResult<F>)
        ensures
            r.wf(),
            r.view() == (items_view(items@), 0nat),
            r.close_action() == close_fn,
    {
        VecStreamResult { items, index: 0, close_fn }
    }

    /// The next value, or `None` once all have been handed out.
    pub fn next(&mut self) -> (r: Option<JsonValue>)
        requires
            old(self).wf(),
        ensures
            final(self).wf(),
            final(self).close_action() == old(self).close_action(),
            final(self).view().0 == old(self).view().0,
            ({
                let (vals, i) = old(self).view();
                if i < vals.len() {
                    r matches Some(v) && v@ == vals[i as int] && final(self).view().1 == i + 1
                } else {
                    r is None && final(self).view().1 == i
                }
            }),
    {
        if self.index >= self.items.len() {
            return None;
        }
        let item = self.items[self.index].duplicate();
        self.index = self.index + 1;
        Some(item)
    }

    /// Closes the stream: runs the close action, if it has not run, and
    /// passes on its outcome; otherwise succeeds.
    pub fn close(&mut self) -> (r: Result<(), TransportError>)
        requires
            old(self).close_action() matches Some(f) ==> f.requires(()),
        ensures
            final(self).close_action() is None,
            final(self).view() == old(self).view(),
            final(self).wf() == old(self).wf(),
            match old(self).close_action() {
                Some(f) => f.ensures((), r),
                None => r is Ok,
            },
    {
        match self.close_fn.take() {
            Some(f) => f(),
            None => Ok(()),
        }
    }
}

} // verus!
