//! The terminator: a tree of cooperative-cancellation scopes.
//!
//! One root exit signal, once fired, is observed by every task at its next
//! suspension point.  Each task owns a scope, possibly nested under another
//! scope; a scope counts as terminated only once the signal has fired and
//! the scope and every scope below it have acknowledged completion.  The
//! waiting itself happens outside; this state machine answers, at every
//! step, who still owes an acknowledgement.

use vstd::prelude::*;

verus! {

/// Scope `i` lies in the subtree rooted at `root` (reflexively), following
/// parent links.  A scope's parent always has a smaller index, so the
/// recursion descends.
pub open spec fn spec_in_scope(parents: Seq<Option<usize>>, i: int, root: int) -> bool
    decreases i,
{
    i == root || (0 <= i < parents.len() && parents[i] is Some && 0 <= parents[i]->Some_0 < i
        && spec_in_scope(parents, parents[i]->Some_0 as int, root))
}

/// The cancellation-scope tree of one session.
pub struct Terminator {
    /// Parent of each scope; the root scope 0 has none.
    pub parents: Vec<Option<usize>>,
    /// Whether each scope has acknowledged completion.
    pub acked: Vec<bool>,
    /// Whether the root exit signal has fired.
    pub fired: bool,
}

impl Terminator {
    /// Parents point strictly downwards and only the root is parentless.
    pub open spec fn wf(self) -> bool {
        &&& self.parents@.len() == self.acked@.len()
        &&& self.parents@.len() >= 1
        &&& self.parents@[0] is None
        &&& forall|i: int|
            1 <= i < self.parents@.len() ==> (#[trigger] self.parents@[i]) is Some
                && self.parents@[i]->Some_0 < i
    }

    /// A fresh tree holding only the root scope.
    pub fn create_root() -> (r: Terminator)
        ensures
            r.wf(),
            r.parents@.len() == 1,
            !r.fired,
            !r.acked@[0],
    {
        let mut parents: Vec<Option<usize>> = Vec::new();
        parents.push(None);
        let mut acked: Vec<bool> = Vec::new();
        acked.push(false);
        Terminator { parents, acked, fired: false }
    }

    /// Register a new scope under `parent`; returns its identifier.
    pub fn add_scope(&mut self, parent: usize) -> (id: usize)
        requires
            old(self).wf(),
            parent < old(self).parents@.len(),
            old(self).parents@.len() < 0xffffffff,
        ensures
            final(self).wf(),
            id == old(self).parents@.len(),
            final(self).parents@ == old(self).parents@.push(Some(parent)),
            final(self).acked@ == old(self).acked@.push(false),
            final(self).fired == old(self).fired,
    {
        let id = self.parents.len();
        self.parents.push(Some(parent));
        self.acked.push(false);
        id
    }

    /// Fire the root exit signal.
    pub fn fire(&mut self)
        requires
            old(self).wf(),
        ensures
            final(self).wf(),
            final(self).fired,
            final(self).parents@ == old(self).parents@,
            final(self).acked@ == old(self).acked@,
    {
        self.fired = true;
    }

    /// What every task checks at each suspension point.
    pub fn should_exit(&self) -> (r: bool)
        ensures
            r == self.fired,
    {
        self.fired
    }

    /// Scope `id` acknowledges that its task has observed the signal and
    /// finished its cleanup.
    pub fn ack(&mut self, id: usize)
        requires
            old(self).wf(),
            id < old(self).acked@.len(),
        ensures
            final(self).wf(),
            final(self).parents@ == old(self).parents@,
            final(self).fired == old(self).fired,
            final(self).acked@ == old(self).acked@.update(id as int, true),
    {
        self.acked.set(id, true);
    }

    /// Whether scope `i` lies in the subtree rooted at `root`.
    pub fn in_scope(&self, i: usize, root: usize) -> (r: bool)
        requires
            self.wf(),
            i < self.parents@.len(),
            root < self.parents@.len(),
        ensures
            r == spec_in_scope(self.parents@, i as int, root as int),
        decreases i,
    {
        if i == root {
            return true;
        }
        match self.parents[i] {
            None => false,
            Some(p) => self.in_scope(p, root),
        }
    }

    /// A scope is terminated once the signal has fired and the scope and
    /// every scope below it have acknowledged.
    #[verifier::loop_isolation(false)]
    pub fn scope_terminated(&self, root: usize) -> (r: bool)
        requires
            self.wf(),
            root < self.parents@.len(),
        ensures
            r == (self.fired && forall|i: int|
                0 <= i < self.parents@.len() && spec_in_scope(self.parents@, i, root as int)
                    ==> self.acked@[i]),
    {
        if !self.fired {
            return false;
        }
        let mut i: usize = 0;
        while i < self.parents.len()
            invariant
                i <= self.parents@.len(),
                forall|j: int|
                    0 <= j < i && spec_in_scope(self.parents@, j, root as int) ==> self.acked@[j],
            decreases self.parents@.len() - i,
        {
            if self.in_scope(i, root) && !self.acked[i] {
                return false;
            }
            i = i + 1;
        }
        true
    }

    /// Whether the whole session is terminated: the root scope is.
    pub fn terminated(&self) -> (r: bool)
        requires
            self.wf(),
        ensures
            r == (self.fired && forall|i: int|
                0 <= i < self.parents@.len() && spec_in_scope(self.parents@, i, 0) ==> self.acked@[i]),
    {
        self.scope_terminated(0)
    }
}

} // verus!
