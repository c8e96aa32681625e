//! A minimal front-end state, kept beside the view-stack engine: a plain
//! wrap-around cursor over a fixed number of choices and the coarse
//! actions its screens know.

use vstd::prelude::*;
use crate::model::store::TaskStore;

verus! {

/// The coarse actions of the minimal front end.
#[derive(Clone, Copy, Debug, PartialEq, Eq, Structural)]
pub enum UserAction {
    Select,
    Back,
    Quit,
    Idle,
}

/// The fixed order in which these actions are listed.
pub open spec fn terminal_action_order() -> Seq<UserAction> {
    seq![UserAction::Select, UserAction::Back, UserAction::Quit, UserAction::Idle]
}

impl UserAction {
    /// Every action, in display order.
    pub fn all() -> (r: Vec<UserAction>)
        ensures
            r@ == terminal_action_order(),
    {
        let mut r: Vec<UserAction> = Vec::new();
        r.push(UserAction::Select);
        r.push(UserAction::Back);
        r.push(UserAction::Quit);
        r.push(UserAction::Idle);
        proof {
            assert(r@ =~= terminal_action_order());
        }
        r
    }

    /// The action at the given position of the display order.
    pub fn from_index(index: usize) -> (r: Self)
        requires
            index < 4,
        ensures
            r == terminal_action_order()[index as int],
    {
        let all = Self::all();
        all[index]
    }
}

/// A wrap-around cursor over `len` choices; meaningful only while
/// `idx < len`.
#[derive(Clone, Copy, Debug, PartialEq, Eq, Structural)]
pub struct TerminalSelection {
    pub idx: usize,
    pub len: usize,
}

impl TerminalSelection {
    /// An empty cursor.
    pub fn new() -> (r: Self)
        ensures
            r.idx == 0,
            r.len == 0,
    {
        TerminalSelection { idx: 0, len: 0 }
    }

    /// Move up one choice, wrapping from the first to the last. With no
    /// choices this is a no-op.
    pub fn incr(&mut self)
        requires
            old(self).len > 0 ==> old(self).idx < old(self).len,
        ensures
            final(self).len == old(self).len,
            old(self).len == 0 ==> final(self).idx == old(self).idx,
            old(self).len > 0 ==> final(self).idx == (old(self).idx + old(self).len - 1) as int % (
            old(self).len as int) && final(self).idx < final(self).len,
    {
        if self.len == 0 {
            return ;
        }
        if self.idx == 0 {
            self.idx = self.len - 1;
        } else {
            self.idx = self.idx - 1;
        }
        proof {
            vstd::arithmetic::div_mod::lemma_mod_multiples_vanish(
                1,
                self.idx as int,
                self.len as int,
            );
            vstd::arithmetic::div_mod::lemma_small_mod(self.idx as nat, old(self).len as nat);
        }
    }

    /// Move down one choice, wrapping from the last to the first. With no
    /// choices this is a no-op.
    pub fn decr(&mut self)
        requires
            old(self).len > 0 ==> old(self).idx < old(self).len,
        ensures
            final(self).len == old(self).len,
            old(self).len == 0 ==> final(self).idx == old(self).idx,
            old(self).len > 0 ==> final(self).idx == (old(self).idx + 1) as int % (old(
                self,
            ).len as int) && final(self).idx < final(self).len,
    {
        if self.len == 0 {
            return ;
        }
        self.idx = (self.idx + 1) % self.len;
    }
}

/// The minimal front end's whole state: the open store and the cursor.
pub struct TerminalState {
    pub db: TaskStore,
    pub select: TerminalSelection,
}

impl TerminalState {
    /// A fresh front end over the given store.
    pub fn new(db: TaskStore) -> (r: Self)
        ensures
            r.select.idx == 0,
            r.select.len == 0,
    {
        TerminalState { select: TerminalSelection::new(), db }
    }
}

} // verus!
