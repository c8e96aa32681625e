//! The view stack and its transition machine. Only the top view is drawn
//! and controlled; `Push` layers a modal view over it, `Pop` resumes the
//! one beneath, and only `Quit` ends the program — the root view is never
//! removed.

use vstd::prelude::*;
use vstd::view::View as _;
use crate::model::convert::StoreError;
use crate::model::store::{
    TaskStore, views_of, sorted_by_stamp_desc, scan_sound, scan_complete,
};
use crate::model::task::task_prefix;
use crate::model::task::{Task, task_inv};
use crate::model::task_entry::{TaskEntry, entry_inv};
use crate::ui::state::{
    MainViewState, TaskViewState, EntryViewState, CreateTaskViewState, PopUpViewState,
    DeleteViewState, ConfigViewState,
};

verus! {

/// One live screen. Views that in concept work "for any entity" are
/// spelled out as one variant per entity, so the machine stays a closed,
/// exhaustively matchable sum.
pub enum View {
    /// The list of tasks.
    MainView(MainViewState),
    /// The list of one task's entries.
    TaskView(TaskViewState),
    /// One entry, handed to the external editor.
    EntryView(EntryViewState),
    /// The create/edit form for a task.
    CreateTaskView(CreateTaskViewState),
    /// A dismissible message.
    PopUpView(PopUpViewState),
    /// The delete prompt for a task.
    DeleteTaskView(DeleteViewState<Task>),
    /// The delete prompt for an entry.
    DeleteEntryView(DeleteViewState<TaskEntry>),
    /// The structured-text edit session for a task.
    ConfigTaskView(ConfigViewState<Task>),
}

impl View {
    /// Every view keeps its state's invariant.
    pub open spec fn wf(&self) -> bool {
        match self {
            View::MainView(s) => s.wf(),
            View::TaskView(s) => s.wf(),
            View::EntryView(s) => entry_inv(s.task_entry@),
            View::CreateTaskView(s) => s.wf(),
            View::PopUpView(_) => true,
            View::DeleteTaskView(s) => task_inv(s.delete_item@),
            View::DeleteEntryView(s) => entry_inv(s.delete_item@),
            View::ConfigTaskView(s) => task_inv(s.config_item@),
        }
    }
}

/// What the controller of the active view asks of the stack.
pub enum Transition {
    /// Layer a new view over the current one.
    Push(View),
    /// Remove the top view and resume the one beneath.
    Pop,
    /// End the program, whatever the depth.
    Quit,
    /// Redraw and wait for more input; no stack change.
    Stay,
}

/// The ordered stack of live views; the bottom is always the main view.
pub struct App {
    pub view_stack: Vec<View>,
}

impl App {
    /// A non-empty stack of well-formed views, rooted at the main view.
    pub open spec fn wf(&self) -> bool {
        &&& self.view_stack@.len() >= 1
        &&& self.view_stack@[0] is MainView
        &&& forall|i: int| 0 <= i < self.view_stack@.len() ==> (#[trigger] self.view_stack@[i]).wf()
    }

    /// An application over the given store, opening on the main view,
    /// which lists the store's tasks newest first.
    pub fn new(store: &TaskStore) -> (r: Result<Self, StoreError>)
        ensures
            r matches Ok(a) ==> a.wf() && a.view_stack@.len() == 1 && (a.view_stack@[0] matches
            View::MainView(m) && sorted_by_stamp_desc::<Task>(views_of(m.items@)) && scan_sound::<
                Task,
            >(store@, task_prefix(), views_of(m.items@)) && scan_complete::<Task>(
                store@,
                task_prefix(),
                views_of(m.items@),
            )),
    {
        let main = match MainViewState::new(store) {
            Ok(m) => m,
            Err(e) => {
                return Err(e);
            },
        };
        let mut view_stack: Vec<View> = Vec::new();
        view_stack.push(View::MainView(main));
        Ok(App { view_stack })
    }

    /// Apply one transition. Returns true exactly when the program is to
    /// quit; `Pop` with one view left is a no-op, so the stack is never
    /// emptied and only `Quit` ends the loop.
    pub fn step(&mut self, transition: Transition) -> (quit: bool)
        requires
            old(self).wf(),
            transition matches Transition::Push(v) ==> v.wf(),
        ensures
            final(self).wf(),
            final(self).view_stack@.len() >= 1,
            quit <==> transition is Quit,
            match transition {
                Transition::Push(v) => final(self).view_stack@ == old(self).view_stack@.push(v),
                Transition::Pop => final(self).view_stack@ == if old(self).view_stack@.len() == 1 {
                    old(self).view_stack@
                } else {
                    old(self).view_stack@.drop_last()
                },
                Transition::Quit => final(self).view_stack@ == old(self).view_stack@,
                Transition::Stay => final(self).view_stack@ == old(self).view_stack@,
            },
    {
        match transition {
            Transition::Push(v) => {
                self.view_stack.push(v);
                false
            },
            Transition::Pop => {
                if self.view_stack.len() > 1 {
                    let _ = self.view_stack.pop();
                }
                false
            },
            Transition::Quit => true,
            Transition::Stay => false,
        }
    }
}

} // verus!
