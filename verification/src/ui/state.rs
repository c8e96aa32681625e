//! Per-view state: the bounded wrap-around selection cursor and one state
//! struct per screen.

use vstd::prelude::*;
use vstd::utf8::encode_utf8;
use crate::model::convert::{StoreError, FIELD_LIMIT};
use crate::model::store::{
    TaskStore, views_of, sorted_by_stamp_desc, scan_sound, scan_complete,
};
use crate::model::task::{Task, task_prefix, task_inv};
use crate::model::task_entry::{TaskEntry, entry_task_prefix_bytes, entry_inv};

verus! {

/// A bounded, wrap-around index over however many items are shown.
///
/// Whenever `max_idx > 0` the index stays below it; with `max_idx == 0`
/// stepping is a no-op and the index carries no meaning.
#[derive(Clone, Copy, Debug, PartialEq, Eq, Structural)]
pub struct SelectionState {
    pub idx: usize,
    pub max_idx: usize,
}

impl SelectionState {
    /// The cursor invariant: a meaningful index whenever there are items.
    pub open spec fn wf(&self) -> bool {
        self.max_idx > 0 ==> self.idx < self.max_idx
    }

    /// A cursor at the top of a list of `max_idx` items.
    pub fn new(max_idx: usize) -> (r: Self)
        ensures
            r.idx == 0,
            r.max_idx == max_idx,
            r.wf(),
    {
        SelectionState { idx: 0, max_idx }
    }

    /// One more item is shown; a cursor that had nothing to point at
    /// comes to rest on the new first item.
    pub fn expand(&mut self)
        requires
            old(self).max_idx < usize::MAX,
        ensures
            final(self).max_idx == old(self).max_idx + 1,
            final(self).idx == if old(self).max_idx == 0 {
                0
            } else {
                old(self).idx as int
            },
            old(self).wf() ==> final(self).wf(),
    {
        if self.max_idx == 0 {
            self.idx = 0;
        }
        self.max_idx = self.max_idx + 1;
    }

    /// One fewer item is shown; the index is clamped back into range.
    pub fn shrink(&mut self)
        ensures
            final(self).max_idx == if old(self).max_idx > 0 {
                (old(self).max_idx - 1) as usize
            } else {
                0
            },
            final(self).wf(),
            final(self).idx <= old(self).idx,
    {
        if self.max_idx > 0 {
            self.max_idx = self.max_idx - 1;
        }
        if self.idx >= self.max_idx {
            if self.max_idx > 0 {
                self.idx = self.max_idx - 1;
            } else {
                self.idx = 0;
            }
        }
    }

    /// Step down one item, wrapping from the last back to the first.
    /// With no items this is a no-op.
    pub fn incr(&mut self)
        requires
            old(self).wf(),
        ensures
            final(self).max_idx == old(self).max_idx,
            old(self).max_idx == 0 ==> final(self).idx == old(self).idx,
            old(self).max_idx > 0 ==> final(self).idx == (old(self).idx + 1) as int % (old(
                self,
            ).max_idx as int),
            final(self).wf(),
    {
        if self.max_idx != 0 {
            self.idx = (self.idx + 1) % self.max_idx;
        }
    }

    /// Step up one item, wrapping from the first back to the last.
    /// With no items this is a no-op.
    pub fn decr(&mut self)
        requires
            old(self).wf(),
        ensures
            final(self).max_idx == old(self).max_idx,
            old(self).max_idx == 0 ==> final(self).idx == old(self).idx,
            old(self).max_idx > 0 ==> final(self).idx == (old(self).idx + old(self).max_idx
                - 1) as int % (old(self).max_idx as int),
            final(self).wf(),
    {
        if self.max_idx != 0 {
            if self.idx == 0 {
                self.idx = self.max_idx - 1;
            } else {
                self.idx = self.idx - 1;
            }
            proof {
                vstd::arithmetic::div_mod::lemma_mod_multiples_vanish(
                    1,
                    self.idx as int,
                    self.max_idx as int,
                );
                vstd::arithmetic::div_mod::lemma_small_mod(
                    self.idx as nat,
                    old(self).max_idx as nat,
                );
            }
        }
    }
}

/// The list of every task, with a cursor over it.
pub struct MainViewState {
    pub selector: SelectionState,
    pub items: Vec<Task>,
    pub poll_interval_ms: u64,
    pub last_poll_ms: u64,
}

impl MainViewState {
    /// The cursor ranges over exactly the listed tasks, and every listed
    /// task is well formed.
    pub open spec fn wf(&self) -> bool {
        &&& self.selector.max_idx == self.items@.len()
        &&& self.selector.wf()
        &&& forall|i: int| 0 <= i < self.items@.len() ==> task_inv((#[trigger] self.items@[i])@)
    }

    /// A main view freshly filled from the store.
    pub fn new(store: &TaskStore) -> (r: Result<Self, StoreError>)
        ensures
            r matches Ok(s) ==> {
                &&& s.wf()
                &&& s.selector.idx == 0
                &&& sorted_by_stamp_desc::<Task>(views_of(s.items@))
                &&& scan_sound::<Task>(store@, task_prefix(), views_of(s.items@))
                &&& scan_complete::<Task>(store@, task_prefix(), views_of(s.items@))
            },
    {
        let tasks = match store.get_prefix::<Task>(Task::key_all()) {
            Ok(t) => t,
            Err(e) => {
                return Err(e);
            },
        };
        proof {
            assert forall|i: int| 0 <= i < tasks@.len() implies task_inv(
                (#[trigger] tasks@[i])@,
            ) by {
                assert(views_of(tasks@)[i] == tasks@[i]@);
            }
        }
        Ok(
            MainViewState {
                selector: SelectionState::new(tasks.len()),
                items: tasks,
                poll_interval_ms: 100,
                last_poll_ms: 0,
            },
        )
    }

    /// Re-derive the listed tasks from the store; on a store error the
    /// old list stands.
    pub fn update(&mut self, store: &TaskStore)
        requires
            old(self).wf(),
        ensures
            final(self).wf(),
            final(self).poll_interval_ms == old(self).poll_interval_ms,
            final(self).last_poll_ms == old(self).last_poll_ms,
            final(self).items == old(self).items || (sorted_by_stamp_desc::<Task>(
                views_of(final(self).items@),
            ) && scan_sound::<Task>(store@, task_prefix(), views_of(final(self).items@))
                && scan_complete::<Task>(store@, task_prefix(), views_of(final(self).items@))),
    {
        match store.get_prefix::<Task>(Task::key_all()) {
            Ok(tasks) => {
                proof {
                    assert forall|i: int| 0 <= i < tasks@.len() implies task_inv(
                        (#[trigger] tasks@[i])@,
                    ) by {
                        assert(views_of(tasks@)[i] == tasks@[i]@);
                    }
                }
                self.selector.max_idx = tasks.len();
                if self.selector.idx >= self.selector.max_idx {
                    self.selector.idx = 0;
                }
                self.items = tasks;
            },
            Err(_) => {},
        }
    }

    /// Whether the refresh interval has elapsed at the given time.
    pub open spec fn poll_due(&self, now_ms: u64) -> bool {
        now_ms >= self.last_poll_ms && now_ms - self.last_poll_ms >= self.poll_interval_ms
    }

    /// Refresh from the store once the poll interval has elapsed: before
    /// that, nothing changes; on refresh the interval clock resets.
    pub fn poll(&mut self, now_ms: u64, store: &TaskStore)
        requires
            old(self).wf(),
        ensures
            final(self).wf(),
            !old(self).poll_due(now_ms) ==> *final(self) == *old(self),
            old(self).poll_due(now_ms) ==> final(self).last_poll_ms == now_ms,
            final(self).poll_interval_ms == old(self).poll_interval_ms,
            final(self).items == old(self).items || (sorted_by_stamp_desc::<Task>(
                views_of(final(self).items@),
            ) && scan_sound::<Task>(store@, task_prefix(), views_of(final(self).items@))
                && scan_complete::<Task>(store@, task_prefix(), views_of(final(self).items@))),
    {
        if now_ms >= self.last_poll_ms && now_ms - self.last_poll_ms >= self.poll_interval_ms {
            self.update(store);
            self.last_poll_ms = now_ms;
        }
    }
}

/// The list of one task's entries, with a cursor over it.
pub struct TaskViewState {
    pub selector: SelectionState,
    pub task: Task,
    pub items: Vec<TaskEntry>,
    pub poll_interval_ms: u64,
    pub last_poll_ms: u64,
}

impl TaskViewState {
    /// The cursor ranges over exactly the listed entries, every listed
    /// entry is well formed, and the owning task is too.
    pub open spec fn wf(&self) -> bool {
        &&& self.selector.max_idx == self.items@.len()
        &&& self.selector.wf()
        &&& task_inv(self.task@)
        &&& forall|i: int| 0 <= i < self.items@.len() ==> entry_inv((#[trigger] self.items@[i])@)
    }

    /// A task view freshly filled with the task's entries.
    pub fn new(task: Task, store: &TaskStore) -> (r: Result<Self, StoreError>)
        requires
            task_inv(task@),
        ensures
            r matches Ok(s) ==> {
                &&& s.wf()
                &&& s.task@ == task@
                &&& s.selector.idx == 0
                &&& sorted_by_stamp_desc::<TaskEntry>(views_of(s.items@))
                &&& scan_sound::<TaskEntry>(
                    store@,
                    entry_task_prefix_bytes(task@.id),
                    views_of(s.items@),
                )
                &&& scan_complete::<TaskEntry>(
                    store@,
                    entry_task_prefix_bytes(task@.id),
                    views_of(s.items@),
                )
            },
    {
        let entries = match task.get_entries(store) {
            Ok(t) => t,
            Err(e) => {
                return Err(e);
            },
        };
        proof {
            assert forall|i: int| 0 <= i < entries@.len() implies entry_inv(
                (#[trigger] entries@[i])@,
            ) by {
                assert(views_of(entries@)[i] == entries@[i]@);
            }
        }
        Ok(
            TaskViewState {
                selector: SelectionState::new(entries.len()),
                items: entries,
                task,
                poll_interval_ms: 100,
                last_poll_ms: 0,
            },
        )
    }

    /// Re-derive the listed entries from the store; on a store error the
    /// old list stands.
    pub fn update(&mut self, store: &TaskStore)
        requires
            old(self).wf(),
        ensures
            final(self).wf(),
            final(self).task == old(self).task,
            final(self).poll_interval_ms == old(self).poll_interval_ms,
            final(self).last_poll_ms == old(self).last_poll_ms,
            final(self).items == old(self).items || (sorted_by_stamp_desc::<TaskEntry>(
                views_of(final(self).items@),
            ) && scan_sound::<TaskEntry>(
                store@,
                entry_task_prefix_bytes(old(self).task@.id),
                views_of(final(self).items@),
            ) && scan_complete::<TaskEntry>(
                store@,
                entry_task_prefix_bytes(old(self).task@.id),
                views_of(final(self).items@),
            )),
    {
        let entries = match self.task.get_entries(store) {
            Ok(t) => t,
            Err(_) => {
                return ;
            },
        };
        proof {
            assert forall|i: int| 0 <= i < entries@.len() implies entry_inv(
                (#[trigger] entries@[i])@,
            ) by {
                assert(views_of(entries@)[i] == entries@[i]@);
            }
        }
        self.selector.max_idx = entries.len();
        if self.selector.idx >= self.selector.max_idx {
            self.selector.idx = 0;
        }
        self.items = entries;
    }

    /// Whether the refresh interval has elapsed at the given time.
    pub open spec fn poll_due(&self, now_ms: u64) -> bool {
        now_ms >= self.last_poll_ms && now_ms - self.last_poll_ms >= self.poll_interval_ms
    }

    /// Refresh from the store once the poll interval has elapsed: before
    /// that, nothing changes; on refresh the interval clock resets.
    pub fn poll(&mut self, now_ms: u64, store: &TaskStore)
        requires
            old(self).wf(),
        ensures
            final(self).wf(),
            final(self).task == old(self).task,
            !old(self).poll_due(now_ms) ==> *final(self) == *old(self),
            old(self).poll_due(now_ms) ==> final(self).last_poll_ms == now_ms,
            final(self).poll_interval_ms == old(self).poll_interval_ms,
            final(self).items == old(self).items || (sorted_by_stamp_desc::<TaskEntry>(
                views_of(final(self).items@),
            ) && scan_sound::<TaskEntry>(
                store@,
                entry_task_prefix_bytes(old(self).task@.id),
                views_of(final(self).items@),
            ) && scan_complete::<TaskEntry>(
                store@,
                entry_task_prefix_bytes(old(self).task@.id),
                views_of(final(self).items@),
            )),
    {
        if now_ms >= self.last_poll_ms && now_ms - self.last_poll_ms >= self.poll_interval_ms {
            self.update(store);
            self.last_poll_ms = now_ms;
        }
    }
}

/// One entry, about to be handed to the external editor.
pub struct EntryViewState {
    pub task_entry: TaskEntry,
    pub in_editor: bool,
}

impl EntryViewState {
    /// A view for one entry, not yet in the editor.
    pub fn new(task: TaskEntry) -> (r: Self)
        ensures
            r.task_entry@ == task@,
            r.in_editor == false,
    {
        EntryViewState { task_entry: task, in_editor: false }
    }
}

/// The create/edit form for a task: two text fields and a cursor over
/// which one is active.
pub struct CreateTaskViewState {
    pub item: Task,
    pub inputs: Vec<String>,
    pub active_input: usize,
    pub is_edit: bool,
}

impl CreateTaskViewState {
    /// Two fields, an active index below two, and field sizes that still
    /// fit a stored record.
    pub open spec fn wf(&self) -> bool {
        &&& self.inputs@.len() == 2
        &&& self.active_input < 2
        &&& task_inv(self.item@)
        &&& forall|i: int|
            0 <= i < 2 ==> encode_utf8((#[trigger] self.inputs@[i])@).len() <= FIELD_LIMIT
    }

    /// A form over the given task, its fields preloaded from it.
    pub fn new(item: Task, is_edit: bool) -> (r: Self)
        requires
            task_inv(item@),
        ensures
            r.wf(),
            r.item@ == item@,
            r.is_edit == is_edit,
            r.active_input == 0,
            r.inputs@[0]@ == item@.name,
            r.inputs@[1]@ == item@.desc,
    {
        let mut inputs: Vec<String> = Vec::new();
        inputs.push(item.name.clone());
        inputs.push(item.desc.clone());
        CreateTaskViewState { item, inputs, active_input: 0, is_edit }
    }
}

/// A single dismissible message.
pub struct PopUpViewState {
    pub text: String,
}

impl PopUpViewState {
    /// A popup showing the given message.
    pub fn new(text: String) -> (r: Self)
        ensures
            r.text@ == text@,
    {
        PopUpViewState { text }
    }
}

/// A yes/no prompt bound to the one item it would delete.
pub struct DeleteViewState<T> {
    pub delete_item: T,
}

impl<T> DeleteViewState<T> {
    /// A prompt for the given doomed item.
    pub fn new(delete_item: T) -> (r: Self)
        ensures
            r.delete_item == delete_item,
    {
        DeleteViewState { delete_item }
    }
}

/// A structured-text edit round trip for one item.
pub struct ConfigViewState<T> {
    pub config_item: T,
}

impl<T> ConfigViewState<T> {
    /// An edit session over the given item.
    pub fn new(config_item: T) -> (r: Self)
        ensures
            r.config_item == config_item,
    {
        ConfigViewState { config_item }
    }
}

} // verus!
