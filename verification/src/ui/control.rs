//! Keyboard control: the key alphabet, the shared default bindings, and
//! one controller per view, each mapping a key to a transition.

use vstd::prelude::*;
use vstd::view::View as _;
use vstd::utf8::encode_utf8;
use vstd::string::StringExecFns;
use crate::model::convert::FIELD_LIMIT;
use crate::model::store::TaskStore;
use crate::model::task::{Task, TaskView, task_inv, task_key_bytes, task_enc, first_nl};
use crate::model::task_entry::{TaskEntry, entry_inv, entry_key_bytes, entry_enc};
use crate::ui::state::{
    SelectionState, MainViewState, TaskViewState, EntryViewState, CreateTaskViewState,
    PopUpViewState, DeleteViewState, ConfigViewState,
};
use crate::ui::view::{View, Transition};

verus! {

/// The keys the engine interprets. Anything else is `Other`.
#[derive(Clone, Copy, Debug, PartialEq, Eq, Structural)]
pub enum Key {
    Char(char),
    Enter,
    Esc,
    Backspace,
    Tab,
    Up,
    Down,
    Other,
}

/// The actions a view can offer, for the controls bar.
#[derive(Clone, Copy, Debug, PartialEq, Eq, Structural)]
pub enum UserAction {
    Select,
    New,
    Edit,
    Delete,
    Back,
    Quit,
}

/// The fixed order in which actions are listed.
pub open spec fn user_action_order() -> Seq<UserAction> {
    seq![
        UserAction::Select,
        UserAction::New,
        UserAction::Edit,
        UserAction::Delete,
        UserAction::Back,
        UserAction::Quit,
    ]
}

impl UserAction {
    /// Every action, in display order.
    pub fn all() -> (r: Vec<UserAction>)
        ensures
            r@ == user_action_order(),
    {
        let mut r: Vec<UserAction> = Vec::new();
        r.push(UserAction::Select);
        r.push(UserAction::New);
        r.push(UserAction::Edit);
        r.push(UserAction::Delete);
        r.push(UserAction::Back);
        r.push(UserAction::Quit);
        proof {
            assert(r@ =~= user_action_order());
        }
        r
    }

    /// The action at the given position of the display order.
    pub fn from_index(index: usize) -> (r: Self)
        requires
            index < 6,
        ensures
            r == user_action_order()[index as int],
    {
        let all = Self::all();
        all[index]
    }

    /// The label shown for this action, with its key.
    pub fn label(&self) -> (r: &'static str)
        ensures
            *self is Select ==> r@ == "Select (s)"@,
            *self is New ==> r@ == "New (n)"@,
            *self is Edit ==> r@ == "Edit (e)"@,
            *self is Delete ==> r@ == "Delete (d)"@,
            *self is Back ==> r@ == "Back (b)"@,
            *self is Quit ==> r@ == "Quit (q)"@,
    {
        match self {
            UserAction::Select => "Select (s)",
            UserAction::New => "New (n)",
            UserAction::Edit => "Edit (e)",
            UserAction::Delete => "Delete (d)",
            UserAction::Back => "Back (b)",
            UserAction::Quit => "Quit (q)",
        }
    }
}

/// What the default bindings made of a key: a finished transition, or
/// the key handed back for the view's own bindings.
pub enum ControlOption {
    T(Transition),
    E(Key),
}

/// The bindings every list view shares: quit, back, and moving the
/// selection down or up with wrap-around. Any other key is handed back.
pub fn default_controls(selector: &mut SelectionState, key: Key) -> (r: ControlOption)
    requires
        old(selector).wf(),
    ensures
        final(selector).wf(),
        final(selector).max_idx == old(selector).max_idx,
        key == Key::Char('q') ==> (r matches ControlOption::T(Transition::Quit) && *final(selector)
            == *old(selector)),
        key == Key::Char('b') ==> (r matches ControlOption::T(Transition::Pop) && *final(selector)
            == *old(selector)),
        key == Key::Char('j') || key == Key::Down ==> (r matches ControlOption::T(Transition::Stay)
            && (old(selector).max_idx > 0 ==> final(selector).idx == (old(selector).idx
            + 1) as int % (old(selector).max_idx as int))),
        key == Key::Char('k') || key == Key::Up ==> (r matches ControlOption::T(Transition::Stay)
            && (old(selector).max_idx > 0 ==> final(selector).idx == (old(selector).idx + old(
            selector,
        ).max_idx - 1) as int % (old(selector).max_idx as int))),
        !(key == Key::Char('q') || key == Key::Char('b') || key == Key::Char('j') || key
            == Key::Down || key == Key::Char('k') || key == Key::Up) ==> (r matches ControlOption::E(
            k,
        ) && k == key && *final(selector) == *old(selector)),
    {
        match key {
            Key::Char(c) => {
                if c == 'q' {
                    ControlOption::T(Transition::Quit)
                } else if c == 'b' {
                    ControlOption::T(Transition::Pop)
                } else if c == 'j' {
                    selector.incr();
                    ControlOption::T(Transition::Stay)
                } else if c == 'k' {
                    selector.decr();
                    ControlOption::T(Transition::Stay)
                } else {
                    ControlOption::E(key)
                }
            },
            Key::Down => {
                selector.incr();
                ControlOption::T(Transition::Stay)
            },
            Key::Up => {
                selector.decr();
                ControlOption::T(Transition::Stay)
            },
            _ => ControlOption::E(key),
        }
    }

impl MainViewState {
    /// The main view's bindings: the defaults, plus delete, edit, new and
    /// select on the current row. With an empty list the row-bound keys
    /// wait for input instead. A store failure on select is reported as a
    /// popup.
    pub fn controler(&mut self, key: Key, store: &TaskStore) -> (r: Transition)
        requires
            old(self).wf(),
        ensures
            final(self).wf(),
            final(self).items == old(self).items,
            r matches Transition::Push(v) ==> v.wf(),
            key == Key::Char('q') ==> r is Quit,
            key == Key::Char('b') ==> r is Pop,
            key == Key::Char('j') || key == Key::Down || key == Key::Char('k') || key == Key::Up
                ==> r is Stay,
            key == Key::Char('d') ==> if old(self).items@.len() > 0 {
                r matches Transition::Push(View::DeleteTaskView(d)) && d.delete_item@ == old(
                    self,
                ).items@[old(self).selector.idx as int]@
            } else {
                r is Stay
            },
            key == Key::Char('e') ==> if old(self).items@.len() > 0 {
                r matches Transition::Push(View::ConfigTaskView(c)) && c.config_item@ == old(
                    self,
                ).items@[old(self).selector.idx as int]@
            } else {
                r is Stay
            },
            key == Key::Char('n') ==> (r matches Transition::Push(View::CreateTaskView(c))
                && c.is_edit == false && c.wf()),
            key == Key::Char('s') || key == Key::Enter ==> if old(self).items@.len() > 0 {
                (r matches Transition::Push(View::TaskView(ts)) && ts.task@ == old(
                    self,
                ).items@[old(self).selector.idx as int]@) || (r matches Transition::Push(v)
                    && v is PopUpView)
            } else {
                r is Stay
            },
    {
        match default_controls(&mut self.selector, key) {
            ControlOption::T(t) => t,
            ControlOption::E(k) => match k {
                Key::Char(c) => {
                    if c == 'd' {
                        if self.items.len() > 0 {
                            let item = self.items[self.selector.idx].clone();
                            Transition::Push(View::DeleteTaskView(DeleteViewState::new(item)))
                        } else {
                            Transition::Stay
                        }
                    } else if c == 'e' {
                        if self.items.len() > 0 {
                            let item = self.items[self.selector.idx].clone();
                            Transition::Push(View::ConfigTaskView(ConfigViewState::new(item)))
                        } else {
                            Transition::Stay
                        }
                    } else if c == 'n' {
                        let name = String::from_str("New Task");
                        let desc = String::from_str("Task Description");
                        proof {
                            reveal_strlit("New Task");
                            reveal_strlit("Task Description");
                            assert(vstd::utf8::is_ascii_chars(name@));
                            assert(vstd::utf8::is_ascii_chars(desc@));
                            vstd::utf8::is_ascii_chars_encode_utf8(name@);
                            vstd::utf8::is_ascii_chars_encode_utf8(desc@);
                        }
                        let item = Task::new(name, desc);
                        Transition::Push(View::CreateTaskView(CreateTaskViewState::new(item, false)))
                    } else if c == 's' {
                        self.select_row(store)
                    } else {
                        Transition::Stay
                    }
                },
                Key::Enter => self.select_row(store),
                _ => Transition::Stay,
            },
        }
    }

    /// Open the task under the cursor, or report the store failure.
    fn select_row(&mut self, store: &TaskStore) -> (r: Transition)
        requires
            old(self).wf(),
        ensures
            final(self).wf(),
            final(self).items == old(self).items,
            *final(self) == *old(self),
            r matches Transition::Push(v) ==> v.wf(),
            if old(self).items@.len() > 0 {
                (r matches Transition::Push(View::TaskView(ts)) && ts.task@ == old(
                    self,
                ).items@[old(self).selector.idx as int]@) || (r matches Transition::Push(v)
                    && v is PopUpView)
            } else {
                r is Stay
            },
    {
        if self.items.len() > 0 {
            let item = self.items[self.selector.idx].clone();
            match TaskViewState::new(item, store) {
                Ok(ts) => Transition::Push(View::TaskView(ts)),
                Err(e) => Transition::Push(
                    View::PopUpView(PopUpViewState::new(String::from_str(e.message()))),
                ),
            }
        } else {
            Transition::Stay
        }
    }
}

impl TaskViewState {
    /// The task view's bindings: the defaults, plus delete and select on
    /// the current entry, and a new-entry key that stores a fresh empty
    /// entry under the shown task at once. Store failures are reported
    /// as popups.
    pub fn controler(&mut self, key: Key, store: &mut TaskStore) -> (r: Transition)
        requires
            old(self).wf(),
        ensures
            final(self).wf(),
            final(self).items == old(self).items,
            final(self).task == old(self).task,
            r matches Transition::Push(v) ==> v.wf(),
            key == Key::Char('q') ==> r is Quit,
            key == Key::Char('b') ==> r is Pop,
            key == Key::Char('j') || key == Key::Down || key == Key::Char('k') || key == Key::Up
                ==> (r is Stay && final(store)@ == old(store)@),
            key == Key::Char('d') ==> final(store)@ == old(store)@ && if old(self).items@.len()
                > 0 {
                r matches Transition::Push(View::DeleteEntryView(d)) && d.delete_item@ == old(
                    self,
                ).items@[old(self).selector.idx as int]@
            } else {
                r is Stay
            },
            key == Key::Char('n') ==> ((r is Stay && exists|e: crate::model::task_entry::TaskEntryView|
                e.task_id == old(self).task@.id && e.content == Seq::<u8>::empty() && final(store)@
                    == old(store)@.insert(entry_key_bytes(e.task_id, e.id), entry_enc(e))) || (
            r matches Transition::Push(v) && v is PopUpView)),
            key == Key::Char('s') || key == Key::Enter ==> final(store)@ == old(store)@ && if old(
                self,
            ).items@.len() > 0 {
                r matches Transition::Push(View::EntryView(es)) && es.task_entry@ == old(
                    self,
                ).items@[old(self).selector.idx as int]@
            } else {
                r is Stay
            },
    {
        match default_controls(&mut self.selector, key) {
            ControlOption::T(t) => t,
            ControlOption::E(k) => match k {
                Key::Char(c) => {
                    if c == 'd' {
                        if self.items.len() > 0 {
                            let item = self.items[self.selector.idx].clone();
                            Transition::Push(View::DeleteEntryView(DeleteViewState::new(item)))
                        } else {
                            Transition::Stay
                        }
                    } else if c == 'n' {
                        let empty = "";
                        proof {
                            reveal_strlit("");
                            assert(vstd::utf8::is_ascii_chars(empty@));
                            vstd::utf8::is_ascii_chars_encode_utf8(empty@);
                        }
                        let entry = TaskEntry::new(self.task.id, empty);
                        proof {
                            assert(entry@.content =~= Seq::<u8>::empty());
                        }
                        match store.put(entry) {
                            Ok(_) => Transition::Stay,
                            Err(e) => Transition::Push(
                                View::PopUpView(PopUpViewState::new(String::from_str(e.message()))),
                            ),
                        }
                    } else if c == 's' {
                        self.select_entry()
                    } else {
                        Transition::Stay
                    }
                },
                Key::Enter => self.select_entry(),
                _ => Transition::Stay,
            },
        }
    }

    /// Open the entry under the cursor in the editor view.
    fn select_entry(&mut self) -> (r: Transition)
        requires
            old(self).wf(),
        ensures
            *final(self) == *old(self),
            final(self).wf(),
            r matches Transition::Push(v) ==> v.wf(),
            if old(self).items@.len() > 0 {
                r matches Transition::Push(View::EntryView(es)) && es.task_entry@ == old(
                    self,
                ).items@[old(self).selector.idx as int]@
            } else {
                r is Stay
            },
    {
        if self.items.len() > 0 {
            let item = self.items[self.selector.idx].clone();
            Transition::Push(View::EntryView(EntryViewState::new(item)))
        } else {
            Transition::Stay
        }
    }
}

/// Relies on `String::push`: appends exactly one character.
#[verifier::external_body]
fn string_push(s: &mut String, c: char)
    ensures
        final(s)@ == old(s)@.push(c),
{
    s.push(c);
}

/// Relies on `String::pop`: removes and returns the last character.
#[verifier::external_body]
fn string_pop(s: &mut String) -> (r: Option<char>)
    ensures
        old(s)@.len() == 0 ==> final(s)@ == old(s)@ && r is None,
        old(s)@.len() > 0 ==> final(s)@ == old(s)@.drop_last() && r == Some(old(s)@.last()),
{
    s.pop()
}

impl CreateTaskViewState {
    /// What the active field becomes when a character is typed: extended
    /// by the character when it still fits a stored record, unchanged
    /// otherwise.
    pub open spec fn typed_field(t: Seq<char>, c: char) -> Seq<char> {
        if encode_utf8(t).len() + 4 <= FIELD_LIMIT {
            t.push(c)
        } else {
            t
        }
    }

    /// The form's bindings: characters land in the active field,
    /// backspace removes one, tab cycles the active field, escape
    /// abandons the form, and enter validates and commits. A task with an
    /// empty name is rejected with a popup; so is a failed write.
    pub fn controller(&mut self, key: Key, store: &mut TaskStore) -> (r: Transition)
        requires
            old(self).wf(),
        ensures
            final(self).wf(),
            final(self).is_edit == old(self).is_edit,
            r matches Transition::Push(v) ==> v.wf(),
            key == Key::Esc ==> (r is Pop && final(store)@ == old(store)@),
            key matches Key::Char(c) ==> (r is Stay && final(store)@ == old(store)@
                && final(self).active_input == old(self).active_input
                && final(self).inputs@[old(self).active_input as int]@ == Self::typed_field(
                old(self).inputs@[old(self).active_input as int]@,
                c,
            ) && final(self).inputs@[1 - old(self).active_input as int]@ == old(self).inputs@[1
                - old(self).active_input as int]@),
            key == Key::Backspace ==> (r is Stay && final(store)@ == old(store)@
                && final(self).active_input == old(self).active_input
                && final(self).inputs@[old(self).active_input as int]@ == (if old(self).inputs@[old(
                self,
            ).active_input as int]@.len() > 0 {
                old(self).inputs@[old(self).active_input as int]@.drop_last()
            } else {
                old(self).inputs@[old(self).active_input as int]@
            }) && final(self).inputs@[1 - old(self).active_input as int]@ == old(self).inputs@[1
                - old(self).active_input as int]@),
            key == Key::Tab ==> (r is Stay && final(store)@ == old(store)@
                && final(self).active_input == (old(self).active_input + 1) as int % 2
                && final(self).inputs@ == old(self).inputs@),
            key == Key::Enter ==> ({
                ||| (old(self).inputs@[0]@.len() == 0 && (r matches Transition::Push(v)
                    && v is PopUpView) && final(store)@ == old(store)@)
                ||| (old(self).inputs@[0]@.len() > 0 && r is Pop && exists|t: crate::model::task::TaskView|
                    #![auto]
                    t.name == old(self).inputs@[0]@ && t.desc == old(self).inputs@[1]@ && (old(
                        self,
                    ).is_edit ==> t.id == old(self).item@.id && t.timestamp == old(
                        self,
                    ).item@.timestamp) && final(store)@ == old(
                        store,
                    )@.insert(task_key_bytes(t.id), task_enc(t)))
                ||| (old(self).inputs@[0]@.len() > 0 && (r matches Transition::Push(v)
                    && v is PopUpView))
            }),
            !(key matches Key::Char(_) || key == Key::Esc || key == Key::Backspace || key
                == Key::Tab || key == Key::Enter) ==> (r is Stay && final(store)@ == old(store)@),
    {
        match key {
            Key::Esc => Transition::Pop,
            Key::Char(c) => {
                let active = self.active_input;
                let ghost t = self.inputs@[active as int]@;
                let mut s = self.inputs.remove(active);
                if s.as_str().len() <= (FIELD_LIMIT - 4) as usize {
                    string_push(&mut s, c);
                    proof {
                        crate::codec::lemma_encode_utf8_concat(t, seq![c]);
                        crate::codec::lemma_encode_char_len(c);
                        assert(t + seq![c] =~= t.push(c));
                    }
                }
                self.inputs.insert(active, s);
                proof {
                    assert(self.inputs@ =~= old(self).inputs@.update(
                        active as int,
                        self.inputs@[active as int],
                    ));
                }
                Transition::Stay
            },
            Key::Backspace => {
                let active = self.active_input;
                let ghost t = self.inputs@[active as int]@;
                let mut s = self.inputs.remove(active);
                let _ = string_pop(&mut s);
                proof {
                    if t.len() > 0 {
                        crate::codec::lemma_encode_utf8_concat(t.drop_last(), seq![t.last()]);
                        assert(t.drop_last() + seq![t.last()] =~= t);
                    }
                }
                self.inputs.insert(active, s);
                proof {
                    assert(self.inputs@ =~= old(self).inputs@.update(
                        active as int,
                        self.inputs@[active as int],
                    ));
                }
                Transition::Stay
            },
            Key::Tab => {
                self.active_input = (self.active_input + 1) % 2;
                Transition::Stay
            },
            Key::Enter => {
                if self.inputs[0].as_str().is_empty() {
                    return Transition::Push(
                        View::PopUpView(
                            PopUpViewState::new(String::from_str("A task needs a name")),
                        ),
                    );
                }
                let item = if self.is_edit {
                    Task {
                        id: self.item.id,
                        name: self.inputs[0].clone(),
                        desc: self.inputs[1].clone(),
                        timestamp: self.item.timestamp,
                        ty: self.item.ty,
                        eval_period: self.item.eval_period,
                    }
                } else {
                    Task::new(self.inputs[0].clone(), self.inputs[1].clone())
                };
                match store.put(item) {
                    Ok(_) => Transition::Pop,
                    Err(e) => Transition::Push(
                        View::PopUpView(PopUpViewState::new(String::from_str(e.message()))),
                    ),
                }
            },
            _ => Transition::Stay,
        }
    }
}

impl PopUpViewState {
    /// Any key dismisses the message.
    pub fn controler(&mut self, key: Key) -> (r: Transition)
        ensures
            *final(self) == *old(self),
            r is Pop,
    {
        let _ = key;
        Transition::Pop
    }
}

impl DeleteViewState<Task> {
    /// The delete prompt for a task: an affirmative key deletes the item
    /// and resolves; a negative key resolves without deleting; anything
    /// else waits. A failed delete is reported as a popup.
    pub fn controler(&mut self, key: Key, store: &mut TaskStore) -> (r: Transition)
        requires
            task_inv(old(self).delete_item@),
        ensures
            *final(self) == *old(self),
            task_inv(final(self).delete_item@),
            r matches Transition::Push(v) ==> v.wf(),
            key == Key::Char('y') || key == Key::Char('Y') ==> ((r is Pop && final(store)@ == old(
                store,
            )@.remove(task_key_bytes(old(self).delete_item@.id))) || (r matches Transition::Push(v)
                && v is PopUpView)),
            key == Key::Char('n') || key == Key::Char('N') || key == Key::Esc || key == Key::Char(
                'q',
            ) ==> (r is Pop && final(store)@ == old(store)@),
            !(key == Key::Char('y') || key == Key::Char('Y') || key == Key::Char('n') || key
                == Key::Char('N') || key == Key::Esc || key == Key::Char('q')) ==> (r is Stay
                && final(store)@ == old(store)@),
    {
        match key {
            Key::Char(c) => {
                if c == 'y' || c == 'Y' {
                    match store.delete_item(&self.delete_item) {
                        Ok(()) => Transition::Pop,
                        Err(e) => Transition::Push(
                            View::PopUpView(PopUpViewState::new(String::from_str(e.message()))),
                        ),
                    }
                } else if c == 'n' || c == 'N' || c == 'q' {
                    Transition::Pop
                } else {
                    Transition::Stay
                }
            },
            Key::Esc => Transition::Pop,
            _ => Transition::Stay,
        }
    }
}

impl DeleteViewState<TaskEntry> {
    /// The delete prompt for an entry; as for a task.
    pub fn controler(&mut self, key: Key, store: &mut TaskStore) -> (r: Transition)
        requires
            entry_inv(old(self).delete_item@),
        ensures
            *final(self) == *old(self),
            entry_inv(final(self).delete_item@),
            r matches Transition::Push(v) ==> v.wf(),
            key == Key::Char('y') || key == Key::Char('Y') ==> ((r is Pop && final(store)@ == old(
                store,
            )@.remove(entry_key_bytes(old(self).delete_item@.task_id, old(self).delete_item@.id))) || (
            r matches Transition::Push(v) && v is PopUpView)),
            key == Key::Char('n') || key == Key::Char('N') || key == Key::Esc || key == Key::Char(
                'q',
            ) ==> (r is Pop && final(store)@ == old(store)@),
            !(key == Key::Char('y') || key == Key::Char('Y') || key == Key::Char('n') || key
                == Key::Char('N') || key == Key::Esc || key == Key::Char('q')) ==> (r is Stay
                && final(store)@ == old(store)@),
    {
        match key {
            Key::Char(c) => {
                if c == 'y' || c == 'Y' {
                    match store.delete_item(&self.delete_item) {
                        Ok(()) => Transition::Pop,
                        Err(e) => Transition::Push(
                            View::PopUpView(PopUpViewState::new(String::from_str(e.message()))),
                        ),
                    }
                } else if c == 'n' || c == 'N' || c == 'q' {
                    Transition::Pop
                } else {
                    Transition::Stay
                }
            },
            Key::Esc => Transition::Pop,
            _ => Transition::Stay,
        }
    }
}

impl EntryViewState {
    /// Take the bytes read back from the external editor as the entry's
    /// new content and store the entry. The view resolves either way; a
    /// failed write is reported as a popup and the edit stays in the
    /// entry, so it is not silently lost.
    pub fn commit_content(&mut self, edited: Vec<u8>, store: &mut TaskStore) -> (r: Transition)
        requires
            edited@.len() <= FIELD_LIMIT,
            entry_inv(old(self).task_entry@),
        ensures
            final(self).task_entry@.content == edited@,
            final(self).task_entry@.id == old(self).task_entry@.id,
            final(self).task_entry@.task_id == old(self).task_entry@.task_id,
            final(self).task_entry@.timestamp == old(self).task_entry@.timestamp,
            entry_inv(final(self).task_entry@),
            r matches Transition::Push(v) ==> v.wf(),
            (r is Pop && final(store)@ == old(store)@.insert(
                entry_key_bytes(old(self).task_entry@.task_id, old(self).task_entry@.id),
                entry_enc(final(self).task_entry@),
            )) || (r matches Transition::Push(v) && v is PopUpView),
    {
        self.task_entry.content = edited;
        self.in_editor = false;
        match store.put(self.task_entry.clone()) {
            Ok(_) => Transition::Pop,
            Err(e) => Transition::Push(
                View::PopUpView(PopUpViewState::new(String::from_str(e.message()))),
            ),
        }
    }
}

impl ConfigViewState<Task> {
    /// Apply what came back from the editor: parse the text against the
    /// item and store the updated task. The item's identity and creation
    /// time always survive; a rejected text or a failed write is reported
    /// as a popup instead.
    pub fn commit_text(&mut self, edited: String, store: &mut TaskStore) -> (r: Transition)
        requires
            task_inv(old(self).config_item@),
        ensures
            *final(self) == *old(self),
            task_inv(final(self).config_item@),
            r matches Transition::Push(v) ==> v.wf() && v is PopUpView,
            r is Pop || r matches Transition::Push(v),
            r is Pop ==> exists|t: TaskView|
                #![auto]
                t.id == old(self).config_item@.id && t.timestamp == old(
                    self,
                ).config_item@.timestamp && task_inv(t) && final(store)@ == old(store)@.insert(
                    task_key_bytes(t.id),
                    task_enc(t),
                ) && (first_nl(encode_utf8(edited@)) matches Some(i) && i > 0 && encode_utf8(t.name)
                    == encode_utf8(edited@).subrange(0, i) && encode_utf8(t.desc) == encode_utf8(
                    edited@,
                ).subrange(i + 1, encode_utf8(edited@).len() as int)),
            (match first_nl(encode_utf8(edited@)) {
                Some(i) => i == 0 || i > FIELD_LIMIT || encode_utf8(edited@).len() - i - 1
                    > FIELD_LIMIT,
                None => true,
            }) ==> (final(store)@ == old(store)@ && (r matches Transition::Push(v)
                && v is PopUpView)),
    {
        match self.config_item.from_text(edited.as_str()) {
            Ok(t) => match store.put(t) {
                Ok(_) => Transition::Pop,
                Err(e) => Transition::Push(
                    View::PopUpView(PopUpViewState::new(String::from_str(e.message()))),
                ),
            },
            Err(_) => Transition::Push(
                View::PopUpView(
                    PopUpViewState::new(String::from_str("Could not parse the edited text")),
                ),
            ),
        }
    }
}

} // verus!
