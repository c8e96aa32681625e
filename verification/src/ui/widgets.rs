//! What should be drawn, as plain data: a widget description computed
//! from view state alone. Turning these into styled terminal widgets is
//! the front end's business, not the engine's.

use vstd::prelude::*;
use vstd::view::View as _;
use vstd::string::StringExecFns;
use crate::model::convert::Storable;
use crate::model::fresh::timestamp_display_spec;
use crate::model::task::Task;
use crate::model::task_entry::TaskEntry;
use crate::ui::control::UserAction;
use crate::ui::state::{
    MainViewState, TaskViewState, CreateTaskViewState, PopUpViewState, DeleteViewState,
};

verus! {

/// One drawable element.
pub enum AnyWidget {
    /// A titled list of lines.
    List { title: String, items: Vec<String> },
    /// A titled table with a header row and a selected row.
    Table { title: String, headers: Vec<String>, rows: Vec<Vec<String>>, selected: usize },
    /// A titled block of text, possibly highlighted.
    Paragraph { title: String, text: String, highlight: bool },
}

/// A titled list of the given lines.
pub fn list_factory(items: Vec<String>, title: String) -> (r: AnyWidget)
    ensures
        r matches AnyWidget::List { title: t, items: it } && t@ == title@ && it@ == items@,
{
    AnyWidget::List { title, items }
}

/// A titled block of text.
pub fn paragraph_factory(title: &str, init_text: &str, highlight: bool) -> (r: AnyWidget)
    ensures
        r matches AnyWidget::Paragraph { title: t, text: x, highlight: h } && t@ == title@ && x@
            == init_text@ && h == highlight,
{
    AnyWidget::Paragraph {
        title: String::from_str(title),
        text: String::from_str(init_text),
        highlight,
    }
}

/// The text of the controls bar: every action's label, separated by bars.
pub open spec fn control_bar_text() -> Seq<char> {
    "Select (s)"@ + " | "@ + "New (n)"@ + " | "@ + "Edit (e)"@ + " | "@ + "Delete (d)"@ + " | "@
        + "Back (b)"@ + " | "@ + "Quit (q)"@
}

/// The controls bar: one table row listing every action with its key.
pub fn control_widget() -> (r: AnyWidget)
    ensures
        r matches AnyWidget::Table { title, headers, rows, selected } && title@ == "Controls"@
            && headers@.len() == 0 && rows@.len() == 1 && rows@[0]@.len() == 1 && rows@[0]@[0]@
            == control_bar_text(),
{
    let actions = UserAction::all();
    let mut text = String::new();
    let mut i: usize = 0;
    while i < 6
        invariant
            i <= 6,
            actions@ == crate::ui::control::user_action_order(),
            text@ == label_join(i as int),
        decreases 6 - i,
    {
        if i > 0 {
            text.append(" | ");
        }
        text.append(actions[i].label());
        i += 1;
    }
    let mut cell: Vec<String> = Vec::new();
    cell.push(text);
    let mut rows: Vec<Vec<String>> = Vec::new();
    rows.push(cell);
    proof {
        reveal_with_fuel(label_join, 7);
        assert(label_join(6) =~= control_bar_text());
    }
    AnyWidget::Table {
        title: String::from_str("Controls"),
        headers: Vec::new(),
        rows,
        selected: 0,
    }
}

/// The first `n` labels of the controls bar, separated by bars.
pub open spec fn label_join(n: int) -> Seq<char>
    decreases n,
{
    if n <= 0 {
        Seq::empty()
    } else if n == 1 {
        "Select (s)"@
    } else {
        label_join(n - 1) + " | "@ + (match crate::ui::control::user_action_order()[n - 1] {
            UserAction::Select => "Select (s)"@,
            UserAction::New => "New (n)"@,
            UserAction::Edit => "Edit (e)"@,
            UserAction::Delete => "Delete (d)"@,
            UserAction::Back => "Back (b)"@,
            UserAction::Quit => "Quit (q)"@,
        })
    }
}

/// A table over stored items: one row of display fields per item, under
/// the given headers, with the cursor's row marked selected.
pub fn item_table<T: Storable>(items: &Vec<T>, headers: Vec<String>, selected: usize) -> (r:
    AnyWidget)
    ensures
        r matches AnyWidget::Table { title, headers: h, rows, selected: s } && title@ == "Tasks"@
            && h@ == headers@ && s == selected && rows@.len() == items@.len() && forall|i: int|
            0 <= i < rows@.len() ==> (#[trigger] rows@[i]).deep_view() == T::fields_of(
                items@[i]@,
            ),
{
    let mut rows: Vec<Vec<String>> = Vec::new();
    let n = items.len();
    let mut i: usize = 0;
    while i < n
        invariant
            i <= n,
            n == items@.len(),
            rows@.len() == i,
            forall|j: int|
                0 <= j < i ==> (#[trigger] rows@[j]).deep_view() == T::fields_of(items@[j]@),
        decreases n - i,
    {
        rows.push(items[i].get_display_fields());
        i += 1;
    }
    AnyWidget::Table { title: String::from_str("Tasks"), headers, rows, selected }
}

impl MainViewState {
    /// The main view draws the controls bar and the table of tasks.
    pub fn widgets(&self) -> (r: Vec<AnyWidget>)
        requires
            self.wf(),
        ensures
            r@.len() == 2,
            r@[1] matches AnyWidget::Table { rows, selected, .. } && selected == self.selector.idx
                && rows@.len() == self.items@.len() && forall|i: int|
                0 <= i < rows@.len() ==> (#[trigger] rows@[i]).deep_view()
                    == <Task as Storable>::fields_of(self.items@[i]@),
    {
        let mut headers: Vec<String> = Vec::new();
        headers.push(String::from_str("Habit"));
        headers.push(String::from_str("Created"));
        headers.push(String::from_str("Description"));
        let table = item_table(&self.items, headers, self.selector.idx);
        let mut r: Vec<AnyWidget> = Vec::new();
        r.push(control_widget());
        r.push(table);
        r
    }
}

impl TaskViewState {
    /// The task view draws the controls bar and the table of entries.
    pub fn widgets(&self) -> (r: Vec<AnyWidget>)
        requires
            self.wf(),
        ensures
            r@.len() == 2,
            r@[1] matches AnyWidget::Table { rows, selected, .. } && selected == self.selector.idx
                && rows@.len() == self.items@.len() && forall|i: int|
                0 <= i < rows@.len() ==> (#[trigger] rows@[i]).deep_view()
                    == <TaskEntry as Storable>::fields_of(self.items@[i]@),
    {
        let mut headers: Vec<String> = Vec::new();
        headers.push(String::from_str("Entry Date"));
        headers.push(String::from_str("Preview"));
        let table = item_table(&self.items, headers, self.selector.idx);
        let mut r: Vec<AnyWidget> = Vec::new();
        r.push(control_widget());
        r.push(table);
        r
    }
}

impl CreateTaskViewState {
    /// The form draws its two fields, the active one highlighted.
    pub fn widgets(&self) -> (r: Vec<AnyWidget>)
        requires
            self.wf(),
        ensures
            r@.len() == 2,
            r@[0] matches AnyWidget::Paragraph { text, highlight, .. } && text@
                == self.inputs@[0]@ && highlight == (self.active_input == 0),
            r@[1] matches AnyWidget::Paragraph { text, highlight, .. } && text@
                == self.inputs@[1]@ && highlight == (self.active_input == 1),
    {
        let name = paragraph_factory(
            "Task Name",
            self.inputs[0].as_str(),
            self.active_input == 0,
        );
        let desc = paragraph_factory(
            "Task Description",
            self.inputs[1].as_str(),
            self.active_input == 1,
        );
        let mut r: Vec<AnyWidget> = Vec::new();
        r.push(name);
        r.push(desc);
        r
    }
}

impl PopUpViewState {
    /// The popup draws its one message.
    pub fn widgets(&self) -> (r: Vec<AnyWidget>)
        ensures
            r@.len() == 1,
            r@[0] matches AnyWidget::Paragraph { text, .. } && text@ == self.text@,
    {
        let mut r: Vec<AnyWidget> = Vec::new();
        r.push(paragraph_factory("", self.text.as_str(), false));
        r
    }
}

impl DeleteViewState<Task> {
    /// The prompt names the doomed task and asks for confirmation.
    pub fn widgets(&self) -> (r: Vec<AnyWidget>)
        ensures
            r@.len() == 1,
            r@[0] matches AnyWidget::Paragraph { text, .. } && text@ == "Delete item: "@
                + self.delete_item@.name + "? (Y/N)"@,
    {
        let mut text = String::from_str("Delete item: ");
        text.append(self.delete_item.name.as_str());
        text.append("? (Y/N)");
        let mut r: Vec<AnyWidget> = Vec::new();
        r.push(AnyWidget::Paragraph { title: String::new(), text, highlight: false });
        r
    }
}

impl DeleteViewState<TaskEntry> {
    /// The prompt names the doomed entry by its date and asks for
    /// confirmation.
    pub fn widgets(&self) -> (r: Vec<AnyWidget>)
        ensures
            r@.len() == 1,
            r@[0] matches AnyWidget::Paragraph { text, .. } && text@ == "Delete item: "@
                + timestamp_display_spec(self.delete_item@.timestamp) + "? (Y/N)"@,
    {
        let mut text = String::from_str("Delete item: ");
        let stamp = self.delete_item.get_timestamp();
        text.append(stamp.as_str());
        text.append("? (Y/N)");
        let mut r: Vec<AnyWidget> = Vec::new();
        r.push(AnyWidget::Paragraph { title: String::new(), text, highlight: false });
        r
    }
}

} // verus!
