use packrat::cli::{Mode, CLI};
use packrat::model::convert::{Storable, StoreError};
use packrat::model::store::TaskStore;
use packrat::model::task::{EvalPeriod, Task, TaskTy};
use packrat::model::task_entry::TaskEntry;
use packrat::ui::control::{Key, UserAction};
use packrat::ui::state::{
    CreateTaskViewState, DeleteViewState, EntryViewState, MainViewState, PopUpViewState,
    TaskViewState,
};
use packrat::ui::view::{App, Transition, View};
use packrat::ui::widgets::AnyWidget;
use tempfile::TempDir;

fn empty_store() -> (TaskStore, TempDir) {
    let dir = TempDir::new().unwrap();
    let store = TaskStore::new(dir.path().join("views.db").to_str().unwrap()).unwrap();
    (store, dir)
}

fn stamped_task(id: u128, name: &str, timestamp: u64) -> Task {
    Task {
        id,
        name: String::from(name),
        desc: String::from("desc"),
        timestamp,
        ty: TaskTy::Raw,
        eval_period: EvalPeriod::Daily,
    }
}

#[test]
fn stack_pop_at_depth_one_never_empties() {
    let (store, _dir) = empty_store();
    let mut app = App::new(&store).unwrap();
    assert_eq!(app.view_stack.len(), 1);

    // Pop at depth one is a no-op, not a termination.
    let quit = app.step(Transition::Pop);
    assert!(!quit);
    assert_eq!(app.view_stack.len(), 1);

    // Push then pop returns to depth one.
    let quit = app.step(Transition::Push(View::PopUpView(PopUpViewState::new(
        String::from("hello"),
    ))));
    assert!(!quit);
    assert_eq!(app.view_stack.len(), 2);
    let quit = app.step(Transition::Pop);
    assert!(!quit);
    assert_eq!(app.view_stack.len(), 1);

    // Stay changes nothing; only Quit ends the loop.
    assert!(!app.step(Transition::Stay));
    assert_eq!(app.view_stack.len(), 1);
    assert!(app.step(Transition::Quit));
    assert_eq!(app.view_stack.len(), 1);
}

#[test]
fn scenario_create_task_and_entry() {
    let (mut store, _dir) = empty_store();

    // Start with an empty store; commit a create form for Walk Dog.
    let mut form = CreateTaskViewState::new(
        Task::new(String::from("Walk Dog"), String::from("desc")),
        false,
    );
    let t = form.controller(Key::Enter, &mut store);
    assert!(matches!(t, Transition::Pop));

    // Main's list contains exactly one row named Walk Dog.
    let main = MainViewState::new(&store).unwrap();
    assert_eq!(main.items.len(), 1);
    assert_eq!(main.items[0].name, "Walk Dog");

    // Push the task's detail view: its list is empty.
    let task = main.items[0].clone();
    let mut detail = TaskViewState::new(task, &store).unwrap();
    assert_eq!(detail.items.len(), 0);

    // The new-entry key creates an entry with empty content.
    let t = detail.controler(Key::Char('n'), &mut store);
    assert!(matches!(t, Transition::Stay));
    detail.update(&store);
    assert_eq!(detail.items.len(), 1);
    assert_eq!(detail.items[0].content, Vec::<u8>::new());

    // Back on the main view the one task still shows.
    let mut main = MainViewState::new(&store).unwrap();
    main.update(&store);
    assert_eq!(main.items.len(), 1);
}

#[test]
fn scenario_scan_returns_newest_first() {
    let (mut store, _dir) = empty_store();
    let a = stamped_task(1, "A", 100);
    let b = stamped_task(2, "B", 200);
    store.put(a).unwrap();
    store.put(b).unwrap();

    let tasks: Vec<Task> = store.get_prefix(Task::key_all()).unwrap();
    assert_eq!(tasks.len(), 2);
    assert_eq!(tasks[0].name, "B");
    assert_eq!(tasks[1].name, "A");
}

#[test]
fn scan_order_is_non_increasing() {
    let (mut store, _dir) = empty_store();
    store.put(stamped_task(1, "t1", 100)).unwrap();
    store.put(stamped_task(3, "t3", 300)).unwrap();
    store.put(stamped_task(2, "t2", 200)).unwrap();

    let tasks: Vec<Task> = store.get_prefix(Task::key_all()).unwrap();
    let names: Vec<&str> = tasks.iter().map(|t| t.name.as_str()).collect();
    assert_eq!(names, vec!["t3", "t2", "t1"]);
    for w in tasks.windows(2) {
        assert!(w[0].timestamp >= w[1].timestamp);
    }
}

#[test]
fn put_same_id_twice_keeps_one_record() {
    let (mut store, _dir) = empty_store();
    store.put(stamped_task(7, "first", 10)).unwrap();
    store.put(stamped_task(7, "second", 20)).unwrap();

    let tasks: Vec<Task> = store.get_prefix(Task::key_all()).unwrap();
    assert_eq!(tasks.len(), 1);
    assert_eq!(tasks[0].name, "second");
}

#[test]
fn prefix_scan_isolates_parents() {
    let (mut store, _dir) = empty_store();
    let a = store.put(stamped_task(1, "A", 1)).unwrap();
    let b = store.put(stamped_task(2, "B", 2)).unwrap();
    store.put(TaskEntry::new(a.id, "for A one")).unwrap();
    store.put(TaskEntry::new(a.id, "for A two")).unwrap();
    store.put(TaskEntry::new(b.id, "for B one")).unwrap();

    let for_a: Vec<TaskEntry> = store
        .get_prefix(TaskEntry::key_task(a.id).as_str())
        .unwrap();
    assert_eq!(for_a.len(), 2);
    for e in &for_a {
        assert_eq!(e.task_id, a.id);
    }

    let for_b: Vec<TaskEntry> = store
        .get_prefix(TaskEntry::key_task(b.id).as_str())
        .unwrap();
    assert_eq!(for_b.len(), 1);
    assert_eq!(for_b[0].task_id, b.id);
}

#[test]
fn scenario_delete_confirm_removes_task_but_not_entries() {
    let (mut store, _dir) = empty_store();
    let a = store.put(stamped_task(1, "A", 1)).unwrap();
    let b = store.put(stamped_task(2, "B", 2)).unwrap();
    store.put(TaskEntry::new(a.id, "orphan to be")).unwrap();
    let key_a = a.to_key();
    let id_a = a.id;

    // Press the affirmative key on the delete prompt for A.
    let mut prompt = DeleteViewState::new(a);
    let t = prompt.controler(Key::Char('y'), &mut store);
    assert!(matches!(t, Transition::Pop));

    // A's key is gone; the main list drops to the remaining task.
    assert_eq!(store.get::<Task>(key_a).unwrap(), None);
    let main = MainViewState::new(&store).unwrap();
    assert_eq!(main.items.len(), 1);
    assert_eq!(main.items[0].id, b.id);

    // Deleting a task does not cascade: its entries stay in the store.
    let orphans: Vec<TaskEntry> = store
        .get_prefix(TaskEntry::key_task(id_a).as_str())
        .unwrap();
    assert_eq!(orphans.len(), 1);

    // The negative key only resolves the prompt.
    let mut prompt = DeleteViewState::new(main.items[0].clone());
    let t = prompt.controler(Key::Char('n'), &mut store);
    assert!(matches!(t, Transition::Pop));
    assert_eq!(
        store.get_prefix::<Task>(Task::key_all()).unwrap().len(),
        1
    );
}

#[test]
fn main_controller_navigates() {
    let (mut store, _dir) = empty_store();
    store.put(stamped_task(1, "A", 1)).unwrap();
    store.put(stamped_task(2, "B", 2)).unwrap();
    let mut main = MainViewState::new(&store).unwrap();

    assert!(matches!(
        main.controler(Key::Char('q'), &store),
        Transition::Quit
    ));
    assert!(matches!(
        main.controler(Key::Char('b'), &store),
        Transition::Pop
    ));

    // Moving down from the top lands on the second row.
    assert_eq!(main.selector.idx, 0);
    assert!(matches!(
        main.controler(Key::Down, &store),
        Transition::Stay
    ));
    assert_eq!(main.selector.idx, 1);

    // Select opens the detail view of the selected task.
    match main.controler(Key::Enter, &store) {
        Transition::Push(View::TaskView(ts)) => assert_eq!(ts.task.name, "A"),
        other => panic!("expected a task view push, got {:?}", discriminant_name(&other)),
    }

    // Delete targets the selected task.
    match main.controler(Key::Char('d'), &store) {
        Transition::Push(View::DeleteTaskView(d)) => assert_eq!(d.delete_item.name, "A"),
        _ => panic!("expected a delete prompt push"),
    }

    // Edit opens the config session for the selected task.
    match main.controler(Key::Char('e'), &store) {
        Transition::Push(View::ConfigTaskView(c)) => assert_eq!(c.config_item.name, "A"),
        _ => panic!("expected a config view push"),
    }

    // New opens a create form.
    match main.controler(Key::Char('n'), &store) {
        Transition::Push(View::CreateTaskView(c)) => assert!(!c.is_edit),
        _ => panic!("expected a create form push"),
    }
}

fn discriminant_name(t: &Transition) -> &'static str {
    match t {
        Transition::Push(_) => "Push",
        Transition::Pop => "Pop",
        Transition::Quit => "Quit",
        Transition::Stay => "Stay",
    }
}

#[test]
fn form_typing_edits_the_active_field() {
    let (mut store, _dir) = empty_store();
    let mut form =
        CreateTaskViewState::new(Task::new(String::new(), String::new()), false);

    // An empty name is rejected with a popup, and nothing is stored.
    match form.controller(Key::Enter, &mut store) {
        Transition::Push(View::PopUpView(p)) => assert_eq!(p.text, "A task needs a name"),
        _ => panic!("expected a validation popup"),
    }
    assert_eq!(store.get_prefix::<Task>(Task::key_all()).unwrap().len(), 0);

    // Type a name, a stray character, then erase it.
    form.controller(Key::Char('D'), &mut store);
    form.controller(Key::Char('o'), &mut store);
    form.controller(Key::Char('g'), &mut store);
    form.controller(Key::Char('!'), &mut store);
    form.controller(Key::Backspace, &mut store);
    assert_eq!(form.inputs[0], "Dog");

    // Tab moves to the description field and back.
    form.controller(Key::Tab, &mut store);
    assert_eq!(form.active_input, 1);
    form.controller(Key::Char('x'), &mut store);
    assert_eq!(form.inputs[1], "x");
    form.controller(Key::Tab, &mut store);
    assert_eq!(form.active_input, 0);

    // Commit stores the task under the typed name.
    assert!(matches!(
        form.controller(Key::Enter, &mut store),
        Transition::Pop
    ));
    let tasks: Vec<Task> = store.get_prefix(Task::key_all()).unwrap();
    assert_eq!(tasks.len(), 1);
    assert_eq!(tasks[0].name, "Dog");
    assert_eq!(tasks[0].desc, "x");
}

#[test]
fn form_edit_keeps_identity() {
    let (mut store, _dir) = empty_store();
    let task = store.put(stamped_task(9, "before", 5)).unwrap();
    let mut form = CreateTaskViewState::new(task.clone(), true);
    form.controller(Key::Backspace, &mut store);
    form.controller(Key::Char('!'), &mut store);
    assert!(matches!(
        form.controller(Key::Enter, &mut store),
        Transition::Pop
    ));
    let back = store.get::<Task>(task.to_key()).unwrap().unwrap();
    assert_eq!(back.id, task.id);
    assert_eq!(back.name, "befor!");
}

#[test]
fn entry_editor_commit_stores_edited_content() {
    let (mut store, _dir) = empty_store();
    let entry = store.put(TaskEntry::new(3, "draft")).unwrap();
    let key = entry.to_key();
    let mut editor = EntryViewState::new(entry);
    assert!(!editor.in_editor);

    let t = editor.commit_content(b"polished".to_vec(), &mut store);
    assert!(matches!(t, Transition::Pop));
    let back = store.get::<TaskEntry>(key).unwrap().unwrap();
    assert_eq!(back.get_content(), "polished");
}

#[test]
fn config_commit_round_trips_through_text() {
    let (mut store, _dir) = empty_store();
    let task = store.put(stamped_task(4, "old name", 9)).unwrap();
    let key = task.to_key();
    let mut session = packrat::ui::state::ConfigViewState::new(task);

    let t = session.commit_text(String::from("new name\nnew desc"), &mut store);
    assert!(matches!(t, Transition::Pop));
    let back = store.get::<Task>(key).unwrap().unwrap();
    assert_eq!(back.id, 4);
    assert_eq!(back.name, "new name");
    assert_eq!(back.desc, "new desc");

    // A text the parser rejects only raises a popup.
    let t = session.commit_text(String::from("no line break"), &mut store);
    assert!(matches!(t, Transition::Push(View::PopUpView(_))));
}

#[test]
fn get_as_wrong_type_is_a_codec_error() {
    let (mut store, _dir) = empty_store();
    let entry = TaskEntry {
        id: 0,
        task_id: 0,
        content: vec![],
        timestamp: 0,
    };
    let key = entry.to_key();
    store.put(entry).unwrap();

    // The record under an entry key does not decode as a task.
    assert_eq!(store.get::<Task>(key), Err(StoreError::Codec));
}

#[test]
fn popup_dismisses_on_any_key() {
    let mut popup = PopUpViewState::new(String::from("message"));
    assert!(matches!(popup.controler(Key::Other), Transition::Pop));
    assert!(matches!(popup.controler(Key::Char('x')), Transition::Pop));
}

#[test]
fn control_bar_lists_every_action() {
    let actions = UserAction::all();
    assert_eq!(actions.len(), 6);
    assert!(matches!(UserAction::from_index(0), UserAction::Select));
    assert_eq!(UserAction::from_index(5).label(), "Quit (q)");

    match packrat::ui::widgets::control_widget() {
        AnyWidget::Table { rows, .. } => {
            assert_eq!(
                rows[0][0],
                "Select (s) | New (n) | Edit (e) | Delete (d) | Back (b) | Quit (q)"
            );
        }
        _ => panic!("expected a table"),
    }
}

#[test]
fn widgets_mirror_the_view_state() {
    let (mut store, _dir) = empty_store();
    store.put(stamped_task(1, "A", 1431648000)).unwrap();
    let main = MainViewState::new(&store).unwrap();
    match &main.widgets()[1] {
        AnyWidget::Table { rows, selected, .. } => {
            assert_eq!(*selected, 0);
            assert_eq!(rows.len(), 1);
            assert_eq!(rows[0], vec!["A", "2015-05-15 00:00:00", "desc"]);
        }
        _ => panic!("expected the task table"),
    }
}

#[test]
fn csv_rows_pad_columns_to_the_longest() {
    let names = vec![String::from("A"), String::from("B")];
    let columns = vec![
        vec![String::from("a1"), String::from("a2")],
        vec![String::from("b1")],
    ];
    let rows = packrat::model::store::csv_rows(&names, &columns);
    assert_eq!(
        rows,
        vec![
            vec![String::from("A"), String::from("B")],
            vec![String::from("a1"), String::from("b1")],
            vec![String::from("a2"), String::from("")],
        ]
    );
}

#[test]
fn cli_mode_defaults_to_regular() {
    let cli = CLI { mode: None };
    let cli = cli.with_default_mode();
    assert!(matches!(cli.mode, Some(Mode::Regular)));

    let cli = CLI {
        mode: Some(Mode::Export {
            export_type: String::from("CSV"),
            file: String::from("out.csv"),
        }),
    };
    let cli = cli.with_default_mode();
    match cli.mode {
        Some(Mode::Export { export_type, file }) => {
            assert_eq!(export_type, "CSV");
            assert_eq!(file, "out.csv");
        }
        _ => panic!("expected the export mode to survive"),
    }
}
