use packrat::model::convert::{Storable, StoreError};
use packrat::model::task::{EvalPeriod, Task, TaskTy};
use packrat::model::task_entry::TaskEntry;

fn sample_task(id: u128, name: &str, desc: &str, timestamp: u64) -> Task {
    Task {
        id,
        name: String::from(name),
        desc: String::from(desc),
        timestamp,
        ty: TaskTy::Raw,
        eval_period: EvalPeriod::Daily,
    }
}

#[test]
fn round_trip_task() {
    let task = sample_task(42, "name with spaces", "désc with ünicode", 1431648000);
    let bytes = task.to_bytes();
    let back = Task::from_bytes(&bytes).unwrap();
    assert_eq!(back, task);
}

#[test]
fn round_trip_task_entry() {
    let entry = TaskEntry {
        id: 7,
        task_id: 42,
        content: vec![0, 1, 2, 254, 255],
        timestamp: 123456,
    };
    let bytes = entry.to_bytes();
    let back = TaskEntry::from_bytes(&bytes).unwrap();
    assert_eq!(back, entry);
}

#[test]
fn decode_rejects_malformed_bytes() {
    assert_eq!(Task::from_bytes(&vec![]), Err(StoreError::Codec));
    assert_eq!(Task::from_bytes(&vec![1, 2, 3]), Err(StoreError::Codec));
    assert_eq!(TaskEntry::from_bytes(&vec![0; 10]), Err(StoreError::Codec));

    // A valid encoding with trailing garbage is rejected too.
    let task = sample_task(1, "a", "b", 0);
    let mut bytes = task.to_bytes();
    bytes.push(0);
    assert_eq!(Task::from_bytes(&bytes), Err(StoreError::Codec));
}

#[test]
fn task_key_is_hyphenated_hex() {
    let task = sample_task(0, "a", "b", 0);
    assert_eq!(task.to_key(), "task:00000000-0000-0000-0000-000000000000");

    let task = sample_task(0x0123456789abcdef0123456789abcdef, "a", "b", 0);
    assert_eq!(task.to_key(), "task:01234567-89ab-cdef-0123-456789abcdef");

    assert_eq!(Task::key_all(), "task:");
    assert_eq!(Task::key_task(1), "task:00000000-0000-0000-0000-000000000001");
}

#[test]
fn entry_key_carries_both_ids() {
    assert_eq!(TaskEntry::key_all(), "task_entry:");
    assert_eq!(
        TaskEntry::key_task(1),
        "task_entry:00000000-0000-0000-0000-000000000001"
    );
    assert_eq!(
        TaskEntry::key_task_entry(1, 2),
        "task_entry:00000000-0000-0000-0000-000000000001:00000000-0000-0000-0000-000000000002"
    );
    let entry = TaskEntry {
        id: 2,
        task_id: 1,
        content: vec![],
        timestamp: 0,
    };
    assert_eq!(
        entry.to_key(),
        "task_entry:00000000-0000-0000-0000-000000000001:00000000-0000-0000-0000-000000000002"
    );
}

#[test]
fn timestamp_renders_as_calendar_text() {
    let task = sample_task(1, "a", "b", 0);
    assert_eq!(task.get_timestamp(), "1970-01-01 00:00:00");

    let task = sample_task(1, "a", "b", 1431648000);
    assert_eq!(task.get_timestamp(), "2015-05-15 00:00:00");

    assert_eq!(task.timestamp_key(), 1431648000);

    let fields = task.get_display_fields();
    assert_eq!(fields, vec!["a", "2015-05-15 00:00:00", "b"]);
}

#[test]
fn entry_content_reads_back_as_text() {
    let entry = TaskEntry::new(9, "hello entry");
    assert_eq!(entry.get_content(), "hello entry");
    assert_eq!(entry.task_id, 9);

    let broken = TaskEntry {
        id: 1,
        task_id: 2,
        content: vec![0xff, 0xfe],
        timestamp: 0,
    };
    assert_eq!(broken.get_content(), "");
}

#[test]
fn config_text_round_trip() {
    let task = sample_task(11, "Walk Dog", "around the block\ntwice", 77);
    let text = task.to_text();
    assert_eq!(text, "Walk Dog\naround the block\ntwice");

    let back = task.from_text(&text).unwrap();
    assert_eq!(back.id, task.id);
    assert_eq!(back.timestamp, task.timestamp);
    assert_eq!(back.name, task.name);
    assert_eq!(back.desc, task.desc);
}

#[test]
fn config_text_rejects_bad_shapes() {
    let task = sample_task(11, "a", "b", 0);
    // No line break at all.
    assert!(task.from_text("no newline here").is_err());
    // An empty name line.
    assert!(task.from_text("\nsome description").is_err());
    // A renamed task keeps its identity.
    let back = task.from_text("New Name\nnew desc").unwrap();
    assert_eq!(back.id, task.id);
    assert_eq!(back.name, "New Name");
    assert_eq!(back.desc, "new desc");
}

#[test]
fn store_error_messages() {
    assert_eq!(StoreError::Codec.message(), "malformed record");
    assert_eq!(StoreError::Storage.message(), "storage failure");
}
