//! Task entries: one dated record attached to a task, with an opaque byte
//! payload. Keyed as `task_entry:<task-id>:<id>`, so the prefix
//! `task_entry:<task-id>` selects the entries of one task.

use vstd::prelude::*;
use vstd::utf8::{encode_utf8, valid_utf8, decode_utf8};
use crate::codec::{
    enc_u64, enc_u128, enc_chunk, dec_u64, dec_u128, dec_chunk, lemma_enc_u64_len,
    lemma_enc_u128_len, lemma_dec_u64_peel, lemma_dec_u128_peel, lemma_dec_chunk_peel, write_u64,
    write_u128, write_chunk, read_u64, read_u128, read_chunk, string_from_bytes, copy_range,
    ascii_string,
};
use vstd::string::{StrSliceExecFns, StringSliceAdditionalSpecFns};
use crate::keys::{uuid_bytes, uuid_text_bytes};
use crate::model::convert::{Storable, StoreError, FIELD_LIMIT};
use crate::model::fresh::{fresh_id, now_secs, timestamp_display, timestamp_display_spec};
use crate::model::task::lemma_uuid_bytes_ascii;

verus! {

/// One dated record belonging to a task.
#[derive(Debug, PartialEq)]
pub struct TaskEntry {
    pub id: u128,
    pub task_id: u128,
    pub content: Vec<u8>,
    pub timestamp: u64,
}

/// The abstract value of a task entry.
pub struct TaskEntryView {
    pub id: u128,
    pub task_id: u128,
    pub content: Seq<u8>,
    pub timestamp: u64,
}

impl View for TaskEntry {
    type V = TaskEntryView;

    open spec fn view(&self) -> TaskEntryView {
        TaskEntryView {
            id: self.id,
            task_id: self.task_id,
            content: self.content@,
            timestamp: self.timestamp,
        }
    }
}

impl Clone for TaskEntry {
    fn clone(&self) -> (r: Self)
        ensures
            r@ == self@,
    {
        let content = copy_range(&self.content, 0, self.content.len());
        proof {
            assert(content@ =~= self.content@);
        }
        TaskEntry { id: self.id, task_id: self.task_id, content, timestamp: self.timestamp }
    }
}

/// The bytes of the key prefix `task_entry:` that selects every entry.
pub open spec fn entry_prefix() -> Seq<u8> {
    seq![116u8, 97u8, 115u8, 107u8, 95u8, 101u8, 110u8, 116u8, 114u8, 121u8, 58u8]
}

/// The key prefix bytes `task_entry:<task-id>` selecting one task's entries.
pub open spec fn entry_task_prefix_bytes(task_id: u128) -> Seq<u8> {
    entry_prefix() + uuid_bytes(task_id)
}

/// The canonical key bytes `task_entry:<task-id>:<id>` of one entry.
pub open spec fn entry_key_bytes(task_id: u128, id: u128) -> Seq<u8> {
    entry_task_prefix_bytes(task_id) + seq![58u8] + uuid_bytes(id)
}

/// An entry is well formed when its payload fits its encoded form.
pub open spec fn entry_inv(v: TaskEntryView) -> bool {
    v.content.len() <= FIELD_LIMIT
}

/// The exact byte encoding of an entry.
pub open spec fn entry_enc(v: TaskEntryView) -> Seq<u8> {
    enc_u128(v.id) + enc_u128(v.task_id) + enc_u64(v.timestamp) + enc_chunk(v.content)
}

/// The exact decoding of an entry record; `None` on malformed bytes.
pub open spec fn entry_dec(b: Seq<u8>) -> Option<TaskEntryView> {
    match dec_u128(b, 0) {
        Option::None => Option::None,
        Option::Some((id, o1)) => match dec_u128(b, o1) {
            Option::None => Option::None,
            Option::Some((task_id, o2)) => match dec_u64(b, o2) {
                Option::None => Option::None,
                Option::Some((timestamp, o3)) => match dec_chunk(b, o3) {
                    Option::None => Option::None,
                    Option::Some((content, o4)) => if o4 == b.len() && content.len()
                        <= FIELD_LIMIT {
                        Option::Some(TaskEntryView { id, task_id, content, timestamp })
                    } else {
                        Option::None
                    },
                },
            },
        },
    }
}

impl TaskEntry {
    /// A fresh entry for the given task, holding the text's bytes, with a
    /// new identifier and the current time.
    pub fn new(task_id: u128, content: &str) -> (r: Self)
        requires
            content.spec_bytes().len() <= FIELD_LIMIT,
        ensures
            r@.task_id == task_id,
            r@.content == encode_utf8(content@),
            entry_inv(r@),
    {
        TaskEntry {
            id: fresh_id(),
            task_id,
            content: content.as_bytes_vec(),
            timestamp: now_secs(),
        }
    }

    /// The key pattern that selects every entry.
    pub fn key_all() -> (r: &'static str)
        ensures
            encode_utf8(r@) == entry_prefix(),
            r@.len() == 11,
    {
        let r = "task_entry:";
        proof {
            reveal_strlit("task_entry:");
            assert(vstd::utf8::is_ascii_chars(r@));
            vstd::utf8::is_ascii_chars_encode_utf8(r@);
            assert(encode_utf8(r@) =~= entry_prefix());
        }
        r
    }

    /// The key prefix that selects the entries of the given task.
    pub fn key_task(task_id: u128) -> (r: String)
        ensures
            encode_utf8(r@) == entry_task_prefix_bytes(task_id),
    {
        let mut b = entry_prefix_vec();
        let mut u = uuid_text_bytes(task_id);
        b.append(&mut u);
        proof {
            lemma_uuid_bytes_ascii(task_id);
        }
        ascii_string(b)
    }

    /// The key of one entry of one task.
    pub fn key_task_entry(task_id: u128, entry_id: u128) -> (r: String)
        ensures
            encode_utf8(r@) == entry_key_bytes(task_id, entry_id),
    {
        let mut b = entry_prefix_vec();
        let mut u = uuid_text_bytes(task_id);
        b.append(&mut u);
        b.push(58);
        let mut v = uuid_text_bytes(entry_id);
        b.append(&mut v);
        proof {
            lemma_uuid_bytes_ascii(task_id);
            lemma_uuid_bytes_ascii(entry_id);
            assert(b@ =~= entry_key_bytes(task_id, entry_id));
        }
        ascii_string(b)
    }

    /// The payload as text: decoded when it is UTF-8, empty otherwise.
    pub fn get_content(&self) -> (r: String)
        ensures
            valid_utf8(self.content@) ==> r@ == decode_utf8(self.content@),
            !valid_utf8(self.content@) ==> r@ == Seq::<char>::empty(),
    {
        let b = copy_range(&self.content, 0, self.content.len());
        proof {
            assert(b@ =~= self.content@);
        }
        match string_from_bytes(b) {
            Some(s) => s,
            None => String::new(),
        }
    }
}

/// The exec bytes of the `task_entry:` prefix.
fn entry_prefix_vec() -> (r: Vec<u8>)
    ensures
        r@ == entry_prefix(),
        forall|i: int| 0 <= i < r@.len() ==> r@[i] < 128,
{
    let mut r: Vec<u8> = Vec::new();
    r.push(116);
    r.push(97);
    r.push(115);
    r.push(107);
    r.push(95);
    r.push(101);
    r.push(110);
    r.push(116);
    r.push(114);
    r.push(121);
    r.push(58);
    proof {
        assert(r@ =~= entry_prefix());
    }
    r
}

impl Storable for TaskEntry {
    open spec fn inv(v: TaskEntryView) -> bool {
        entry_inv(v)
    }

    open spec fn key_of(v: TaskEntryView) -> Seq<u8> {
        entry_key_bytes(v.task_id, v.id)
    }

    open spec fn enc_of(v: TaskEntryView) -> Seq<u8> {
        entry_enc(v)
    }

    open spec fn dec_of(b: Seq<u8>) -> Option<TaskEntryView> {
        entry_dec(b)
    }

    open spec fn stamp_of(v: TaskEntryView) -> u64 {
        v.timestamp
    }

    open spec fn fields_of(v: TaskEntryView) -> Seq<Seq<char>> {
        seq![
            timestamp_display_spec(v.timestamp),
            if valid_utf8(v.content) {
                decode_utf8(v.content)
            } else {
                Seq::empty()
            },
        ]
    }

    proof fn lemma_round_trip(v: TaskEntryView) {
        lemma_entry_enc_dec(v);
    }

    proof fn lemma_decode_inv(b: Seq<u8>) {
    }

    fn to_key(&self) -> (r: String) {
        Self::key_task_entry(self.task_id, self.id)
    }

    fn to_bytes(&self) -> (r: Vec<u8>) {
        let mut out: Vec<u8> = Vec::new();
        write_u128(&mut out, self.id);
        write_u128(&mut out, self.task_id);
        write_u64(&mut out, self.timestamp);
        proof {
            lemma_enc_u128_len(self.id);
            lemma_enc_u128_len(self.task_id);
            lemma_enc_u64_len(self.timestamp);
        }
        write_chunk(&mut out, &self.content);
        proof {
            assert(out@ =~= entry_enc(self@));
        }
        out
    }

    fn from_bytes(b: &Vec<u8>) -> (r: Result<Self, StoreError>) {
        let (id, o1) = match read_u128(b, 0) {
            Some(p) => p,
            None => {
                return Err(StoreError::Codec);
            },
        };
        let (task_id, o2) = match read_u128(b, o1) {
            Some(p) => p,
            None => {
                return Err(StoreError::Codec);
            },
        };
        let (timestamp, o3) = match read_u64(b, o2) {
            Some(p) => p,
            None => {
                return Err(StoreError::Codec);
            },
        };
        let (content, o4) = match read_chunk(b, o3) {
            Some(p) => p,
            None => {
                return Err(StoreError::Codec);
            },
        };
        if o4 != b.len() {
            return Err(StoreError::Codec);
        }
        if content.len() as u64 > FIELD_LIMIT {
            return Err(StoreError::Codec);
        }
        let t = TaskEntry { id, task_id, content, timestamp };
        proof {
            assert(entry_dec(b@) == Some(t@));
        }
        Ok(t)
    }

    fn timestamp_key(&self) -> (r: u64) {
        self.timestamp
    }

    fn get_timestamp(&self) -> (r: String) {
        timestamp_display(self.timestamp)
    }

    fn get_display_fields(&self) -> (r: Vec<String>) {
        let mut r: Vec<String> = Vec::new();
        r.push(self.get_timestamp());
        r.push(self.get_content());
        proof {
            assert(r.deep_view() =~= Self::fields_of(self@));
        }
        r
    }
}

/// Round trip: decoding the encoding of a well-formed entry yields it back.
pub proof fn lemma_entry_enc_dec(v: TaskEntryView)
    requires
        entry_inv(v),
    ensures
        entry_dec(entry_enc(v)) == Some(v),
{
    let e = entry_enc(v);
    let n = v.content.len() as int;
    lemma_enc_u128_len(v.id);
    lemma_enc_u128_len(v.task_id);
    lemma_enc_u64_len(v.timestamp);
    lemma_enc_u64_len(v.content.len() as u64);
    assert(e.len() == 40 + 8 + n);
    assert(e.subrange(0, 16) =~= enc_u128(v.id));
    lemma_dec_u128_peel(e, 0, v.id);
    assert(e.subrange(16, 32) =~= enc_u128(v.task_id));
    lemma_dec_u128_peel(e, 16, v.task_id);
    assert(e.subrange(32, 40) =~= enc_u64(v.timestamp));
    lemma_dec_u64_peel(e, 32, v.timestamp);
    assert(e.subrange(40, 40 + 8 + n) =~= enc_chunk(v.content));
    lemma_dec_chunk_peel(e, 40, v.content);
}

} // verus!
