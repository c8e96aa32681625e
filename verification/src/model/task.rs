//! Tasks: a recurring habit, with a name, a description, a content type
//! and an evaluation period. Keyed as `task:<id>`.

use vstd::prelude::*;
use vstd::utf8::{encode_utf8, valid_utf8};
use vstd::string::{StrSliceExecFns, StringSliceAdditionalSpecFns};
use crate::codec::{
    enc_u64, enc_u128, enc_str, dec_u64, dec_u128, dec_str, lemma_enc_u64_len, lemma_enc_u128_len,
    lemma_dec_u64_peel, lemma_dec_u128_peel, lemma_dec_str_peel, write_u64, write_u128, write_str,
    read_u64, read_u128, read_string,
};
use crate::keys::uuid_bytes;
use crate::keys::uuid_text_bytes;
use crate::model::convert::{Storable, StoreError, FIELD_LIMIT};
use crate::model::fresh::{fresh_id, now_secs, timestamp_display, timestamp_display_spec};

verus! {

/// How the entries of a task are interpreted.
#[derive(Clone, Copy, Debug, PartialEq, Eq, Structural)]
pub enum TaskTy {
    /// UTF-8 encoded text.
    Raw,
    /// A subset of `Raw`: must be a number.
    Numeric,
    /// Entries kept as JSON.
    Json,
    /// Entries kept as Markdown.
    Markdown,
    /// Entries kept as TOML.
    Toml,
}

/// How often a task is meant to recur.
#[derive(Clone, Copy, Debug, PartialEq, Eq, Structural)]
pub enum EvalPeriod {
    Any,
    Daily,
    Weekly,
    Monthly,
    BiWeekly,
}

/// The encoding tag of a task type.
pub open spec fn ty_tag(t: TaskTy) -> u8 {
    match t {
        TaskTy::Raw => 0,
        TaskTy::Numeric => 1,
        TaskTy::Json => 2,
        TaskTy::Markdown => 3,
        TaskTy::Toml => 4,
    }
}

/// The task type a tag byte stands for.
pub open spec fn ty_untag(b: u8) -> Option<TaskTy> {
    if b == 0 {
        Some(TaskTy::Raw)
    } else if b == 1 {
        Some(TaskTy::Numeric)
    } else if b == 2 {
        Some(TaskTy::Json)
    } else if b == 3 {
        Some(TaskTy::Markdown)
    } else if b == 4 {
        Some(TaskTy::Toml)
    } else {
        None
    }
}

/// The encoding tag of an evaluation period.
pub open spec fn ev_tag(e: EvalPeriod) -> u8 {
    match e {
        EvalPeriod::Any => 0,
        EvalPeriod::Daily => 1,
        EvalPeriod::Weekly => 2,
        EvalPeriod::Monthly => 3,
        EvalPeriod::BiWeekly => 4,
    }
}

/// The evaluation period a tag byte stands for.
pub open spec fn ev_untag(b: u8) -> Option<EvalPeriod> {
    if b == 0 {
        Some(EvalPeriod::Any)
    } else if b == 1 {
        Some(EvalPeriod::Daily)
    } else if b == 2 {
        Some(EvalPeriod::Weekly)
    } else if b == 3 {
        Some(EvalPeriod::Monthly)
    } else if b == 4 {
        Some(EvalPeriod::BiWeekly)
    } else {
        None
    }
}

fn ty_tag_exec(t: TaskTy) -> (r: u8)
    ensures
        r == ty_tag(t),
{
    match t {
        TaskTy::Raw => 0,
        TaskTy::Numeric => 1,
        TaskTy::Json => 2,
        TaskTy::Markdown => 3,
        TaskTy::Toml => 4,
    }
}

fn ty_untag_exec(b: u8) -> (r: Option<TaskTy>)
    ensures
        r == ty_untag(b),
{
    if b == 0 {
        Some(TaskTy::Raw)
    } else if b == 1 {
        Some(TaskTy::Numeric)
    } else if b == 2 {
        Some(TaskTy::Json)
    } else if b == 3 {
        Some(TaskTy::Markdown)
    } else if b == 4 {
        Some(TaskTy::Toml)
    } else {
        None
    }
}

fn ev_tag_exec(e: EvalPeriod) -> (r: u8)
    ensures
        r == ev_tag(e),
{
    match e {
        EvalPeriod::Any => 0,
        EvalPeriod::Daily => 1,
        EvalPeriod::Weekly => 2,
        EvalPeriod::Monthly => 3,
        EvalPeriod::BiWeekly => 4,
    }
}

fn ev_untag_exec(b: u8) -> (r: Option<EvalPeriod>)
    ensures
        r == ev_untag(b),
{
    if b == 0 {
        Some(EvalPeriod::Any)
    } else if b == 1 {
        Some(EvalPeriod::Daily)
    } else if b == 2 {
        Some(EvalPeriod::Weekly)
    } else if b == 3 {
        Some(EvalPeriod::Monthly)
    } else if b == 4 {
        Some(EvalPeriod::BiWeekly)
    } else {
        None
    }
}

/// A recurring habit.
#[derive(Debug, PartialEq)]
pub struct Task {
    pub id: u128,
    pub name: String,
    pub desc: String,
    pub timestamp: u64,
    pub ty: TaskTy,
    pub eval_period: EvalPeriod,
}

/// The abstract value of a task.
pub struct TaskView {
    pub id: u128,
    pub name: Seq<char>,
    pub desc: Seq<char>,
    pub timestamp: u64,
    pub ty: TaskTy,
    pub eval_period: EvalPeriod,
}

impl View for Task {
    type V = TaskView;

    open spec fn view(&self) -> TaskView {
        TaskView {
            id: self.id,
            name: self.name@,
            desc: self.desc@,
            timestamp: self.timestamp,
            ty: self.ty,
            eval_period: self.eval_period,
        }
    }
}

impl Clone for Task {
    fn clone(&self) -> (r: Self)
        ensures
            r == *self,
    {
        Task {
            id: self.id,
            name: self.name.clone(),
            desc: self.desc.clone(),
            timestamp: self.timestamp,
            ty: self.ty,
            eval_period: self.eval_period,
        }
    }
}

/// The bytes of the key prefix `task:` that selects all tasks.
pub open spec fn task_prefix() -> Seq<u8> {
    seq![116u8, 97u8, 115u8, 107u8, 58u8]
}

/// The canonical key bytes of the task with the given id: `task:<id>`.
pub open spec fn task_key_bytes(id: u128) -> Seq<u8> {
    task_prefix() + uuid_bytes(id)
}

/// A task is well formed when both text fields fit their encoded form.
pub open spec fn task_inv(v: TaskView) -> bool {
    &&& encode_utf8(v.name).len() <= FIELD_LIMIT
    &&& encode_utf8(v.desc).len() <= FIELD_LIMIT
}

/// The exact byte encoding of a task.
pub open spec fn task_enc(v: TaskView) -> Seq<u8> {
    enc_u128(v.id) + enc_u64(v.timestamp) + seq![ty_tag(v.ty)] + seq![ev_tag(v.eval_period)]
        + enc_str(v.name) + enc_str(v.desc)
}

/// The position of the first line break at or after `i`.
pub open spec fn first_nl_from(b: Seq<u8>, i: int) -> Option<int>
    decreases b.len() - i,
{
    if i < 0 || i >= b.len() {
        Option::None
    } else if b[i] == 10 {
        Option::Some(i)
    } else {
        first_nl_from(b, i + 1)
    }
}

/// The position of the first line break, if any.
pub open spec fn first_nl(b: Seq<u8>) -> Option<int> {
    first_nl_from(b, 0)
}

/// The exact decoding of a task record; `None` on malformed bytes.
pub open spec fn task_dec(b: Seq<u8>) -> Option<TaskView> {
    match dec_u128(b, 0) {
        Option::None => Option::None,
        Option::Some((id, o1)) => match dec_u64(b, o1) {
            Option::None => Option::None,
            Option::Some((timestamp, o2)) => if o2 + 2 <= b.len() {
                match (ty_untag(b[o2]), ev_untag(b[o2 + 1])) {
                    (Option::Some(ty), Option::Some(eval_period)) => match dec_str(b, o2 + 2) {
                        Option::None => Option::None,
                        Option::Some((name, o3)) => match dec_str(b, o3) {
                            Option::None => Option::None,
                            Option::Some((desc, o4)) => if o4 == b.len() && encode_utf8(
                                name,
                            ).len() <= FIELD_LIMIT && encode_utf8(desc).len() <= FIELD_LIMIT {
                                Option::Some(
                                    TaskView { id, name, desc, timestamp, ty, eval_period },
                                )
                            } else {
                                Option::None
                            },
                        },
                    },
                    _ => Option::None,
                }
            } else {
                Option::None
            },
        },
    }
}

impl Task {
    /// A fresh task with the given name and description, a new identifier
    /// and the current time, of `Raw` type with a `Daily` period.
    pub fn new(name: String, desc: String) -> (r: Self)
        requires
            encode_utf8(name@).len() <= FIELD_LIMIT,
            encode_utf8(desc@).len() <= FIELD_LIMIT,
        ensures
            r@.name == name@,
            r@.desc == desc@,
            r@.ty == TaskTy::Raw,
            r@.eval_period == EvalPeriod::Daily,
            task_inv(r@),
    {
        Task {
            id: fresh_id(),
            name,
            desc,
            timestamp: now_secs(),
            ty: TaskTy::Raw,
            eval_period: EvalPeriod::Daily,
        }
    }

    /// All the entries that belong to the task, newest first.
    pub fn get_entries(&self, store: &crate::model::store::TaskStore) -> (r: Result<
        Vec<crate::model::task_entry::TaskEntry>,
        crate::model::convert::StoreError,
    >)
        ensures
            r matches Ok(items) ==> {
                &&& crate::model::store::sorted_by_stamp_desc::<crate::model::task_entry::TaskEntry>(
                    crate::model::store::views_of(items@),
                )
                &&& crate::model::store::scan_sound::<crate::model::task_entry::TaskEntry>(
                    store@,
                    crate::model::task_entry::entry_task_prefix_bytes(self.id),
                    crate::model::store::views_of(items@),
                )
                &&& crate::model::store::scan_complete::<crate::model::task_entry::TaskEntry>(
                    store@,
                    crate::model::task_entry::entry_task_prefix_bytes(self.id),
                    crate::model::store::views_of(items@),
                )
            },
    {
        let prefix = crate::model::task_entry::TaskEntry::key_task(self.id);
        store.get_prefix::<crate::model::task_entry::TaskEntry>(prefix.as_str())
    }

    /// The structured text handed to the external editor: the name on
    /// the first line, the description after it.
    pub fn to_text(&self) -> (r: String)
        requires
            task_inv(self@),
        ensures
            encode_utf8(r@) == encode_utf8(self@.name) + seq![10u8] + encode_utf8(self@.desc),
    {
        let mut b = self.name.as_str().as_bytes_vec();
        b.push(10);
        let mut d = self.desc.as_str().as_bytes_vec();
        b.append(&mut d);
        proof {
            vstd::utf8::encode_utf8_valid_utf8(self@.name);
            vstd::utf8::encode_utf8_valid_utf8(self@.desc);
            assert(valid_utf8(seq![10u8])) by {
                reveal_with_fuel(valid_utf8, 3);
                assert(vstd::utf8::is_leading_byte_width_1(10u8));
                assert(vstd::utf8::length_of_first_scalar(seq![10u8]) == 1);
                assert(vstd::utf8::pop_first_scalar(seq![10u8]) =~= Seq::<u8>::empty());
            }
            vstd::utf8::valid_utf8_concat(encode_utf8(self@.name), seq![10u8]);
            vstd::utf8::valid_utf8_concat(encode_utf8(self@.name) + seq![10u8], encode_utf8(self@.desc));
            assert(b@ =~= (encode_utf8(self@.name) + seq![10u8]) + encode_utf8(self@.desc));
            vstd::utf8::decode_utf8_encode_utf8(b@);
        }
        crate::codec::string_from_utf8_text(b)
    }

    /// Parse edited structured text back into the task: the first line
    /// becomes the name, the rest the description; identity, creation
    /// time and the other settings stay. Rejected when there is no line
    /// break, the name line is empty, or a part no longer fits a record.
    pub fn from_text(&self, text: &str) -> (r: Result<Self, StoreError>)
        ensures
            r matches Ok(t) ==> {
                &&& first_nl(encode_utf8(text@)) matches Some(i) && i > 0 && encode_utf8(t@.name)
                    == encode_utf8(text@).subrange(0, i) && encode_utf8(t@.desc) == encode_utf8(
                    text@,
                ).subrange(i + 1, encode_utf8(text@).len() as int)
                &&& t@.id == self@.id
                &&& t@.timestamp == self@.timestamp
                &&& t@.ty == self@.ty
                &&& t@.eval_period == self@.eval_period
                &&& task_inv(t@)
            },
            r is Err ==> (match first_nl(encode_utf8(text@)) {
                Some(i) => i == 0 || i > FIELD_LIMIT || encode_utf8(text@).len() - i - 1
                    > FIELD_LIMIT,
                None => true,
            }),
            r is Ok ==> (match first_nl(encode_utf8(text@)) {
                Some(i) => i > 0 && i <= FIELD_LIMIT && encode_utf8(text@).len() - i - 1
                    <= FIELD_LIMIT,
                None => false,
            }),
    {
        let bytes = text.as_bytes_vec();
        let n = bytes.len();
        let mut i: usize = 0;
        while i < n && bytes[i] != 10
            invariant
                0 <= i <= n,
                n == bytes@.len(),
                bytes@ == text.spec_bytes(),
                forall|j: int| 0 <= j < i ==> bytes@[j] != 10,
                first_nl_from(bytes@, 0) == first_nl_from(bytes@, i as int),
            decreases n - i,
        {
            i += 1;
        }
        if i >= n {
            return Err(StoreError::Codec);
        }
        let nl = i;
        if nl == 0 {
            return Err(StoreError::Codec);
        }
        if nl as u64 > FIELD_LIMIT || ((n - nl) - 1) as u64 > FIELD_LIMIT {
            return Err(StoreError::Codec);
        }
        let name_b = crate::codec::copy_range(&bytes, 0, nl);
        let desc_b = crate::codec::copy_range(&bytes, nl + 1, n - nl - 1);
        proof {
            let b = bytes@;
            vstd::utf8::encode_utf8_valid_utf8(text@);
            vstd::utf8::is_char_boundary_iff_not_is_continuation_byte(b, nl as int);
            vstd::utf8::valid_utf8_split(b, nl as int);
            let right = b.subrange(nl as int, b.len() as int);
            assert(right[0] == 10);
            assert(vstd::utf8::valid_first_scalar(right));
            assert(vstd::utf8::length_of_first_scalar(right) == 1);
            assert(vstd::utf8::pop_first_scalar(right) =~= desc_b@);
            assert(valid_utf8(desc_b@));
            assert(valid_utf8(name_b@));
            vstd::utf8::decode_utf8_encode_utf8(name_b@);
            vstd::utf8::decode_utf8_encode_utf8(desc_b@);
        }
        let name = crate::codec::string_from_utf8_text(name_b);
        let desc = crate::codec::string_from_utf8_text(desc_b);
        Ok(
            Task {
                id: self.id,
                name,
                desc,
                timestamp: self.timestamp,
                ty: self.ty,
                eval_period: self.eval_period,
            },
        )
    }

    /// The key pattern that selects every task.
    pub fn key_all() -> (r: &'static str)
        ensures
            encode_utf8(r@) == task_prefix(),
            r@.len() == 5,
    {
        let r = "task:";
        proof {
            reveal_strlit("task:");
            lemma_str_bytes(r);
        }
        r
    }

    /// The key of the task with the given id.
    pub fn key_task(task_id: u128) -> (r: String)
        ensures
            encode_utf8(r@) == task_key_bytes(task_id),
    {
        key_string(task_prefix_vec(), task_id)
    }
}

/// The literal `task:` seen as bytes.
proof fn lemma_str_bytes(s: &str)
    requires
        s@ =~= seq!['t', 'a', 's', 'k', ':'],
    ensures
        encode_utf8(s@) == task_prefix(),
{
    assert(vstd::utf8::is_ascii_chars(s@));
    vstd::utf8::is_ascii_chars_encode_utf8(s@);
    assert(encode_utf8(s@) =~= task_prefix());
}

/// The exec bytes of the `task:` prefix.
fn task_prefix_vec() -> (r: Vec<u8>)
    ensures
        r@ == task_prefix(),
{
    let mut r: Vec<u8> = Vec::new();
    r.push(116);
    r.push(97);
    r.push(115);
    r.push(107);
    r.push(58);
    proof {
        assert(r@ =~= task_prefix());
    }
    r
}

/// Build the key text `<prefix><id>` from prefix bytes and an id.
fn key_string(prefix: Vec<u8>, id: u128) -> (r: String)
    requires
        forall|i: int| 0 <= i < prefix@.len() ==> prefix@[i] < 128,
    ensures
        encode_utf8(r@) == prefix@ + uuid_bytes(id),
{
    let mut b = prefix;
    let mut u = uuid_text_bytes(id);
    b.append(&mut u);
    proof {
        lemma_uuid_bytes_ascii(id);
    }
    crate::codec::ascii_string(b)
}

/// Every byte of a hyphenated id rendering is ASCII.
pub proof fn lemma_uuid_bytes_ascii(id: u128)
    ensures
        forall|i: int| 0 <= i < uuid_bytes(id).len() ==> uuid_bytes(id)[i] < 128,
{
    lemma_hex_bytes_ascii((id as nat) / crate::keys::pow16(24), 8);
    lemma_hex_bytes_ascii((id as nat) / crate::keys::pow16(20), 4);
    lemma_hex_bytes_ascii((id as nat) / crate::keys::pow16(16), 4);
    lemma_hex_bytes_ascii((id as nat) / crate::keys::pow16(12), 4);
    lemma_hex_bytes_ascii(id as nat, 12);
}

/// Every hex digit byte is ASCII.
proof fn lemma_hex_bytes_ascii(n: nat, count: nat)
    ensures
        forall|i: int|
            0 <= i < crate::keys::hex_bytes(n, count).len() ==> crate::keys::hex_bytes(n, count)[i]
                < 128,
    decreases count,
{
    if count > 0 {
        lemma_hex_bytes_ascii(n / 16, (count - 1) as nat);
        crate::keys::lemma_hex_bytes_len(n / 16, (count - 1) as nat);
        let s = crate::keys::hex_bytes(n, count);
        let s0 = crate::keys::hex_bytes(n / 16, (count - 1) as nat);
        assert forall|i: int| 0 <= i < s.len() implies s[i] < 128 by {
            if i < s0.len() {
                assert(s[i] == s0[i]);
            } else {
                assert(s[i] == crate::keys::hex_digit((n % 16) as int));
            }
        }
    }
}

impl Storable for Task {
    open spec fn inv(v: TaskView) -> bool {
        task_inv(v)
    }

    open spec fn key_of(v: TaskView) -> Seq<u8> {
        task_key_bytes(v.id)
    }

    open spec fn enc_of(v: TaskView) -> Seq<u8> {
        task_enc(v)
    }

    open spec fn dec_of(b: Seq<u8>) -> Option<TaskView> {
        task_dec(b)
    }

    open spec fn stamp_of(v: TaskView) -> u64 {
        v.timestamp
    }

    open spec fn fields_of(v: TaskView) -> Seq<Seq<char>> {
        seq![v.name, timestamp_display_spec(v.timestamp), v.desc]
    }

    proof fn lemma_round_trip(v: TaskView) {
        lemma_task_enc_dec(v);
    }

    proof fn lemma_decode_inv(b: Seq<u8>) {
    }

    fn to_key(&self) -> (r: String) {
        key_string(task_prefix_vec(), self.id)
    }

    fn to_bytes(&self) -> (r: Vec<u8>) {
        let mut out: Vec<u8> = Vec::new();
        write_u128(&mut out, self.id);
        write_u64(&mut out, self.timestamp);
        out.push(ty_tag_exec(self.ty));
        out.push(ev_tag_exec(self.eval_period));
        proof {
            lemma_enc_u128_len(self.id);
            lemma_enc_u64_len(self.timestamp);
        }
        write_str(&mut out, self.name.as_str());
        write_str(&mut out, self.desc.as_str());
        proof {
            assert(out@ =~= task_enc(self@));
        }
        out
    }

    fn from_bytes(b: &Vec<u8>) -> (r: Result<Self, StoreError>) {
        let (id, o1) = match read_u128(b, 0) {
            Some(p) => p,
            None => {
                return Err(StoreError::Codec);
            },
        };
        let (timestamp, o2) = match read_u64(b, o1) {
            Some(p) => p,
            None => {
                return Err(StoreError::Codec);
            },
        };
        if b.len() < o2 || b.len() - o2 < 2 {
            return Err(StoreError::Codec);
        }
        let ty = match ty_untag_exec(b[o2]) {
            Some(t) => t,
            None => {
                return Err(StoreError::Codec);
            },
        };
        let eval_period = match ev_untag_exec(b[o2 + 1]) {
            Some(e) => e,
            None => {
                return Err(StoreError::Codec);
            },
        };
        let (name, o3) = match read_string(b, o2 + 2) {
            Some(p) => p,
            None => {
                return Err(StoreError::Codec);
            },
        };
        let (desc, o4) = match read_string(b, o3) {
            Some(p) => p,
            None => {
                return Err(StoreError::Codec);
            },
        };
        if o4 != b.len() {
            return Err(StoreError::Codec);
        }
        proof {
            crate::codec::lemma_dec_str_len(b@, o2 as int + 2, name@, o3 as int);
            crate::codec::lemma_dec_str_len(b@, o3 as int, desc@, o4 as int);
        }
        if o3 - (o2 + 2) - 8 > FIELD_LIMIT as usize || o4 - o3 - 8 > FIELD_LIMIT as usize {
            return Err(StoreError::Codec);
        }
        let t = Task { id, name, desc, timestamp, ty, eval_period };
        proof {
            assert(task_dec(b@) == Some(t@));
        }
        Ok(t)
    }

    fn timestamp_key(&self) -> (r: u64) {
        self.timestamp
    }

    fn get_timestamp(&self) -> (r: String) {
        timestamp_display(self.timestamp)
    }

    fn get_display_fields(&self) -> (r: Vec<String>) {
        let mut r: Vec<String> = Vec::new();
        r.push(self.name.clone());
        r.push(self.get_timestamp());
        r.push(self.desc.clone());
        proof {
            assert(r.deep_view() =~= Self::fields_of(self@));
        }
        r
    }
}

/// Round trip: decoding the encoding of a well-formed task yields it back.
pub proof fn lemma_task_enc_dec(v: TaskView)
    requires
        task_inv(v),
    ensures
        task_dec(task_enc(v)) == Some(v),
{
    let e = task_enc(v);
    let n1 = encode_utf8(v.name).len() as int;
    let n2 = encode_utf8(v.desc).len() as int;
    lemma_enc_u128_len(v.id);
    lemma_enc_u64_len(v.timestamp);
    lemma_enc_u64_len(encode_utf8(v.name).len() as u64);
    lemma_enc_u64_len(encode_utf8(v.desc).len() as u64);
    assert(e.len() == 26 + 8 + n1 + 8 + n2);
    assert(e.subrange(0, 16) =~= enc_u128(v.id));
    lemma_dec_u128_peel(e, 0, v.id);
    assert(e.subrange(16, 24) =~= enc_u64(v.timestamp));
    lemma_dec_u64_peel(e, 16, v.timestamp);
    assert(e[24] == ty_tag(v.ty));
    assert(e[25] == ev_tag(v.eval_period));
    assert(ty_untag(ty_tag(v.ty)) == Some(v.ty));
    assert(ev_untag(ev_tag(v.eval_period)) == Some(v.eval_period));
    assert(e.subrange(26, 26 + 8 + n1) =~= enc_str(v.name));
    lemma_dec_str_peel(e, 26, v.name);
    assert(e.subrange(26 + 8 + n1, 26 + 8 + n1 + 8 + n2) =~= enc_str(v.desc));
    lemma_dec_str_peel(e, 26 + 8 + n1, v.desc);
}

} // verus!
