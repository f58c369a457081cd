//! Taking stock of the COM ports in the Windows registry.
//!
//! `HKLM\HARDWARE\DEVICEMAP\SERIALCOMM` contains one `REG_SZ` value per port; the *data* (not
//! the name) is the friendly label, e.g. `"COM3"`. A [`Snapshot`] says which registry call
//! comes next and takes in what that call returned.
use vstd::prelude::*;

use crate::ports;
use crate::ports::PortSet;
use crate::utf16;

verus! {

/// The registry call succeeded.
pub const ERROR_SUCCESS: u32 = 0;

/// The value did not fit into the buffer.
pub const ERROR_MORE_DATA: u32 = 234;

/// There is no value at the index that was asked for, nor at any later one.
pub const ERROR_NO_MORE_ITEMS: u32 = 259;

/// The type of a registry value that holds a NUL-terminated string.
pub const REG_SZ: u32 = 1;

/// The number of bytes that a snapshot first makes room for in asking for a value's data.
pub const FIRST_ROOM: u32 = 128;

/// The number of characters to make room for in asking for a value's name: enough for the
/// longest name that a registry value can have, and its NUL.
pub const NAME_ROOM: u32 = 16384;

/// The key below `HKEY_LOCAL_MACHINE` that lists the serial ports, as a Win32 string.
pub fn serialcomm_key() -> (key: Vec<u16>)
    ensures
        key@ == utf16::encode("HARDWARE\\DEVICEMAP\\SERIALCOMM"@).push(0),
{
    utf16::wide_nul("HARDWARE\\DEVICEMAP\\SERIALCOMM")
}

/// What asking for one registry value returned.
pub struct ValueReply {
    /// The status of the call.
    pub status: u32,
    /// The type of the value.
    pub value_type: u32,
    /// The bytes of the value's data, as many as the call reported.
    pub data: Seq<u8>,
}

/// The port that a reply names, if it names one: the text of a string value that was read
/// successfully and is not empty.
pub open spec fn port_in_reply(reply: ValueReply) -> Option<Seq<char>> {
    let name = utf16::text_in_buffer(reply.data);
    if reply.status == ERROR_SUCCESS && reply.value_type == REG_SZ && reply.data.len() >= 2
        && name.len() > 0 {
        Some(name)
    } else {
        None
    }
}

/// How far a snapshot has come.
#[derive(Debug, Clone, Copy, PartialEq, Eq, Structural)]
pub enum SnapshotStep {
    /// Open the key.
    OpenKey,
    /// Ask for the value with this index.
    QueryValue(u32),
    /// Close the key.
    CloseKey,
    /// The snapshot is complete.
    Complete,
}

/// A snapshot in the making: the ports found so far, the call that comes next, and how many
/// bytes that call has to make room for in asking for a value's data.
pub struct SnapshotState {
    pub ports: Seq<Seq<char>>,
    pub step: SnapshotStep,
    pub room: u32,
}

/// The state in which every snapshot starts.
pub open spec fn fresh() -> SnapshotState {
    SnapshotState { ports: Seq::empty(), step: SnapshotStep::OpenKey, room: FIRST_ROOM }
}

/// The state after the key was opened, or was found not to exist.
pub open spec fn after_open(state: SnapshotState, status: u32) -> SnapshotState {
    SnapshotState {
        step: if status == ERROR_SUCCESS {
            SnapshotStep::QueryValue(0)
        } else {
            SnapshotStep::Complete
        },
        ..state
    }
}

/// Twice the room, as far as a call can make room at all.
pub open spec fn more_room(room: u32) -> u32 {
    if room <= u32::MAX / 2 {
        (2 * room) as u32
    } else {
        u32::MAX
    }
}

/// Whether a value is to be asked for again, with more room: it did not fit, and there is more
/// room to be had.
pub open spec fn asks_again(state: SnapshotState, status: u32) -> bool {
    status == ERROR_MORE_DATA && state.room < u32::MAX
}

/// The state after the value with index `index` was asked for.
pub open spec fn after_value(state: SnapshotState, index: u32, reply: ValueReply) -> SnapshotState {
    if reply.status == ERROR_NO_MORE_ITEMS {
        SnapshotState { step: SnapshotStep::CloseKey, ..state }
    } else if asks_again(state, reply.status) {
        SnapshotState { room: more_room(state.room), ..state }
    } else {
        SnapshotState {
            ports: match port_in_reply(reply) {
                Some(name) => ports::with_name(state.ports, name),
                None => state.ports,
            },
            step: SnapshotStep::QueryValue((index + 1) as u32),
            ..state
        }
    }
}

/// A snapshot of the COM ports that are present.
pub struct Snapshot {
    ports: PortSet,
    step: SnapshotStep,
    room: u32,
}

impl View for Snapshot {
    type V = SnapshotState;

    closed spec fn view(&self) -> SnapshotState {
        SnapshotState { ports: self.ports@, step: self.step, room: self.room }
    }
}

impl Snapshot {
    /// Starts a snapshot.
    pub fn new() -> (snapshot: Snapshot)
        ensures
            snapshot@ == fresh(),
    {
        Snapshot { ports: PortSet::new(), step: SnapshotStep::OpenKey, room: FIRST_ROOM }
    }

    /// The registry call that comes next.
    pub fn step(&self) -> (step: SnapshotStep)
        ensures
            step == self@.step,
    {
        self.step
    }

    /// The number of bytes to make room for in asking for a value's data.
    pub fn room(&self) -> (room: u32)
        ensures
            room == self@.room,
    {
        self.room
    }

    /// Takes in the status of opening the key. A key that cannot be opened does not exist,
    /// which is normal on systems with no serial hardware: there are no ports then.
    pub fn opened(&mut self, status: u32)
        requires
            old(self)@.step is OpenKey,
        ensures
            final(self)@ == after_open(old(self)@, status),
    {
        if status == ERROR_SUCCESS {
            self.step = SnapshotStep::QueryValue(0);
        } else {
            self.step = SnapshotStep::Complete;
        }
    }

    /// Takes in what asking for the value with index `index` returned; `data` is as long as the
    /// call reported. A value that did not fit is asked for again, with more room.
    pub fn value(&mut self, index: u32, status: u32, value_type: u32, data: &[u8])
        requires
            old(self)@.step == SnapshotStep::QueryValue(index),
            status == ERROR_NO_MORE_ITEMS || asks_again(old(self)@, status) || index < u32::MAX,
        ensures
            final(self)@ == after_value(
                old(self)@,
                index,
                (ValueReply { status, value_type, data: data@ }),
            ),
    {
        if status == ERROR_NO_MORE_ITEMS {
            self.step = SnapshotStep::CloseKey;
        } else if status == ERROR_MORE_DATA && self.room < u32::MAX {
            if self.room <= u32::MAX / 2 {
                self.room = 2 * self.room;
            } else {
                self.room = u32::MAX;
            }
        } else {
            if status == ERROR_SUCCESS && value_type == REG_SZ && data.len() >= 2 {
                let port: String = utf16::text_of_buffer(data);
                if !port.as_str().is_empty() {
                    self.ports.insert(port);
                }
            }
            self.step = SnapshotStep::QueryValue(index + 1);
        }
    }

    /// Takes in that the key was closed.
    pub fn closed(&mut self)
        requires
            old(self)@.step is CloseKey,
        ensures
            final(self)@ == (SnapshotState { step: SnapshotStep::Complete, ..old(self)@ }),
    {
        self.step = SnapshotStep::Complete;
    }

    /// The ports of a complete snapshot.
    pub fn finish(self) -> (ports: PortSet)
        requires
            self@.step is Complete,
        ensures
            ports@ == self@.ports,
    {
        self.ports
    }
}

/// The state of a snapshot that opened its key and then got these replies, one after another.
pub open spec fn after_replies(replies: Seq<ValueReply>) -> SnapshotState
    decreases replies.len(),
{
    if replies.len() == 0 {
        after_open(fresh(), ERROR_SUCCESS)
    } else {
        let before = after_replies(replies.drop_last());
        match before.step {
            SnapshotStep::QueryValue(index) => after_value(before, index, replies.last()),
            _ => before,
        }
    }
}

/// Whether one of the replies names this port.
pub open spec fn named_in(replies: Seq<ValueReply>, name: Seq<char>) -> bool {
    exists|i: int| 0 <= i < replies.len() && port_in_reply(#[trigger] replies[i]) == Some(name)
}

/// A name that is found is among the names from then on, beside those found before.
proof fn with_name_members(names: Seq<Seq<char>>, found: Option<Seq<char>>, name: Seq<char>)
    ensures
        found matches Some(new) ==> (ports::with_name(names, new).contains(name) <==> (
        names.contains(name) || name == new)),
{
    if let Some(new) = found {
        if !names.contains(new) {
            let grown = names.push(new);
            assert(grown[names.len() as int] == new);
            if names.contains(name) {
                let j = choose|j: int| 0 <= j < names.len() && names[j] == name;
                assert(grown[j] == name);
            }
        }
    }
}

/// How many of the replies settled their value: all but those after which it is asked for again.
pub open spec fn settled(replies: Seq<ValueReply>) -> nat
    decreases replies.len(),
{
    if replies.len() == 0 {
        0
    } else {
        let front = replies.drop_last();
        if asks_again(after_replies(front), replies.last().status) {
            settled(front)
        } else {
            settled(front) + 1
        }
    }
}

/// While replies other than "no more items" come in, the values are asked for by index, from
/// zero on and one by one, each until it is settled, and the ports found are those that the
/// replies name, each once.
pub proof fn snapshot_walks_the_values(replies: Seq<ValueReply>)
    requires
        replies.len() <= u32::MAX,
        forall|i: int|
            0 <= i < replies.len() ==> (#[trigger] replies[i]).status != ERROR_NO_MORE_ITEMS,
    ensures
        settled(replies) <= replies.len(),
        after_replies(replies).step == SnapshotStep::QueryValue(settled(replies) as u32),
        after_replies(replies).ports.no_duplicates(),
        forall|name: Seq<char>|
            #[trigger] after_replies(replies).ports.contains(name) <==> named_in(replies, name),
    decreases replies.len(),
{
    if replies.len() > 0 {
        let front = replies.drop_last();
        let reply = replies.last();
        assert(replies[replies.len() - 1].status != ERROR_NO_MORE_ITEMS);
        assert forall|i: int| 0 <= i < front.len() implies (#[trigger] front[i]).status
            != ERROR_NO_MORE_ITEMS by {
            assert(front[i] == replies[i]);
        }
        snapshot_walks_the_values(front);
        let before = after_replies(front);
        let after = after_replies(replies);
        assert(after == after_value(before, settled(front) as u32, reply));
        assert forall|name: Seq<char>|
            #[trigger] after.ports.contains(name) <==> named_in(replies, name) by {
            assert(before.ports.contains(name) <==> named_in(front, name));
            if named_in(replies, name) {
                let i = choose|i: int|
                    0 <= i < replies.len() && port_in_reply(#[trigger] replies[i]) == Some(name);
                if i < front.len() {
                    assert(front[i] == replies[i]);
                    assert(named_in(front, name));
                }
            }
            if named_in(front, name) {
                let i = choose|i: int|
                    0 <= i < front.len() && port_in_reply(#[trigger] front[i]) == Some(name);
                assert(replies[i] == front[i]);
                assert(named_in(replies, name));
            }
            if port_in_reply(reply) == Some(name) {
                assert(replies[replies.len() - 1] == reply);
                assert(named_in(replies, name));
            }
            with_name_members(before.ports, port_in_reply(reply), name);
        }
    } else {
        assert forall|name: Seq<char>| !named_in(replies, name) by {}
    }
}

/// When the values have run out, the key is to be closed and the snapshot holds exactly the
/// ports that the replies up to then named, each once.
pub proof fn snapshot_holds_every_port(replies: Seq<ValueReply>, end: ValueReply)
    requires
        replies.len() <= u32::MAX,
        forall|i: int|
            0 <= i < replies.len() ==> (#[trigger] replies[i]).status != ERROR_NO_MORE_ITEMS,
        end.status == ERROR_NO_MORE_ITEMS,
    ensures
        after_replies(replies.push(end)).step is CloseKey,
        after_replies(replies.push(end)).ports.no_duplicates(),
        forall|name: Seq<char>|
            #[trigger] after_replies(replies.push(end)).ports.contains(name) <==> named_in(
                replies,
                name,
            ),
{
    snapshot_walks_the_values(replies);
    assert(replies.push(end).drop_last() =~= replies);
}

/// Without the key there are no ports.
pub proof fn absent_key_has_no_ports(status: u32)
    requires
        status != ERROR_SUCCESS,
    ensures
        after_open(fresh(), status).step is Complete,
        after_open(fresh(), status).ports.len() == 0,
{
}

/// A label that was stored as a NUL-terminated string, or without its terminator, is found as
/// it was stored.
pub proof fn stored_label_is_found(label: Seq<char>, junk: Seq<u16>)
    requires
        label.len() > 0,
        !label.contains('\0'),
    ensures
        port_in_reply(
            (ValueReply {
                status: ERROR_SUCCESS,
                value_type: REG_SZ,
                data: utf16::bytes_of_units(utf16::encode(label).push(0) + junk),
            }),
        ) == Some(label),
        port_in_reply(
            (ValueReply {
                status: ERROR_SUCCESS,
                value_type: REG_SZ,
                data: utf16::bytes_of_units(utf16::encode(label)),
            }),
        ) == Some(label),
{
    utf16::buffer_reads_back(label, junk);
    utf16::unterminated_buffer_reads_back(label);
    assert(utf16::encode(label).len() > 0);
}

/// A value under the key.
pub struct StoredValue {
    pub value_type: u32,
    pub data: Seq<u8>,
}

/// The port that a value stands for: the text of a string value that is not empty.
pub open spec fn port_of_value(value: StoredValue) -> Option<Seq<char>> {
    port_in_reply(
        ValueReply { status: ERROR_SUCCESS, value_type: value.value_type, data: value.data },
    )
}

/// How `RegEnumValueW` answers for a key that holds these values: it hands out the value with the
/// given index if its data fits into the room, says that it did not fit if it does not, and says
/// that there are no more items behind the last one.
pub open spec fn reply_from(values: Seq<StoredValue>, index: u32, room: u32) -> ValueReply {
    if index >= values.len() {
        ValueReply { status: ERROR_NO_MORE_ITEMS, value_type: 0, data: Seq::empty() }
    } else {
        let value = values[index as int];
        if value.data.len() > room {
            ValueReply {
                status: ERROR_MORE_DATA,
                value_type: value.value_type,
                data: Seq::empty(),
            }
        } else {
            ValueReply {
                status: ERROR_SUCCESS,
                value_type: value.value_type,
                data: value.data,
            }
        }
    }
}

/// The number of values that a snapshot has still to ask for, and the question for the end.
pub open spec fn questions_left(values: Seq<StoredValue>, state: SnapshotState) -> nat {
    match state.step {
        SnapshotStep::QueryValue(index) if index <= values.len() => (values.len() - index
            + 1) as nat,
        _ => 0,
    }
}

/// Where a snapshot comes to when it asks for one value after another under a key that holds
/// these values, until it does not ask any more.
pub open spec fn scan(values: Seq<StoredValue>, state: SnapshotState) -> SnapshotState
    decreases questions_left(values, state), u32::MAX - state.room,
{
    match state.step {
        SnapshotStep::QueryValue(index) if index <= values.len() < u32::MAX && state.room > 0 =>
        scan(values, after_value(state, index, reply_from(values, index, state.room))),
        _ => state,
    }
}

/// Whether one of the first `count` values stands for this port.
pub open spec fn stored_among(values: Seq<StoredValue>, count: int, name: Seq<char>) -> bool {
    exists|i: int| 0 <= i < count && port_of_value(#[trigger] values[i]) == Some(name)
}

/// A scan that has found the ports of the values before the one it asks for finds all of them.
proof fn scan_finds_the_rest(values: Seq<StoredValue>, state: SnapshotState, index: u32)
    requires
        values.len() < u32::MAX,
        forall|i: int| 0 <= i < values.len() ==> (#[trigger] values[i]).data.len() <= u32::MAX,
        state.step == SnapshotStep::QueryValue(index),
        index <= values.len(),
        state.room > 0,
        state.ports.no_duplicates(),
        forall|name: Seq<char>|
            #[trigger] state.ports.contains(name) <==> stored_among(values, index as int, name),
    ensures
        scan(values, state).step is CloseKey,
        scan(values, state).ports.no_duplicates(),
        forall|name: Seq<char>|
            #[trigger] scan(values, state).ports.contains(name) <==> stored_among(
                values,
                values.len() as int,
                name,
            ),
    decreases values.len() - index, u32::MAX - state.room,
{
    let reply = reply_from(values, index, state.room);
    let next = after_value(state, index, reply);
    assert(scan(values, state) == scan(values, next));
    if index == values.len() {
        assert(scan(values, next) == next);
    } else if asks_again(state, reply.status) {
        scan_finds_the_rest(values, next, index);
    } else {
        assert(values[index as int].data.len() <= u32::MAX);
        assert(port_in_reply(reply) == port_of_value(values[index as int]));
        assert forall|name: Seq<char>|
            #[trigger] next.ports.contains(name) <==> stored_among(
                values,
                index + 1,
                name,
            ) by {
            with_name_members(state.ports, port_in_reply(reply), name);
            assert(state.ports.contains(name) <==> stored_among(values, index as int, name));
            if stored_among(values, index as int, name) {
                let i = choose|i: int|
                    0 <= i < index && port_of_value(#[trigger] values[i]) == Some(name);
                assert(port_of_value(values[i]) == Some(name));
            }
            if stored_among(values, index + 1, name) {
                let i = choose|i: int|
                    0 <= i < index + 1 && port_of_value(#[trigger] values[i]) == Some(name);
                if i < index {
                    assert(stored_among(values, index as int, name));
                }
            }
        }
        scan_finds_the_rest(values, next, (index + 1) as u32);
    }
}

/// Every COM port present in the registry is in the snapshot: under a key that holds these
/// values, however long, a snapshot ends by closing the key and then holds exactly the ports that
/// the values stand for, each once.
pub proof fn snapshot_finds_every_stored_port(values: Seq<StoredValue>)
    requires
        values.len() < u32::MAX,
        forall|i: int| 0 <= i < values.len() ==> (#[trigger] values[i]).data.len() <= u32::MAX,
    ensures
        ({
            let end = scan(values, after_open(fresh(), ERROR_SUCCESS));
            &&& end.step is CloseKey
            &&& end.ports.no_duplicates()
            &&& forall|name: Seq<char>|
                #[trigger] end.ports.contains(name) <==> stored_among(
                    values,
                    values.len() as int,
                    name,
                )
        }),
{
    scan_finds_the_rest(values, after_open(fresh(), ERROR_SUCCESS), 0);
}

/// A reply names a port exactly if it is a string value that was read successfully, holds at
/// least one code unit and is not empty as a text; the port is that text. A failed call, or a
/// value of any other type, names none.
pub proof fn a_port_is_the_text_of_a_string_value(reply: ValueReply)
    ensures
        port_in_reply(reply) is Some <==> reply.status == 0 && reply.value_type == 1
            && reply.data.len() >= 2 && utf16::text_in_buffer(reply.data).len() > 0,
        port_in_reply(reply) matches Some(name) ==> name == utf16::text_in_buffer(reply.data),
{
}

/// A label whose characters are stored one per byte pair, by their codes and the low byte first,
/// is the port that the value names.
pub proof fn plain_label_is_found(data: Seq<u8>, label: Seq<char>)
    requires
        0 < label.len(),
        2 * label.len() <= data.len(),
        forall|i: int|
            0 <= i < label.len() ==> 0 < #[trigger] label[i] as int && label[i] as int == data[2
                * i] + 256 * data[2 * i + 1],
        data.len() / 2 == label.len() || (data[2 * label.len() as int] == 0 && data[2
            * label.len() as int + 1] == 0),
    ensures
        port_in_reply((ValueReply { status: 0, value_type: 1, data })) == Some(label),
{
    utf16::plain_label_reads_as_its_characters(data, label);
}

/// A snapshot starts without ports, by opening the key; from a key that was opened it asks for
/// the first value, and otherwise it is complete.
pub proof fn snapshot_starts_with_the_key(state: SnapshotState, status: u32)
    ensures
        fresh().ports.len() == 0,
        fresh().step is OpenKey,
        fresh().room > 0,
        after_open(state, status).ports == state.ports,
        after_open(state, status).room == state.room,
        status == 0 ==> after_open(state, status).step == SnapshotStep::QueryValue(0),
        status != 0 ==> after_open(state, status).step is Complete,
{
}

/// Only the end of the values ends the questions, and it changes nothing else.
pub proof fn the_end_closes_the_key(state: SnapshotState, index: u32, reply: ValueReply)
    requires
        state.step == SnapshotStep::QueryValue(index),
    ensures
        after_value(state, index, reply).step is CloseKey <==> reply.status == 259,
        reply.status == 259 ==> after_value(state, index, reply).ports == state.ports,
{
}

/// A value that did not fit is asked for again, under the same index and with more room, at
/// least twice as much where that much can be had; nothing is found or lost by it.
pub proof fn a_value_that_did_not_fit_is_asked_for_again(
    state: SnapshotState,
    index: u32,
    reply: ValueReply,
)
    requires
        state.step == SnapshotStep::QueryValue(index),
        reply.status == 234,
        0 < state.room < u32::MAX,
    ensures
        after_value(state, index, reply).step == SnapshotStep::QueryValue(index),
        after_value(state, index, reply).ports == state.ports,
        after_value(state, index, reply).room > state.room,
        after_value(state, index, reply).room >= 2 * state.room || after_value(
            state,
            index,
            reply,
        ).room == u32::MAX,
{
}

/// Any other reply settles its value: the next index is asked for, with the same room, and the
/// ports are those from before and the one that the reply names, if it names one.
pub proof fn any_other_value_is_settled(
    state: SnapshotState,
    index: u32,
    reply: ValueReply,
    name: Seq<char>,
)
    requires
        state.step == SnapshotStep::QueryValue(index),
        index < u32::MAX,
        reply.status != 259,
        reply.status != 234 || state.room == u32::MAX,
    ensures
        after_value(state, index, reply).step == SnapshotStep::QueryValue((index + 1) as u32),
        after_value(state, index, reply).room == state.room,
        after_value(state, index, reply).ports.contains(name) <==> state.ports.contains(name)
            || port_in_reply(reply) == Some(name),
        state.ports.no_duplicates() ==> after_value(state, index, reply).ports.no_duplicates(),
{
    match port_in_reply(reply) {
        Some(new) => {
            ports::with_name_adds_one(state.ports, new, name);
        },
        None => {},
    }
}

/// A plainly stored label is in the snapshot: where one of the values under the key is a string
/// whose byte pairs are the codes of the label's characters, the snapshot holds that label,
/// whichever value it is, however long it is and whatever else the key holds.
pub proof fn plainly_stored_port_is_in_the_snapshot(
    values: Seq<StoredValue>,
    at: int,
    label: Seq<char>,
)
    requires
        values.len() < u32::MAX,
        forall|i: int| 0 <= i < values.len() ==> (#[trigger] values[i]).data.len() <= u32::MAX,
        0 <= at < values.len(),
        values[at].value_type == 1,
        0 < label.len(),
        2 * label.len() <= values[at].data.len(),
        forall|i: int|
            0 <= i < label.len() ==> 0 < #[trigger] label[i] as int && label[i] as int
                == values[at].data[2 * i] + 256 * values[at].data[2 * i + 1],
        values[at].data.len() / 2 == label.len() || (values[at].data[2 * label.len() as int] == 0
            && values[at].data[2 * label.len() as int + 1] == 0),
    ensures
        scan(values, after_open(fresh(), 0)).ports.contains(label),
{
    snapshot_finds_every_stored_port(values);
    plain_label_is_found(values[at].data, label);
    assert(port_of_value(values[at]) == Some(label));
    assert(stored_among(values, values.len() as int, label));
}

} // verus!
