use crate::code::MAX_FIELD;
use crate::encoding::{be16, be24, be_value, lemma_be16_value, push_be16, push_be24};
use crate::error::KeyDataError;
use crate::opcode::TLCode;
use vstd::prelude::*;

verus! {

/// The largest access-point identifier: it is a 24-bit field on the wire.
pub const MAX_ACCESS_POINT: u32 = 0xFF_FFFF;

/// The number of bytes of one encoded entry.
pub const ENTRY_SIZE: usize = 6;

/// One row of the dispatch table: an access point and the offset, local to
/// the code segment, of the routine that it jumps to.
#[derive(Clone, Copy, Debug, PartialEq, Eq, Structural)]
pub struct RoomListEntry {
    pub access_point: u32,
    pub offset: u16,
}

/// The dispatch table, in the order in which the entries were registered. Its
/// view is the sequence of its entries.
pub struct RoomList {
    entries: Vec<RoomListEntry>,
}

/// The jump target that an entry is encoded with.
pub open spec fn target(e: RoomListEntry, base_offset: int) -> int {
    e.offset + base_offset
}

/// Every entry's jump target fits its 16-bit field.
pub open spec fn targets_fit(entries: Seq<RoomListEntry>, base_offset: int) -> bool {
    forall|i: int| 0 <= i < entries.len() ==> target(#[trigger] entries[i], base_offset) <= MAX_FIELD
}

/// Every entry's access point fits its 24-bit field.
pub open spec fn access_points_fit(entries: Seq<RoomListEntry>) -> bool {
    forall|i: int| 0 <= i < entries.len() ==> (#[trigger] entries[i]).access_point <= MAX_ACCESS_POINT
}

/// One conditional jump: the opcode, the access point in three bytes and the
/// target in two.
pub open spec fn entry_bytes(e: RoomListEntry, base_offset: int) -> Seq<u8> {
    seq![TLCode::JmpIfAccessPoint.byte()] + be24(e.access_point) + be16(
        target(e, base_offset) as u16,
    )
}

/// The conditional jumps of all entries, in order.
pub open spec fn entries_bytes(entries: Seq<RoomListEntry>, base_offset: int) -> Seq<u8>
    decreases entries.len(),
{
    if entries.len() == 0 {
        Seq::<u8>::empty()
    } else {
        entries_bytes(entries.drop_last(), base_offset) + entry_bytes(entries.last(), base_offset)
    }
}

/// The fall-through when no access point matches: deny, then end.
pub open spec fn deny_tail() -> Seq<u8> {
    seq![TLCode::CmdAccessDenied.byte(), TLCode::TlsEnd.byte()]
}

/// The encoded dispatch table: the jumps, then the fall-through.
pub open spec fn room_list_bytes(entries: Seq<RoomListEntry>, base_offset: int) -> Seq<u8> {
    entries_bytes(entries, base_offset) + deny_tail()
}

/// The jumps of `n` entries take `6 * n` bytes.
pub proof fn lemma_entries_bytes_len(entries: Seq<RoomListEntry>, base_offset: int)
    ensures
        entries_bytes(entries, base_offset).len() == ENTRY_SIZE * entries.len(),
    decreases entries.len(),
{
    if entries.len() > 0 {
        lemma_entries_bytes_len(entries.drop_last(), base_offset);
    }
}

/// A dispatch table of `n` entries takes exactly `6 * n + 2` bytes, and ends
/// with the fall-through.
pub proof fn lemma_room_list_bytes_len(entries: Seq<RoomListEntry>, base_offset: int)
    ensures
        room_list_bytes(entries, base_offset).len() == ENTRY_SIZE * entries.len() + 2,
        room_list_bytes(entries, base_offset).subrange(
            ENTRY_SIZE * entries.len(),
            ENTRY_SIZE * entries.len() + 2,
        ) == deny_tail(),
{
    lemma_entries_bytes_len(entries, base_offset);
    assert(room_list_bytes(entries, base_offset).subrange(
        ENTRY_SIZE * entries.len(),
        ENTRY_SIZE * entries.len() + 2,
    ) =~= deny_tail());
}

/// The six bytes at `6 * i` of the encoded table are the jump of entry `i`.
pub proof fn lemma_entry_position(entries: Seq<RoomListEntry>, base_offset: int, i: int)
    requires
        0 <= i < entries.len(),
    ensures
        ENTRY_SIZE * i + ENTRY_SIZE <= entries_bytes(entries, base_offset).len(),
        entries_bytes(entries, base_offset).subrange(ENTRY_SIZE * i, ENTRY_SIZE * i + ENTRY_SIZE)
            == entry_bytes(entries[i], base_offset),
        room_list_bytes(entries, base_offset).subrange(ENTRY_SIZE * i, ENTRY_SIZE * i + ENTRY_SIZE)
            == entry_bytes(entries[i], base_offset),
    decreases entries.len(),
{
    let all = entries_bytes(entries, base_offset);
    let front = entries_bytes(entries.drop_last(), base_offset);
    lemma_entries_bytes_len(entries, base_offset);
    lemma_entries_bytes_len(entries.drop_last(), base_offset);
    if i == entries.len() - 1 {
        assert(all.subrange(ENTRY_SIZE * i, ENTRY_SIZE * i + ENTRY_SIZE) =~= entry_bytes(
            entries[i],
            base_offset,
        ));
    } else {
        lemma_entry_position(entries.drop_last(), base_offset, i);
        assert(all.subrange(ENTRY_SIZE * i, ENTRY_SIZE * i + ENTRY_SIZE) =~= front.subrange(
            ENTRY_SIZE * i,
            ENTRY_SIZE * i + ENTRY_SIZE,
        ));
    }
    assert(room_list_bytes(entries, base_offset).subrange(
        ENTRY_SIZE * i,
        ENTRY_SIZE * i + ENTRY_SIZE,
    ) =~= all.subrange(ENTRY_SIZE * i, ENTRY_SIZE * i + ENTRY_SIZE));
}

/// The last two bytes of an encoded entry read back as its jump target.
pub proof fn lemma_entry_target(e: RoomListEntry, base_offset: int)
    requires
        0 <= base_offset,
        target(e, base_offset) <= MAX_FIELD,
    ensures
        entry_bytes(e, base_offset).len() == ENTRY_SIZE,
        entry_bytes(e, base_offset)[0] == TLCode::JmpIfAccessPoint.byte(),
        entry_bytes(e, base_offset).subrange(1, 4) == be24(e.access_point),
        be_value(entry_bytes(e, base_offset).subrange(4, 6)) == target(e, base_offset),
{
    let t = target(e, base_offset) as u16;
    lemma_be16_value(t);
    assert(entry_bytes(e, base_offset).subrange(4, 6) =~= be16(t));
    assert(entry_bytes(e, base_offset).subrange(1, 4) =~= be24(e.access_point));
}

impl View for RoomList {
    type V = Seq<RoomListEntry>;

    closed spec fn view(&self) -> Seq<RoomListEntry> {
        self.entries@
    }
}

impl RoomList {
    /// The encoded table fits a 16-bit size and every access point fits its
    /// 24-bit field.
    pub open spec fn wf(&self) -> bool {
        &&& ENTRY_SIZE * self@.len() + 2 <= MAX_FIELD
        &&& access_points_fit(self@)
    }

    pub fn new() -> (l: RoomList)
        ensures
            l@ == Seq::<RoomListEntry>::empty(),
            l.wf(),
    {
        RoomList { entries: Vec::new() }
    }

    /// Appends an entry. An access point of more than 24 bits is refused as
    /// out of range; otherwise an entry that would take the encoded table past
    /// 65535 bytes is refused as too large. A refused call changes nothing. An
    /// access point that is already in the table is accepted again.
    pub fn add(&mut self, access_point: u32, offset: u16) -> (r: Result<(), KeyDataError>)
        requires
            old(self).wf(),
        ensures
            final(self).wf(),
            access_point > MAX_ACCESS_POINT ==> r == Err::<(), KeyDataError>(
                KeyDataError::ValueOutOfRange,
            ) && final(self)@ == old(self)@,
            access_point <= MAX_ACCESS_POINT && ENTRY_SIZE * (old(self)@.len() + 1) + 2 > MAX_FIELD
                ==> r == Err::<(), KeyDataError>(KeyDataError::RecordTooLarge) && final(self)@
                == old(self)@,
            access_point <= MAX_ACCESS_POINT && ENTRY_SIZE * (old(self)@.len() + 1) + 2
                <= MAX_FIELD ==> r == Ok::<(), KeyDataError>(()) && final(self)@ == old(
                self,
            )@.push(RoomListEntry { access_point, offset }),
    {
        if access_point > MAX_ACCESS_POINT {
            return Err(KeyDataError::ValueOutOfRange);
        }
        if self.entries.len() >= (MAX_FIELD - 2) / ENTRY_SIZE {
            return Err(KeyDataError::RecordTooLarge);
        }
        self.push(RoomListEntry { access_point, offset });
        Ok(())
    }

    /// Appends an entry that is known to fit.
    pub(crate) fn push(&mut self, entry: RoomListEntry)
        requires
            old(self).wf(),
            entry.access_point <= MAX_ACCESS_POINT,
            ENTRY_SIZE * (old(self)@.len() + 1) + 2 <= MAX_FIELD,
        ensures
            final(self).wf(),
            final(self)@ == old(self)@.push(entry),
    {
        self.entries.push(entry);
    }

    /// The number of bytes of the encoded table: six for each entry and two
    /// for the fall-through.
    pub fn size(&self) -> (n: u16)
        requires
            self.wf(),
        ensures
            n == ENTRY_SIZE * self@.len() + 2,
            forall|base_offset: int| n == #[trigger] room_list_bytes(self@, base_offset).len(),
    {
        proof {
            assert forall|base_offset: int|
                ENTRY_SIZE * self@.len() + 2 == #[trigger] room_list_bytes(
                    self@,
                    base_offset,
                ).len() by {
                lemma_room_list_bytes_len(self@, base_offset);
            }
        }
        (self.entries.len() * ENTRY_SIZE + 2) as u16
    }

    /// Whether every entry's jump target fits 16 bits once `base_offset` is
    /// added to it.
    pub fn targets_fit(&self, base_offset: u16) -> (fit: bool)
        ensures
            fit == targets_fit(self@, base_offset as int),
    {
        let mut i: usize = 0;
        while i < self.entries.len()
            invariant
                i <= self.entries.len(),
                targets_fit(self@.take(i as int), base_offset as int),
            decreases self.entries.len() - i,
        {
            if self.entries[i].offset > 0xFFFF - base_offset {
                assert(target(self@[i as int], base_offset as int) > MAX_FIELD);
                return false;
            }
            assert forall|j: int| 0 <= j < i + 1 implies target(
                #[trigger] self@.take(i + 1)[j],
                base_offset as int,
            ) <= MAX_FIELD by {
                if j < i {
                    assert(self@.take(i + 1)[j] == self@.take(i as int)[j]);
                }
            }
            i += 1;
        }
        assert(self@.take(i as int) =~= self@);
        true
    }

    /// Encodes the table for a code segment that begins at `base_offset` in
    /// the payload: one conditional jump per entry, in insertion order, each
    /// to the entry's offset plus `base_offset`, then the fall-through. A
    /// target that does not fit 16 bits makes the table too large.
    pub fn to_bytes(&self, base_offset: u16) -> (r: Result<Vec<u8>, KeyDataError>)
        ensures
            targets_fit(self@, base_offset as int) ==> r.is_ok() && r.unwrap()@ == room_list_bytes(
                self@,
                base_offset as int,
            ) && r.unwrap()@.len() == ENTRY_SIZE * self@.len() + 2,
            !targets_fit(self@, base_offset as int) ==> r == Err::<Vec<u8>, KeyDataError>(
                KeyDataError::RecordTooLarge,
            ),
    {
        if !self.targets_fit(base_offset) {
            return Err(KeyDataError::RecordTooLarge);
        }
        Ok(self.encode(base_offset))
    }

    /// Encodes a table whose targets are known to fit.
    pub(crate) fn encode(&self, base_offset: u16) -> (bytes: Vec<u8>)
        requires
            targets_fit(self@, base_offset as int),
        ensures
            bytes@ == room_list_bytes(self@, base_offset as int),
            bytes@.len() == ENTRY_SIZE * self@.len() + 2,
    {
        let mut data: Vec<u8> = Vec::new();
        let mut i: usize = 0;
        while i < self.entries.len()
            invariant
                i <= self.entries.len(),
                targets_fit(self@, base_offset as int),
                data@ == entries_bytes(self@.take(i as int), base_offset as int),
            decreases self.entries.len() - i,
        {
            let entry = self.entries[i];
            assert(target(self@[i as int], base_offset as int) <= MAX_FIELD);
            let offset: u16 = entry.offset + base_offset;
            let ghost before = data@;
            data.push(TLCode::JmpIfAccessPoint.to_byte());
            push_be24(&mut data, entry.access_point);
            push_be16(&mut data, offset);
            proof {
                let next = self@.take(i + 1);
                assert(next.drop_last() =~= self@.take(i as int));
                assert(next.last() == entry);
                assert(data@ =~= before + entry_bytes(entry, base_offset as int));
            }
            i += 1;
        }
        data.push(TLCode::CmdAccessDenied.to_byte());
        data.push(TLCode::TlsEnd.to_byte());
        proof {
            assert(self@.take(i as int) =~= self@);
            assert(data@ =~= room_list_bytes(self@, base_offset as int));
            lemma_room_list_bytes_len(self@, base_offset as int);
        }
        data
    }
}

} // verus!
