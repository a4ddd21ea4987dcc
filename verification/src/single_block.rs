use crate::code::{Code, MAX_FIELD};
use crate::encoding::{be16, be32, push_be16, push_be32};
use crate::error::KeyDataError;
use crate::header::{envelope_bytes, key_data_header_bytes, Header, KeyDataHeader, SINGLE_BLOCK_FORMAT};
use crate::hex::{hex_text, to_hex};
use crate::opcode::TLCode;
use crate::room_list::{
    access_points_fit, room_list_bytes, targets_fit, RoomList, RoomListEntry, ENTRY_SIZE,
    MAX_ACCESS_POINT,
};
use vstd::prelude::*;

verus! {

/// The number of bytes of the key data header.
pub const KEY_DATA_HEADER_SIZE: usize = 6;

/// The number of bytes of the expiry rule, where there is one.
pub const EXPIRY_RULE_SIZE: usize = 5;

/// The number of reserved bytes that close the payload.
pub const TRAILER_SIZE: usize = 2;

/// The routine that grants access: access, then end.
pub open spec fn plain_routine() -> Seq<u8> {
    seq![TLCode::CmdAccess.byte(), TLCode::TlsEnd.byte()]
}

/// The routine that verifies and stores an override number, high byte first,
/// and then grants access.
pub open spec fn overriding_routine(override_number: u32) -> Seq<u8> {
    seq![TLCode::RuleVerifyAndStoreOverride.byte()] + be32(override_number) + plain_routine()
}

/// A routine of one of the two shapes begins at `at`.
pub open spec fn routine_at(bytes: Seq<u8>, at: int) -> bool {
    &&& 0 <= at
    &&& {
        ||| at + 2 <= bytes.len() && bytes[at] == TLCode::CmdAccess.byte() && bytes[at + 1]
            == TLCode::TlsEnd.byte()
        ||| at + 7 <= bytes.len() && bytes[at] == TLCode::RuleVerifyAndStoreOverride.byte()
            && bytes[at + 5] == TLCode::CmdAccess.byte() && bytes[at + 6]
            == TLCode::TlsEnd.byte()
    }
}

/// The bytes are exactly one routine.
pub open spec fn is_routine(bytes: Seq<u8>) -> bool {
    routine_at(bytes, 0) && (bytes.len() == 2 || bytes.len() == 7)
}

/// The entries that one rule adds: one for each access point, in order, all
/// with the offset of the rule's routine.
pub open spec fn group_entries(access_points: Seq<u32>, offset: u16) -> Seq<RoomListEntry> {
    Seq::new(
        access_points.len(),
        |k: int| (RoomListEntry { access_point: access_points[k], offset }),
    )
}

/// Every access point of the list fits 24 bits.
pub open spec fn all_in_range(access_points: Seq<u32>) -> bool {
    forall|k: int| 0 <= k < access_points.len() ==> #[trigger] access_points[k] <= MAX_ACCESS_POINT
}

/// What a block is, as plain values: the state that its bytes are a function
/// of.
pub struct SingleBlockView {
    pub format: u8,
    pub key_id: u32,
    /// Zero stands for "no expiry".
    pub valid_until: u32,
    pub entries: Seq<RoomListEntry>,
    pub code: Seq<u8>,
}

impl SingleBlockView {
    /// The state of a block that has just been made for `key_id`.
    pub open spec fn initial(key_id: u32) -> SingleBlockView {
        SingleBlockView {
            format: SINGLE_BLOCK_FORMAT,
            key_id,
            valid_until: 0,
            entries: Seq::empty(),
            code: Seq::empty(),
        }
    }

    pub open spec fn has_expiry(self) -> bool {
        self.valid_until != 0
    }

    /// The expiry rule: the opcode and the timestamp, or nothing.
    pub open spec fn expiry_bytes(self) -> Seq<u8> {
        if self.has_expiry() {
            seq![TLCode::RuleVerifyValidUntil.byte()] + be32(self.valid_until)
        } else {
            Seq::empty()
        }
    }

    pub open spec fn expiry_size(self) -> int {
        if self.has_expiry() {
            EXPIRY_RULE_SIZE as int
        } else {
            0
        }
    }

    pub open spec fn room_list_size(self) -> int {
        ENTRY_SIZE * self.entries.len() + 2
    }

    /// Where the room list begins in the payload.
    pub open spec fn room_list_start(self) -> int {
        KEY_DATA_HEADER_SIZE + self.expiry_size()
    }

    /// Where the code segment begins in the payload: behind the key data
    /// header, the expiry rule and the room list.
    pub open spec fn base_offset(self) -> int {
        KEY_DATA_HEADER_SIZE + self.room_list_size() + self.expiry_size()
    }

    /// The length of the payload, reserved bytes included.
    pub open spec fn data_size(self) -> int {
        self.base_offset() + self.code.len() + TRAILER_SIZE
    }

    /// Everything behind the envelope.
    pub open spec fn payload(self) -> Seq<u8> {
        key_data_header_bytes(self.key_id) + self.expiry_bytes() + room_list_bytes(
            self.entries,
            self.base_offset(),
        ) + self.code + seq![0u8, 0u8]
    }

    /// The whole record: the envelope with the payload's length, then the
    /// payload.
    pub open spec fn serialize(self) -> Seq<u8> {
        envelope_bytes(self.format) + be16(self.data_size() as u16) + self.payload()
    }

    /// The record without its two reserved bytes: what an integrity field
    /// is computed from.
    pub open spec fn unsealed(self) -> Seq<u8> {
        self.serialize().subrange(0, self.serialize().len() - TRAILER_SIZE)
    }

    /// The record with `field`, high byte first, in place of the two reserved
    /// bytes.
    pub open spec fn sealed(self, field: u16) -> Seq<u8> {
        self.unsealed() + be16(field)
    }

    /// The payload's length fits 16 bits, every access point fits 24 bits,
    /// and every entry points at the start of a routine.
    pub open spec fn wf(self) -> bool {
        &&& self.data_size() <= MAX_FIELD
        &&& access_points_fit(self.entries)
        &&& forall|i: int|
            0 <= i < self.entries.len() ==> routine_at(self.code, (#[trigger] self.entries[i]).offset as int)
    }

    pub open spec fn with_valid_until(self, time: u32) -> SingleBlockView {
        SingleBlockView { valid_until: time, ..self }
    }

    /// The state after a rule was registered: its routine at the end of the
    /// code, and its entries at the end of the room list.
    pub open spec fn with_rule(self, access_points: Seq<u32>, routine: Seq<u8>) -> SingleBlockView {
        SingleBlockView {
            entries: self.entries + group_entries(access_points, self.code.len() as u16),
            code: self.code + routine,
            ..self
        }
    }

    pub open spec fn with_overriding_access(
        self,
        access_points: Seq<u32>,
        override_number: u32,
    ) -> SingleBlockView {
        self.with_rule(access_points, overriding_routine(override_number))
    }

    pub open spec fn with_non_overriding_access(self, access_points: Seq<u32>) -> SingleBlockView {
        self.with_rule(access_points, plain_routine())
    }
}

/// Registering a rule keeps a block well formed as long as the access points
/// fit their field and the payload stays within 65535 bytes.
pub proof fn lemma_with_rule_wf(m: SingleBlockView, access_points: Seq<u32>, routine: Seq<u8>)
    requires
        m.wf(),
        is_routine(routine),
        all_in_range(access_points),
        m.with_rule(access_points, routine).data_size() <= MAX_FIELD,
    ensures
        m.with_rule(access_points, routine).wf(),
{
    let next = m.with_rule(access_points, routine);
    assert forall|i: int| 0 <= i < next.entries.len() implies routine_at(
        next.code,
        (#[trigger] next.entries[i]).offset as int,
    ) by {
        if i < m.entries.len() {
            assert(next.entries[i] == m.entries[i]);
            let at = m.entries[i].offset as int;
            assert(routine_at(m.code, at));
        } else {
            assert(next.entries[i].offset == m.code.len());
        }
    }
    assert forall|i: int| 0 <= i < next.entries.len() implies (#[trigger] next.entries[i]).access_point
        <= MAX_ACCESS_POINT by {
        if i < m.entries.len() {
            assert(next.entries[i] == m.entries[i]);
        } else {
            assert(next.entries[i].access_point == access_points[i - m.entries.len()]);
        }
    }
}

/// A record under assembly: the envelope marker, the key data header, the
/// expiry, the room list and the code segment.
pub struct SingleBlock {
    header: Header,
    data_header: KeyDataHeader,
    valid_until: u32,
    room_list: RoomList,
    code: Code,
}

impl View for SingleBlock {
    type V = SingleBlockView;

    closed spec fn view(&self) -> SingleBlockView {
        SingleBlockView {
            format: self.header.format(),
            key_id: self.data_header.key_id(),
            valid_until: self.valid_until,
            entries: self.room_list@,
            code: self.code@,
        }
    }
}

/// Whether every access point of the list fits 24 bits.
pub fn access_points_in_range(access_points: &[u32]) -> (fit: bool)
    ensures
        fit == all_in_range(access_points@),
{
    let mut i: usize = 0;
    while i < access_points.len()
        invariant
            i <= access_points.len(),
            forall|k: int| 0 <= k < i ==> #[trigger] access_points@[k] <= MAX_ACCESS_POINT,
        decreases access_points.len() - i,
    {
        if access_points[i] > MAX_ACCESS_POINT {
            return false;
        }
        i += 1;
    }
    true
}

impl SingleBlock {
    /// What every block that `new` and the registration calls hand out
    /// satisfies: see `SingleBlockView::wf`.
    pub open spec fn wf(&self) -> bool {
        self@.wf()
    }

    /// A block for `key_id` with the single-block format, no expiry, an empty
    /// room list and no code.
    pub fn new(key_id: u32) -> (b: SingleBlock)
        ensures
            b@ == SingleBlockView::initial(key_id),
            b.wf(),
    {
        SingleBlock {
            header: Header::new(SINGLE_BLOCK_FORMAT),
            data_header: KeyDataHeader::new(key_id),
            valid_until: 0,
            room_list: RoomList::new(),
            code: Code::new(),
        }
    }

    /// Sets the expiry; zero takes it away. An expiry whose rule would take
    /// the payload past 65535 bytes is refused.
    pub fn with_valid_until(self, time: u32) -> (r: Result<SingleBlock, KeyDataError>)
        requires
            self.wf(),
        ensures
            self@.with_valid_until(time).data_size() <= MAX_FIELD ==> r.is_ok() && r.unwrap()@
                == self@.with_valid_until(time) && r.unwrap().wf(),
            self@.with_valid_until(time).data_size() > MAX_FIELD ==> r == Err::<
                SingleBlock,
                KeyDataError,
            >(KeyDataError::RecordTooLarge),
    {
        if time != 0 && self.valid_until == 0 && self.data_size() as usize > MAX_FIELD
            - EXPIRY_RULE_SIZE {
            return Err(KeyDataError::RecordTooLarge);
        }
        let mut block = self;
        block.valid_until = time;
        Ok(block)
    }

    /// Registers a rule that verifies and stores `override_number` before it
    /// grants access: one routine of seven bytes, and one room-list entry for
    /// each access point, all of them pointing at that routine.
    ///
    /// An access point of more than 24 bits is refused as out of range;
    /// otherwise a rule that would take the payload past 65535 bytes is
    /// refused as too large.
    pub fn with_overriding_access(self, access_points: &[u32], override_number: u32) -> (r: Result<
        SingleBlock,
        KeyDataError,
    >)
        requires
            self.wf(),
        ensures
            !all_in_range(access_points@) ==> r == Err::<SingleBlock, KeyDataError>(
                KeyDataError::ValueOutOfRange,
            ),
            all_in_range(access_points@) && self@.with_overriding_access(
                access_points@,
                override_number,
            ).data_size() > MAX_FIELD ==> r == Err::<SingleBlock, KeyDataError>(
                KeyDataError::RecordTooLarge,
            ),
            all_in_range(access_points@) && self@.with_overriding_access(
                access_points@,
                override_number,
            ).data_size() <= MAX_FIELD ==> r.is_ok() && r.unwrap()@
                == self@.with_overriding_access(access_points@, override_number)
                && r.unwrap().wf(),
    {
        let mut routine: Vec<u8> = Vec::new();
        routine.push(TLCode::RuleVerifyAndStoreOverride.to_byte());
        push_be32(&mut routine, override_number);
        routine.push(TLCode::CmdAccess.to_byte());
        routine.push(TLCode::TlsEnd.to_byte());
        assert(routine@ =~= overriding_routine(override_number));
        self.with_rule(access_points, routine)
    }

    /// Registers a rule that grants access at once: one routine of two bytes,
    /// and one room-list entry for each access point, all of them pointing at
    /// that routine.
    ///
    /// An access point of more than 24 bits is refused as out of range;
    /// otherwise a rule that would take the payload past 65535 bytes is
    /// refused as too large.
    pub fn with_non_overriding_access(self, access_points: &[u32]) -> (r: Result<
        SingleBlock,
        KeyDataError,
    >)
        requires
            self.wf(),
        ensures
            !all_in_range(access_points@) ==> r == Err::<SingleBlock, KeyDataError>(
                KeyDataError::ValueOutOfRange,
            ),
            all_in_range(access_points@) && self@.with_non_overriding_access(
                access_points@,
            ).data_size() > MAX_FIELD ==> r == Err::<SingleBlock, KeyDataError>(
                KeyDataError::RecordTooLarge,
            ),
            all_in_range(access_points@) && self@.with_non_overriding_access(
                access_points@,
            ).data_size() <= MAX_FIELD ==> r.is_ok() && r.unwrap()@
                == self@.with_non_overriding_access(access_points@) && r.unwrap().wf(),
    {
        let mut routine: Vec<u8> = Vec::new();
        routine.push(TLCode::CmdAccess.to_byte());
        routine.push(TLCode::TlsEnd.to_byte());
        assert(routine@ =~= plain_routine());
        self.with_rule(access_points, routine)
    }

    /// Appends the routine to the code segment and points one new entry for
    /// each access point at it.
    fn with_rule(self, access_points: &[u32], routine: Vec<u8>) -> (r: Result<
        SingleBlock,
        KeyDataError,
    >)
        requires
            self.wf(),
            is_routine(routine@),
        ensures
            !all_in_range(access_points@) ==> r == Err::<SingleBlock, KeyDataError>(
                KeyDataError::ValueOutOfRange,
            ),
            all_in_range(access_points@) && self@.with_rule(access_points@, routine@).data_size()
                > MAX_FIELD ==> r == Err::<SingleBlock, KeyDataError>(
                KeyDataError::RecordTooLarge,
            ),
            all_in_range(access_points@) && self@.with_rule(access_points@, routine@).data_size()
                <= MAX_FIELD ==> r.is_ok() && r.unwrap()@ == self@.with_rule(
                access_points@,
                routine@,
            ) && r.unwrap().wf(),
    {
        let ghost before = self@;
        let ghost next = before.with_rule(access_points@, routine@);
        let ghost group = group_entries(access_points@, before.code.len() as u16);
        if !access_points_in_range(access_points) {
            return Err(KeyDataError::ValueOutOfRange);
        }
        let count: usize = access_points.len();
        if count > MAX_FIELD {
            return Err(KeyDataError::RecordTooLarge);
        }
        let needed: u64 = self.data_size() as u64 + ENTRY_SIZE as u64 * (count as u64)
            + routine.len() as u64;
        if needed > MAX_FIELD as u64 {
            return Err(KeyDataError::RecordTooLarge);
        }
        let mut block = self;
        let offset: u16 = block.code.append(routine);
        let mut i: usize = 0;
        while i < count
            invariant
                i <= count,
                count == access_points@.len(),
                all_in_range(access_points@),
                group == group_entries(access_points@, offset),
                block.room_list.wf(),
                block.room_list@ == before.entries + group.take(i as int),
                ENTRY_SIZE * (before.entries.len() + count) + 2 <= MAX_FIELD,
                block.code@ == next.code,
                block.header.format() == before.format,
                block.data_header.key_id() == before.key_id,
                block.valid_until == before.valid_until,
            decreases count - i,
        {
            let entry = RoomListEntry { access_point: access_points[i], offset };
            block.room_list.push(entry);
            proof {
                assert(group[i as int] == entry);
                assert(group.take(i + 1) =~= group.take(i as int).push(entry));
                assert(block.room_list@ =~= before.entries + group.take(i + 1));
            }
            i += 1;
        }
        proof {
            assert(group.take(i as int) =~= group);
            assert(block@ == next);
            lemma_with_rule_wf(before, access_points@, routine@);
        }
        Ok(block)
    }

    /// The length of the payload that `to_bytes` writes into the envelope.
    pub fn data_size(&self) -> (n: u16)
        requires
            self.wf(),
        ensures
            n == self@.data_size(),
    {
        self.base_offset() + self.code.size() + 2
    }

    /// Where the code segment begins in the payload.
    pub fn base_offset(&self) -> (n: u16)
        requires
            self.wf(),
        ensures
            n == self@.base_offset(),
    {
        let mut base_offset: u16 = self.data_header.size() + self.room_list.size();
        if self.valid_until > 0 {
            base_offset += 5;
        }
        base_offset
    }

    /// Lays the record out: the envelope with the payload's length, the key
    /// data header, the expiry rule if there is one, the room list with every
    /// target made absolute in the payload, the code segment, and two reserved
    /// zero bytes. The block is left as it was.
    pub fn to_bytes(&self) -> (bytes: Vec<u8>)
        requires
            self.wf(),
        ensures
            bytes@ == self@.serialize(),
            bytes@.len() == self@.data_size() + 4,
    {
        let mut data: Vec<u8> = Vec::new();
        let base_offset: u16 = self.base_offset();
        let data_size: u16 = base_offset + self.code.size() + 2;

        let mut envelope = self.header.to_bytes();
        data.append(&mut envelope);
        push_be16(&mut data, data_size);

        let mut key_data_header = self.data_header.to_bytes();
        data.append(&mut key_data_header);
        if self.valid_until > 0 {
            data.push(TLCode::RuleVerifyValidUntil.to_byte());
            push_be32(&mut data, self.valid_until);
        }
        assert(targets_fit(self@.entries, base_offset as int)) by {
            assert forall|i: int| 0 <= i < self@.entries.len() implies (#[trigger] self@.entries[i]).offset
                + base_offset <= MAX_FIELD by {
                assert(routine_at(self@.code, self@.entries[i].offset as int));
            }
        }
        let mut room_list = self.room_list.encode(base_offset);
        data.append(&mut room_list);
        let mut code = self.code.to_bytes();
        data.append(&mut code);

        data.push(0x00);
        data.push(0x00);
        assert(data@ =~= self@.serialize());
        data
    }

    /// Lays the record out as `to_bytes` does, and fills the two reserved
    /// bytes with what `integrity` computes from all the bytes in front of
    /// them, high byte first.
    pub fn to_bytes_with_integrity<F: Fn(&[u8]) -> u16>(&self, integrity: F) -> (bytes: Vec<u8>)
        requires
            self.wf(),
            forall|body: &[u8]| body@ == self@.unsealed() ==> call_requires(integrity, (body,)),
        ensures
            exists|body: &[u8], field: u16|
                body@ == self@.unsealed() && call_ensures(integrity, (body,), field) && bytes@
                    == self@.sealed(field),
    {
        let mut data = self.to_bytes();
        data.pop();
        data.pop();
        assert(data@ =~= self@.unsealed());
        let body: &[u8] = data.as_slice();
        let field: u16 = integrity(body);
        let ghost witness = body;
        push_be16(&mut data, field);
        assert(witness@ == self@.unsealed() && call_ensures(integrity, (witness,), field) && data@
            == self@.sealed(field));
        data
    }

    /// The record as text: two upper-case hexadecimal digits for each byte,
    /// with one space between bytes.
    pub fn to_hex(&self) -> (text: String)
        requires
            self.wf(),
        ensures
            text@ == hex_text(self@.serialize()),
    {
        let bytes = self.to_bytes();
        to_hex(bytes.as_slice())
    }
}

} // verus!
