//! What holds of every record: where each section lies, that every jump
//! target points at the routine it was registered with, and what an expiry
//! changes.

use crate::code::MAX_FIELD;
use crate::encoding::{be16, be32, be_value, lemma_be16_value};
use crate::header::{envelope_bytes, key_data_header_bytes};
use crate::opcode::TLCode;
use crate::room_list::{
    entry_bytes, lemma_entry_position, lemma_entry_target, lemma_room_list_bytes_len,
    room_list_bytes, target, ENTRY_SIZE,
};
use crate::single_block::{
    all_in_range, is_routine, lemma_with_rule_wf, overriding_routine, routine_at, SingleBlock,
    SingleBlockView,
};
use vstd::prelude::*;

verus! {

/// The number of bytes of the envelope, in front of the payload.
pub const ENVELOPE_SIZE: usize = 4;

/// Where the two-byte target of entry `i` lies in the payload.
pub open spec fn target_field(m: SingleBlockView, i: int) -> int {
    m.room_list_start() + ENTRY_SIZE * i + 4
}

/// The target of entry `i` as the payload holds it, read high byte first.
pub open spec fn decoded_target(m: SingleBlockView, i: int) -> int {
    be_value(m.payload().subrange(target_field(m, i), target_field(m, i) + 2)) as int
}

/// The sections of a record lie one behind the other: envelope marker,
/// payload length, key data header, expiry rule, room list, code segment and
/// two reserved zero bytes.
pub proof fn lemma_layout(m: SingleBlockView)
    requires
        m.wf(),
    ensures
        m.serialize().len() == ENVELOPE_SIZE + m.data_size(),
        m.serialize().subrange(0, 2) == envelope_bytes(m.format),
        be_value(m.serialize().subrange(2, 4)) == m.data_size(),
        m.serialize().subrange(ENVELOPE_SIZE as int, ENVELOPE_SIZE + m.data_size()) == m.payload(),
        m.payload().len() == m.data_size(),
        m.payload().subrange(0, 6) == key_data_header_bytes(m.key_id),
        m.payload().subrange(6, m.room_list_start()) == m.expiry_bytes(),
        m.payload().subrange(m.room_list_start(), m.base_offset()) == room_list_bytes(
            m.entries,
            m.base_offset(),
        ),
        m.payload().subrange(m.base_offset(), m.base_offset() + m.code.len()) == m.code,
        m.payload().subrange(m.data_size() - 2, m.data_size()) == seq![0u8, 0u8],
{
    let p = m.payload();
    let s = m.serialize();
    lemma_room_list_bytes_len(m.entries, m.base_offset());
    lemma_be16_value(m.data_size() as u16);
    assert(p.len() == m.data_size());
    assert(s.subrange(0, 2) =~= envelope_bytes(m.format));
    assert(s.subrange(2, 4) =~= be16(m.data_size() as u16));
    assert(s.subrange(ENVELOPE_SIZE as int, ENVELOPE_SIZE + m.data_size()) =~= p);
    assert(p.subrange(0, 6) =~= key_data_header_bytes(m.key_id));
    assert(p.subrange(6, m.room_list_start()) =~= m.expiry_bytes());
    assert(p.subrange(m.room_list_start(), m.base_offset()) =~= room_list_bytes(
        m.entries,
        m.base_offset(),
    ));
    assert(p.subrange(m.base_offset(), m.base_offset() + m.code.len()) =~= m.code);
    assert(p.subrange(m.data_size() - 2, m.data_size()) =~= seq![0u8, 0u8]);
}

/// The six bytes of entry `i` in the payload are its conditional jump, and
/// its target field reads as the entry's offset plus the base offset.
pub proof fn lemma_entry_in_payload(m: SingleBlockView, i: int)
    requires
        m.wf(),
        0 <= i < m.entries.len(),
    ensures
        target_field(m, i) + 2 <= m.base_offset(),
        m.payload().subrange(
            m.room_list_start() + ENTRY_SIZE * i,
            m.room_list_start() + ENTRY_SIZE * i + ENTRY_SIZE,
        ) == entry_bytes(m.entries[i], m.base_offset()),
        decoded_target(m, i) == target(m.entries[i], m.base_offset()),
        decoded_target(m, i) + 2 <= m.base_offset() + m.code.len(),
{
    let p = m.payload();
    let start = m.room_list_start();
    let list = room_list_bytes(m.entries, m.base_offset());
    let e = entry_bytes(m.entries[i], m.base_offset());
    lemma_layout(m);
    lemma_room_list_bytes_len(m.entries, m.base_offset());
    lemma_entry_position(m.entries, m.base_offset(), i);
    assert(routine_at(m.code, m.entries[i].offset as int));
    lemma_entry_target(m.entries[i], m.base_offset());
    assert(p.subrange(start + ENTRY_SIZE * i, start + ENTRY_SIZE * i + ENTRY_SIZE)
        =~= p.subrange(start, m.base_offset()).subrange(
        ENTRY_SIZE * i,
        ENTRY_SIZE * i + ENTRY_SIZE,
    ));
    assert(p.subrange(target_field(m, i), target_field(m, i) + 2) =~= e.subrange(4, 6));
}

/// Every jump target, taken as an index into the payload, points at the
/// first byte of a routine, and the bytes from there on are those of the
/// code segment from the entry's offset on. In the whole record the payload
/// lies behind the four bytes of the envelope.
pub proof fn lemma_target_points_at_routine(m: SingleBlockView, i: int)
    requires
        m.wf(),
        0 <= i < m.entries.len(),
    ensures
        decoded_target(m, i) == m.base_offset() + m.entries[i].offset,
        routine_at(m.payload(), decoded_target(m, i)),
        forall|j: int|
            0 <= j < m.code.len() - m.entries[i].offset ==> #[trigger] m.payload()[decoded_target(
                m,
                i,
            ) + j] == m.code[m.entries[i].offset + j],
        forall|j: int|
            0 <= j < m.code.len() - m.entries[i].offset ==> #[trigger] m.serialize()[ENVELOPE_SIZE
                + decoded_target(m, i) + j] == m.code[m.entries[i].offset + j],
{
    let p = m.payload();
    let t = decoded_target(m, i);
    let at = m.entries[i].offset as int;
    lemma_layout(m);
    lemma_entry_in_payload(m, i);
    assert(routine_at(m.code, at));
    assert forall|j: int| 0 <= j < m.code.len() - at implies #[trigger] p[t + j] == m.code[at
        + j] by {
        assert(p.subrange(m.base_offset(), m.base_offset() + m.code.len())[at + j] == p[t + j]);
    }
    assert forall|j: int| 0 <= j < m.code.len() - at implies #[trigger] m.serialize()[ENVELOPE_SIZE
        + t + j] == m.code[at + j] by {
        assert(m.serialize().subrange(ENVELOPE_SIZE as int, ENVELOPE_SIZE + m.data_size())[t + j]
            == m.serialize()[ENVELOPE_SIZE + t + j]);
        assert(p[t + j] == m.code[at + j]);
    }
    assert(p[t] == m.code[at + 0]);
    assert(p[t + 1] == m.code[at + 1]);
    if at + 7 <= m.code.len() {
        assert(p[t + 5] == m.code[at + 5]);
        assert(p[t + 6] == m.code[at + 6]);
    }
}

/// Once a rule is registered, the entry of each of its access points jumps
/// to the rule's own routine: the payload holds the routine's bytes at the
/// entry's target.
pub proof fn lemma_registered_rule_is_target(
    m: SingleBlockView,
    access_points: Seq<u32>,
    routine: Seq<u8>,
    k: int,
)
    requires
        m.wf(),
        is_routine(routine),
        all_in_range(access_points),
        m.with_rule(access_points, routine).data_size() <= MAX_FIELD,
        0 <= k < access_points.len(),
    ensures
        ({
            let next = m.with_rule(access_points, routine);
            let i = m.entries.len() + k;
            &&& next.wf()
            &&& next.entries[i].access_point == access_points[k]
            &&& next.payload().subrange(
                decoded_target(next, i),
                decoded_target(next, i) + routine.len(),
            ) == routine
        }),
{
    let next = m.with_rule(access_points, routine);
    let i = m.entries.len() + k;
    lemma_with_rule_wf(m, access_points, routine);
    lemma_layout(next);
    lemma_target_points_at_routine(next, i);
    let t = decoded_target(next, i);
    assert(next.entries[i].offset == m.code.len());
    assert forall|j: int| 0 <= j < routine.len() implies next.payload().subrange(
        t,
        t + routine.len(),
    )[j] == routine[j] by {
        assert(next.payload()[t + j] == next.code[m.code.len() + j]);
    }
    assert(next.payload().subrange(t, t + routine.len()) =~= routine);
}

/// The entries of one overriding rule all carry the same target: the group
/// shares one routine.
pub proof fn lemma_override_group_shares_target(
    m: SingleBlockView,
    access_points: Seq<u32>,
    override_number: u32,
    j: int,
    k: int,
)
    requires
        m.wf(),
        all_in_range(access_points),
        m.with_overriding_access(access_points, override_number).data_size() <= MAX_FIELD,
        0 <= j < access_points.len(),
        0 <= k < access_points.len(),
    ensures
        ({
            let next = m.with_overriding_access(access_points, override_number);
            decoded_target(next, m.entries.len() + j) == decoded_target(next, m.entries.len() + k)
        }),
{
    let next = m.with_overriding_access(access_points, override_number);
    lemma_with_rule_wf(m, access_points, overriding_routine(override_number));
    lemma_entry_in_payload(next, m.entries.len() + j);
    lemma_entry_in_payload(next, m.entries.len() + k);
}

/// An expiry of zero on a block that has none changes nothing: the record is
/// byte for byte the same.
pub proof fn lemma_zero_expiry_is_none(m: SingleBlockView)
    requires
        !m.has_expiry(),
    ensures
        m.with_valid_until(0) == m,
        m.with_valid_until(0).serialize() == m.serialize(),
{
}

/// An expiry other than zero on a block that has none makes the record five
/// bytes longer: the rule stands right behind the key data header, every
/// jump target grows by five, and the code segment and the reserved bytes
/// follow unchanged.
pub proof fn lemma_expiry_shifts_targets(m: SingleBlockView, time: u32)
    requires
        m.wf(),
        !m.has_expiry(),
        time != 0,
        m.with_valid_until(time).data_size() <= MAX_FIELD,
    ensures
        ({
            let e = m.with_valid_until(time);
            &&& e.wf()
            &&& e.serialize().len() == m.serialize().len() + 5
            &&& e.data_size() == m.data_size() + 5
            &&& e.payload().subrange(0, 6) == m.payload().subrange(0, 6)
            &&& e.payload().subrange(6, 11) == seq![TLCode::RuleVerifyValidUntil.byte()] + be32(
                time,
            )
            &&& e.room_list_start() == m.room_list_start() + 5
            &&& e.base_offset() == m.base_offset() + 5
            &&& forall|i: int|
                0 <= i < m.entries.len() ==> #[trigger] decoded_target(e, i) == decoded_target(m, i)
                    + 5
            &&& e.payload().subrange(e.base_offset(), e.data_size()) == m.payload().subrange(
                m.base_offset(),
                m.data_size(),
            )
        }),
{
    let e = m.with_valid_until(time);
    lemma_layout(m);
    lemma_layout(e);
    assert forall|i: int| 0 <= i < m.entries.len() implies #[trigger] decoded_target(e, i)
        == decoded_target(m, i) + 5 by {
        lemma_entry_in_payload(m, i);
        lemma_entry_in_payload(e, i);
    }
    assert(e.payload().subrange(e.base_offset(), e.data_size()) =~= m.payload().subrange(
        m.base_offset(),
        m.data_size(),
    ));
}

/// A record sealed with an integrity field of zero is the record with its
/// reserved bytes, and a sealed record differs from it in the last two
/// bytes at most.
pub proof fn lemma_sealed(m: SingleBlockView, field: u16)
    requires
        m.wf(),
    ensures
        m.sealed(0) == m.serialize(),
        m.sealed(field).len() == m.serialize().len(),
        m.sealed(field).subrange(0, m.serialize().len() - 2) == m.unsealed(),
        be_value(m.sealed(field).subrange(m.serialize().len() - 2, m.serialize().len() as int))
            == field,
{
    lemma_layout(m);
    lemma_be16_value(field);
    assert(be16(0) =~= seq![0u8, 0u8]);
    assert(m.sealed(0) =~= m.serialize());
    assert(m.sealed(field).subrange(0, m.serialize().len() - 2) =~= m.unsealed());
    assert(m.sealed(field).subrange(m.serialize().len() - 2, m.serialize().len() as int)
        =~= be16(field));
}

/// Whatever two calls of `to_bytes` on one block return, they return the
/// same bytes.
pub proof fn lemma_to_bytes_idempotent(block: &SingleBlock, first: Vec<u8>, second: Vec<u8>)
    requires
        block.wf(),
        call_ensures(SingleBlock::to_bytes, (block,), first),
        call_ensures(SingleBlock::to_bytes, (block,), second),
    ensures
        first@ == second@,
        first@ == block@.serialize(),
{
}

} // verus!
