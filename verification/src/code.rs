use crate::error::KeyDataError;
use vstd::prelude::*;

verus! {

/// The largest size or offset that a 16-bit wire field can hold.
pub const MAX_FIELD: usize = 0xFFFF;

/// An append-only buffer of instruction bytes. Its view is the bytes appended
/// so far, in order.
pub struct Code {
    blocks: Vec<u8>,
}

impl View for Code {
    type V = Seq<u8>;

    closed spec fn view(&self) -> Seq<u8> {
        self.blocks@
    }
}

/// Appending moves nothing. The segment before the append is a prefix of the
/// segment after it, so an offset that was handed out earlier still names the
/// same bytes; the block lies at the offset that the append returns, which is
/// never below an earlier one.
pub proof fn lemma_append_keeps_offsets(before: Seq<u8>, block: Seq<u8>)
    ensures
        before.len() <= (before + block).len(),
        (before + block).subrange(0, before.len() as int) == before,
        (before + block).subrange(before.len() as int, (before + block).len() as int) == block,
{
    assert((before + block).subrange(0, before.len() as int) =~= before);
    assert((before + block).subrange(before.len() as int, (before + block).len() as int)
        =~= block);
}

impl Code {
    /// Every offset into the segment fits a 16-bit field.
    pub open spec fn wf(&self) -> bool {
        self@.len() <= MAX_FIELD
    }

    pub fn new() -> (c: Code)
        ensures
            c@ == Seq::<u8>::empty(),
            c.wf(),
    {
        Code { blocks: Vec::new() }
    }

    /// Appends `block` and returns the offset at which it begins, which is the
    /// length of the segment before the call. A block that would take the
    /// segment past 65535 bytes is refused and the segment stays as it was.
    pub fn add(&mut self, block: Vec<u8>) -> (r: Result<u16, KeyDataError>)
        requires
            old(self).wf(),
        ensures
            final(self).wf(),
            old(self)@.len() + block@.len() <= MAX_FIELD ==> r == Ok::<u16, KeyDataError>(
                old(self)@.len() as u16,
            ) && final(self)@ == old(self)@ + block@,
            old(self)@.len() + block@.len() > MAX_FIELD ==> r == Err::<u16, KeyDataError>(
                KeyDataError::RecordTooLarge,
            ) && final(self)@ == old(self)@,
    {
        if block.len() > MAX_FIELD - self.blocks.len() {
            return Err(KeyDataError::RecordTooLarge);
        }
        Ok(self.append(block))
    }

    /// Appends a block that is known to fit.
    pub(crate) fn append(&mut self, block: Vec<u8>) -> (offset: u16)
        requires
            old(self)@.len() + block@.len() <= MAX_FIELD,
        ensures
            offset == old(self)@.len(),
            final(self)@ == old(self)@ + block@,
            final(self).wf(),
    {
        let offset: u16 = self.blocks.len() as u16;
        let mut block = block;
        self.blocks.append(&mut block);
        offset
    }

    /// The current length of the segment.
    pub fn size(&self) -> (n: u16)
        requires
            self.wf(),
        ensures
            n == self@.len(),
    {
        self.blocks.len() as u16
    }

    /// The contents of the segment, unchanged.
    pub fn to_bytes(&self) -> (bytes: Vec<u8>)
        ensures
            bytes@ == self@,
    {
        self.blocks.clone()
    }
}

} // verus!
