use vstd::prelude::*;

verus! {

/// The two bytes of a 16-bit value, high byte first.
pub open spec fn be16(v: u16) -> Seq<u8> {
    seq![(v / 256) as u8, (v % 256) as u8]
}

/// The three low bytes of a value, high byte first.
pub open spec fn be24(v: u32) -> Seq<u8> {
    seq![((v / 65536) % 256) as u8, ((v / 256) % 256) as u8, (v % 256) as u8]
}

/// The four bytes of a 32-bit value, high byte first.
pub open spec fn be32(v: u32) -> Seq<u8> {
    seq![
        (v / 16777216) as u8,
        ((v / 65536) % 256) as u8,
        ((v / 256) % 256) as u8,
        (v % 256) as u8,
    ]
}

/// The number that a sequence of bytes denotes when read high byte first.
pub open spec fn be_value(bytes: Seq<u8>) -> nat
    decreases bytes.len(),
{
    if bytes.len() == 0 {
        0
    } else {
        be_value(bytes.drop_last()) * 256 + bytes.last() as nat
    }
}

/// Reading the two bytes of `be16(v)` gives `v` back.
pub proof fn lemma_be16_value(v: u16)
    ensures
        be16(v).len() == 2,
        be_value(be16(v)) == v,
{
    let s = be16(v);
    reveal_with_fuel(be_value, 3);
    assert(s.drop_last() =~= seq![(v / 256) as u8]);
    assert(s.drop_last().drop_last() =~= Seq::<u8>::empty());
}

/// Reading the three bytes of `be24(v)` gives `v` back when `v` has 24 bits.
pub proof fn lemma_be24_value(v: u32)
    requires
        v <= 0xFF_FFFF,
    ensures
        be24(v).len() == 3,
        be_value(be24(v)) == v,
{
    let s = be24(v);
    let s2 = seq![((v / 65536) % 256) as u8, ((v / 256) % 256) as u8];
    let s1 = seq![((v / 65536) % 256) as u8];
    reveal_with_fuel(be_value, 4);
    assert(s.drop_last() =~= s2);
    assert(s2.drop_last() =~= s1);
    assert(s1.drop_last() =~= Seq::<u8>::empty());
}

/// Reading the four bytes of `be32(v)` gives `v` back.
pub proof fn lemma_be32_value(v: u32)
    ensures
        be32(v).len() == 4,
        be_value(be32(v)) == v,
{
    let s = be32(v);
    let s3 = seq![(v / 16777216) as u8, ((v / 65536) % 256) as u8, ((v / 256) % 256) as u8];
    let s2 = seq![(v / 16777216) as u8, ((v / 65536) % 256) as u8];
    let s1 = seq![(v / 16777216) as u8];
    reveal_with_fuel(be_value, 5);
    assert(s.drop_last() =~= s3);
    assert(s3.drop_last() =~= s2);
    assert(s2.drop_last() =~= s1);
    assert(s1.drop_last() =~= Seq::<u8>::empty());
}

/// Appends the two bytes of `v`, high byte first.
pub fn push_be16(data: &mut Vec<u8>, v: u16)
    ensures
        final(data)@ == old(data)@ + be16(v),
{
    let hi: u16 = v >> 8;
    let lo: u16 = v & 0xff;
    assert(hi == v / 256 && lo == v % 256 && hi < 256 && lo < 256) by (bit_vector)
        requires
            hi == v >> 8,
            lo == v & 0xff,
    ;
    data.push(hi as u8);
    data.push(lo as u8);
    assert(final(data)@ =~= old(data)@ + be16(v));
}

/// Appends the three low bytes of `v`, high byte first.
pub fn push_be24(data: &mut Vec<u8>, v: u32)
    ensures
        final(data)@ == old(data)@ + be24(v),
{
    let b2: u32 = (v >> 16) & 0xff;
    let b1: u32 = (v >> 8) & 0xff;
    let b0: u32 = v & 0xff;
    assert(b2 == (v / 65536) % 256 && b1 == (v / 256) % 256 && b0 == v % 256 && b2 < 256 && b1
        < 256 && b0 < 256) by (bit_vector)
        requires
            b2 == (v >> 16) & 0xff,
            b1 == (v >> 8) & 0xff,
            b0 == v & 0xff,
    ;
    data.push(b2 as u8);
    data.push(b1 as u8);
    data.push(b0 as u8);
    assert(final(data)@ =~= old(data)@ + be24(v));
}

/// Appends the four bytes of `v`, high byte first.
pub fn push_be32(data: &mut Vec<u8>, v: u32)
    ensures
        final(data)@ == old(data)@ + be32(v),
{
    let b3: u32 = (v >> 24) & 0xff;
    let b2: u32 = (v >> 16) & 0xff;
    let b1: u32 = (v >> 8) & 0xff;
    let b0: u32 = v & 0xff;
    assert(b3 == v / 16777216 && b2 == (v / 65536) % 256 && b1 == (v / 256) % 256 && b0 == v
        % 256 && b3 < 256 && b2 < 256 && b1 < 256 && b0 < 256) by (bit_vector)
        requires
            b3 == (v >> 24) & 0xff,
            b2 == (v >> 16) & 0xff,
            b1 == (v >> 8) & 0xff,
            b0 == v & 0xff,
    ;
    data.push(b3 as u8);
    data.push(b2 as u8);
    data.push(b1 as u8);
    data.push(b0 as u8);
    assert(final(data)@ =~= old(data)@ + be32(v));
}

} // verus!
