use vstd::prelude::*;

verus! {

/// `String::push` of the standard library: the string afterwards is the
/// string before with the character at its end.
pub assume_specification[ String::push ](s: &mut String, ch: char)
    ensures
        final(s)@ == old(s)@.push(ch),
;

/// The upper-case hexadecimal digit of a value below sixteen.
pub open spec fn hex_digit(n: int) -> char {
    if n == 0 {
        '0'
    } else if n == 1 {
        '1'
    } else if n == 2 {
        '2'
    } else if n == 3 {
        '3'
    } else if n == 4 {
        '4'
    } else if n == 5 {
        '5'
    } else if n == 6 {
        '6'
    } else if n == 7 {
        '7'
    } else if n == 8 {
        '8'
    } else if n == 9 {
        '9'
    } else if n == 10 {
        'A'
    } else if n == 11 {
        'B'
    } else if n == 12 {
        'C'
    } else if n == 13 {
        'D'
    } else if n == 14 {
        'E'
    } else {
        'F'
    }
}

/// The two digits of a byte, the high one first.
pub open spec fn hex_byte(b: u8) -> Seq<char> {
    seq![hex_digit(b as int / 16), hex_digit(b as int % 16)]
}

/// The bytes as text: two digits for each byte, and one space between one
/// byte and the next.
pub open spec fn hex_text(data: Seq<u8>) -> Seq<char>
    decreases data.len(),
{
    if data.len() == 0 {
        Seq::empty()
    } else if data.len() == 1 {
        hex_byte(data[0])
    } else {
        hex_text(data.drop_last()) + seq![' '] + hex_byte(data.last())
    }
}

/// The text of `n` bytes has `3 * n - 1` characters, and none for no bytes.
pub proof fn lemma_hex_text_len(data: Seq<u8>)
    ensures
        hex_text(data).len() == if data.len() == 0 {
            0
        } else {
            3 * data.len() - 1
        },
    decreases data.len(),
{
    if data.len() > 1 {
        lemma_hex_text_len(data.drop_last());
    }
}

/// Byte `i` of the data stands at `3 * i` of the text, as its high digit and
/// its low digit, and a space follows it unless it is the last byte.
pub proof fn lemma_hex_text_chars(data: Seq<u8>, i: int)
    requires
        0 <= i < data.len(),
    ensures
        hex_text(data).len() == 3 * data.len() - 1,
        hex_text(data)[3 * i] == hex_digit(data[i] as int / 16),
        hex_text(data)[3 * i + 1] == hex_digit(data[i] as int % 16),
        i + 1 < data.len() ==> hex_text(data)[3 * i + 2] == ' ',
    decreases data.len(),
{
    lemma_hex_text_len(data);
    if data.len() > 1 {
        lemma_hex_text_len(data.drop_last());
        if i < data.len() - 1 {
            lemma_hex_text_chars(data.drop_last(), i);
        }
    }
}

/// The digit of a value below sixteen.
fn digit(n: u8) -> (c: char)
    requires
        n < 16,
    ensures
        c == hex_digit(n as int),
{
    match n {
        0 => '0',
        1 => '1',
        2 => '2',
        3 => '3',
        4 => '4',
        5 => '5',
        6 => '6',
        7 => '7',
        8 => '8',
        9 => '9',
        10 => 'A',
        11 => 'B',
        12 => 'C',
        13 => 'D',
        14 => 'E',
        _ => 'F',
    }
}

/// Renders bytes as upper-case hexadecimal, two digits for each byte, with one
/// space between bytes.
pub fn to_hex(data: &[u8]) -> (text: String)
    ensures
        text@ == hex_text(data@),
{
    let mut text = String::new();
    let mut i: usize = 0;
    while i < data.len()
        invariant
            i <= data.len(),
            text@ == hex_text(data@.take(i as int)),
        decreases data.len() - i,
    {
        let b: u8 = data[i];
        let ghost before = text@;
        if i > 0 {
            text.push(' ');
        }
        text.push(digit(b / 16));
        text.push(digit(b % 16));
        proof {
            let next = data@.take(i + 1);
            assert(next.drop_last() =~= data@.take(i as int));
            assert(next.last() == b);
            if i == 0 {
                assert(text@ =~= hex_byte(b));
            } else {
                assert(text@ =~= before + seq![' '] + hex_byte(b));
            }
        }
        i += 1;
    }
    assert(data@.take(i as int) =~= data@);
    text
}

} // verus!
