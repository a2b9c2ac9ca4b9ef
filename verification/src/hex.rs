//! Bytes written as hexadecimal text.

use vstd::prelude::*;
use vstd::string::*;

verus! {

/// The character for a digit below 16, in lower case.
pub open spec fn hex_char(digit: u8) -> char {
    if digit == 0 {
        '0'
    } else if digit == 1 {
        '1'
    } else if digit == 2 {
        '2'
    } else if digit == 3 {
        '3'
    } else if digit == 4 {
        '4'
    } else if digit == 5 {
        '5'
    } else if digit == 6 {
        '6'
    } else if digit == 7 {
        '7'
    } else if digit == 8 {
        '8'
    } else if digit == 9 {
        '9'
    } else if digit == 10 {
        'a'
    } else if digit == 11 {
        'b'
    } else if digit == 12 {
        'c'
    } else if digit == 13 {
        'd'
    } else if digit == 14 {
        'e'
    } else {
        'f'
    }
}

/// The digit that a character stands for, in either case.
pub open spec fn hex_value(c: char) -> Option<u8> {
    if '0' <= c <= '9' {
        Some((c as u8 - '0' as u8) as u8)
    } else if 'a' <= c <= 'f' {
        Some((c as u8 - 'a' as u8 + 10) as u8)
    } else if 'A' <= c <= 'F' {
        Some((c as u8 - 'A' as u8 + 10) as u8)
    } else {
        None
    }
}

/// The text of a byte string: two digits for each byte, the high one first.
pub open spec fn hex_text(bytes: Seq<u8>) -> Seq<char>
    decreases bytes.len(),
{
    if bytes.len() == 0 {
        Seq::empty()
    } else {
        hex_text(bytes.drop_last()).push(hex_char(bytes.last() / 16)).push(hex_char(bytes.last() % 16))
    }
}

/// The byte string that a text stands for: the text must have an even number
/// of characters, all of them digits.
pub open spec fn hex_bytes(text: Seq<char>) -> Option<Seq<u8>>
    decreases text.len(),
{
    if text.len() == 0 {
        Some(Seq::empty())
    } else if text.len() % 2 == 1 {
        None
    } else {
        match (hex_bytes(text.take(text.len() - 2)), hex_value(text[text.len() - 2]), hex_value(text.last())) {
            (Some(front), Some(high), Some(low)) => Some(front.push((high * 16 + low) as u8)),
            _ => None,
        }
    }
}

/// Reading the text of a byte string gives the byte string back.
pub proof fn lemma_hex_round_trip(bytes: Seq<u8>)
    ensures
        hex_text(bytes).len() == 2 * bytes.len(),
        hex_bytes(hex_text(bytes)) == Some(bytes),
    decreases bytes.len(),
{
    if bytes.len() > 0 {
        let front = bytes.drop_last();
        lemma_hex_round_trip(front);
        let text = hex_text(bytes);
        let high = (bytes.last() / 16) as u8;
        let low = (bytes.last() % 16) as u8;
        assert(text.take(text.len() - 2) =~= hex_text(front));
        assert(text[text.len() - 2] == hex_char(high));
        assert(text.last() == hex_char(low));
        assert(hex_value(hex_char(high)) == Some(high));
        assert(hex_value(hex_char(low)) == Some(low));
        assert(front.push((high * 16 + low) as u8) =~= bytes);
    }
}

/// The digit below 16 as text.
fn digit_text(digit: u8) -> (r: &'static str)
    requires
        digit < 16,
    ensures
        r@ == seq![hex_char(digit)],
{
    proof {
        reveal_strlit("0");
        reveal_strlit("1");
        reveal_strlit("2");
        reveal_strlit("3");
        reveal_strlit("4");
        reveal_strlit("5");
        reveal_strlit("6");
        reveal_strlit("7");
        reveal_strlit("8");
        reveal_strlit("9");
        reveal_strlit("a");
        reveal_strlit("b");
        reveal_strlit("c");
        reveal_strlit("d");
        reveal_strlit("e");
        reveal_strlit("f");
    }
    let r = if digit == 0 {
        "0"
    } else if digit == 1 {
        "1"
    } else if digit == 2 {
        "2"
    } else if digit == 3 {
        "3"
    } else if digit == 4 {
        "4"
    } else if digit == 5 {
        "5"
    } else if digit == 6 {
        "6"
    } else if digit == 7 {
        "7"
    } else if digit == 8 {
        "8"
    } else if digit == 9 {
        "9"
    } else if digit == 10 {
        "a"
    } else if digit == 11 {
        "b"
    } else if digit == 12 {
        "c"
    } else if digit == 13 {
        "d"
    } else if digit == 14 {
        "e"
    } else {
        "f"
    };
    assert(r@ =~= seq![hex_char(digit)]);
    r
}

/// Appends the hexadecimal text of a byte string to a text.
pub fn append_hex(out: &mut String, bytes: &[u8])
    ensures
        final(out)@ == old(out)@ + hex_text(bytes@),
{
    let mut i: usize = 0;
    assert(bytes@.take(0) =~= Seq::<u8>::empty());
    assert(out@ =~= old(out)@ + hex_text(bytes@.take(0)));
    while i < bytes.len()
        invariant
            i <= bytes.len(),
            out@ == old(out)@ + hex_text(bytes@.take(i as int)),
        decreases bytes.len() - i,
    {
        assert(bytes@.take(i + 1).drop_last() =~= bytes@.take(i as int));
        assert(bytes@.take(i + 1).last() == bytes@[i as int]);
        let ghost before = out@;
        let b = bytes[i];
        out.append(digit_text(b / 16));
        out.append(digit_text(b % 16));
        assert(out@ =~= before.push(hex_char(b / 16)).push(hex_char(b % 16)));
        assert(out@ =~= old(out)@ + hex_text(bytes@.take(i + 1)));
        i += 1;
    }
    assert(bytes@.take(bytes.len() as int) =~= bytes@);
}

/// The digit that a character stands for.
fn digit_value(c: char) -> (r: Option<u8>)
    ensures
        r == hex_value(c),
{
    if '0' <= c && c <= '9' {
        Some((c as u32 - '0' as u32) as u8)
    } else if 'a' <= c && c <= 'f' {
        Some((c as u32 - 'a' as u32 + 10) as u8)
    } else if 'A' <= c && c <= 'F' {
        Some((c as u32 - 'A' as u32 + 10) as u8)
    } else {
        None
    }
}

/// Reads the characters of `text` from position `from` on as hexadecimal
/// digits.
pub fn read_hex(text: &str, from: usize) -> (r: Option<Vec<u8>>)
    requires
        from <= text@.len(),
    ensures
        match r {
            Some(bytes) => hex_bytes(text@.skip(from as int)) == Some(bytes@),
            None => hex_bytes(text@.skip(from as int)) is None,
        },
{
    let len = text.unicode_len();
    let ghost digits = text@.skip(from as int);
    if (len - from) % 2 == 1 {
        return None;
    }
    let mut out: Vec<u8> = Vec::new();
    let mut i: usize = from;
    assert(digits.take(0) =~= Seq::<char>::empty());
    while i < len
        invariant
            from <= i <= len,
            len == text@.len(),
            (i - from) % 2 == 0,
            (len - from) % 2 == 0,
            digits == text@.skip(from as int),
            hex_bytes(digits.take(i - from)) == Some(out@),
        decreases len - i,
    {
        let ghost upto = digits.take(i - from + 2);
        assert(upto.take(upto.len() - 2) =~= digits.take(i - from));
        assert(upto[upto.len() - 2] == text@[i as int]);
        assert(upto.last() == text@[i + 1]);
        let high = digit_value(text.get_char(i));
        let low = digit_value(text.get_char(i + 1));
        match (high, low) {
            (Some(h), Some(l)) => {
                out.push(h * 16 + l);
            },
            _ => {
                proof {
                    lemma_hex_bytes_prefix(digits, i - from + 2);
                }
                return None;
            },
        }
        i += 2;
    }
    assert(digits.take(len - from) =~= digits);
    Some(out)
}

/// A text does not stand for a byte string where a part of it from the start
/// of even length does not.
pub proof fn lemma_hex_bytes_prefix(text: Seq<char>, upto: int)
    requires
        0 <= upto <= text.len(),
        upto % 2 == 0,
        text.len() % 2 == 0,
        hex_bytes(text.take(upto)) is None,
    ensures
        hex_bytes(text) is None,
    decreases text.len(),
{
    if upto < text.len() {
        let front = text.take(text.len() - 2);
        assert(front.take(upto) =~= text.take(upto));
        lemma_hex_bytes_prefix(front, upto);
    } else {
        assert(text.take(upto) =~= text);
    }
}

} // verus!
