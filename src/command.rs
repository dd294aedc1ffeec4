//! Console command lines: `<id> <TYPE_NAME> <body words...>`.

use crate::packet::{type_code, type_of_name, Packet, PacketError, PacketType, str_to_packet_type};
use vstd::prelude::*;
use vstd::string::StringExecFns;
use vstd::utf8::encode_utf8;

verus! {

/// The words of `s`: its maximal runs of characters that are not Unicode
/// white space, in order.
pub uninterp spec fn whitespace_words(s: Seq<char>) -> Seq<Seq<char>>;

/// Relies on `str::split_whitespace`: the words of the string, in order.
#[verifier::external_body]
fn split_words(s: &str) -> (r: Vec<String>)
    ensures
        r@.len() == whitespace_words(s@).len(),
        forall|i: int| 0 <= i < r@.len() ==> #[trigger] r@[i]@ == whitespace_words(s@)[i],
{
    s.split_whitespace().map(|w| w.to_string()).collect()
}

/// Whether `s` is one or more ASCII decimal digits.
pub open spec fn is_digits(s: Seq<char>) -> bool {
    s.len() > 0 && forall|i: int| 0 <= i < s.len() ==> '0' <= #[trigger] s[i] <= '9'
}

/// The value of a run of decimal digits.
pub open spec fn digits_value(s: Seq<char>) -> int
    decreases s.len(),
{
    if s.len() == 0 {
        0
    } else {
        10 * digits_value(s.drop_last()) + (s.last() as int - '0' as int)
    }
}

/// The integer that `s` writes in decimal: digits with an optional leading
/// `+` or `-`.
pub open spec fn decimal_value(s: Seq<char>) -> Option<int> {
    if s.len() > 0 && s[0] == '-' && is_digits(s.drop_first()) {
        Some(-digits_value(s.drop_first()))
    } else if s.len() > 0 && s[0] == '+' && is_digits(s.drop_first()) {
        Some(digits_value(s.drop_first()))
    } else if is_digits(s) {
        Some(digits_value(s))
    } else {
        None
    }
}

/// The 32-bit integer that `s` writes in decimal, if it is one and fits.
pub open spec fn decimal_i32(s: Seq<char>) -> Option<i32> {
    match decimal_value(s) {
        Some(v) => if i32::MIN <= v <= i32::MAX {
            Some(v as i32)
        } else {
            None
        },
        None => None,
    }
}

/// Relies on `i32`'s `str::parse`: an optional sign and one or more decimal
/// digits whose value fits, nothing else.
#[verifier::external_body]
fn parse_i32(s: &str) -> (r: Option<i32>)
    ensures
        r == decimal_i32(s@),
{
    s.parse::<i32>().ok()
}

/// The words joined with one space between each two.
pub open spec fn join_words(ws: Seq<Seq<char>>) -> Seq<char>
    decreases ws.len(),
{
    if ws.len() == 0 {
        Seq::empty()
    } else if ws.len() == 1 {
        ws[0]
    } else {
        join_words(ws.drop_last()) + seq![' '] + ws.last()
    }
}

/// The fields of one command line.
#[derive(Debug)]
pub struct Command {
    pub id: i32,
    pub packet_type: PacketType,
    pub body: String,
}

/// What a command line holds, or why it holds no command: a missing or
/// malformed id or a missing type name is `MalformedInput`, an unknown type
/// name `UnrecognizedPacketType`.
pub open spec fn command_of(line: Seq<char>) -> Result<(i32, PacketType, Seq<char>), PacketError> {
    let ws = whitespace_words(line);
    if ws.len() == 0 || decimal_i32(ws[0]) is None || ws.len() == 1 {
        Err(PacketError::MalformedInput)
    } else if type_of_name(ws[1]) is None {
        Err(PacketError::UnrecognizedPacketType)
    } else {
        Ok((decimal_i32(ws[0])->0, type_of_name(ws[1])->0, join_words(ws.subrange(2, ws.len() as int))))
    }
}

/// Splits a command line into its id, packet type and body. The words after
/// the type name make the body, joined with single spaces.
pub fn parse_command(line: &str) -> (r: Result<Command, PacketError>)
    ensures
        match command_of(line@) {
            Ok((id, t, body)) => r matches Ok(c) && c.id == id && c.packet_type == t && c.body@ == body,
            Err(e) => r matches Err(x) && x == e,
        },
{
    let words = split_words(line);
    let ghost ws = whitespace_words(line@);
    if words.len() == 0 {
        return Err(PacketError::MalformedInput);
    }
    let id = match parse_i32(words[0].as_str()) {
        Some(v) => v,
        None => return Err(PacketError::MalformedInput),
    };
    if words.len() == 1 {
        return Err(PacketError::MalformedInput);
    }
    let packet_type = match str_to_packet_type(words[1].as_str()) {
        Ok(t) => t,
        Err(e) => return Err(e),
    };
    let mut body = String::new();
    let mut i: usize = 2;
    proof {
        assert(ws.subrange(2, 2) =~= Seq::<Seq<char>>::empty());
    }
    while i < words.len()
        invariant
            2 <= i <= words@.len(),
            words@.len() == ws.len(),
            forall|k: int| 0 <= k < words@.len() ==> #[trigger] words@[k]@ == ws[k],
            body@ == join_words(ws.subrange(2, i as int)),
        decreases words@.len() - i,
    {
        let ghost before = ws.subrange(2, i as int);
        proof {
            reveal_strlit(" ");
        }
        if i > 2 {
            body.append(" ");
        }
        body.append(words[i].as_str());
        proof {
            let after = ws.subrange(2, i + 1);
            assert(after.drop_last() =~= before);
            assert(after.last() == ws[i as int]);
            if i == 2 {
                assert(after.len() == 1);
                assert(body@ =~= after[0]);
            } else {
                assert(body@ =~= join_words(before) + seq![' '] + ws[i as int]);
            }
        }
        i = i + 1;
    }
    Ok(Command { id, packet_type, body })
}

/// The frame of the packet that a command line asks for: the line's error,
/// or `BodyTooLarge` when the body is over 4096 bytes.
pub fn command_frame(line: &str) -> (r: Result<Vec<u8>, PacketError>)
    ensures
        match command_of(line@) {
            Ok((id, t, body)) => if encode_utf8(body).len() > 4096 {
                r matches Err(e) && e == PacketError::BodyTooLarge
            } else {
                r matches Ok(v) && v@ == crate::packet::frame(
                    (encode_utf8(body).len() + 10) as u32,
                    id,
                    type_code(t),
                    encode_utf8(body),
                )
            },
            Err(e) => r matches Err(x) && x == e,
        },
{
    let c = match parse_command(line) {
        Ok(c) => c,
        Err(e) => return Err(e),
    };
    let p = match Packet::new(c.packet_type, c.id, c.body) {
        Ok(p) => p,
        Err(e) => return Err(e),
    };
    Packet::to_bytes(p)
}

} // verus!
