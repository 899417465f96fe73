use vstd::prelude::*;

use crate::message::OutgoingMessage;
use vstd::arithmetic::power::pow;

verus! {

/// The lower-case hexadecimal digit for `d`.
pub open spec fn hex_char(d: nat) -> char {
    if d < 10 {
        digit_char(d)
    } else if d == 10 {
        'a'
    } else if d == 11 {
        'b'
    } else if d == 12 {
        'c'
    } else if d == 13 {
        'd'
    } else if d == 14 {
        'e'
    } else {
        'f'
    }
}

/// Which of the 32 hex digits the `i`-th character of a hyphenated UUID shows.
pub open spec fn uuid_digit_index(i: int) -> int {
    if i < 8 {
        i
    } else if i < 13 {
        i - 1
    } else if i < 18 {
        i - 2
    } else if i < 23 {
        i - 3
    } else {
        i - 4
    }
}

/// The hyphenated lower-case text of a UUID: the 32 hex digits of its
/// big-endian value, most significant first, with hyphens at 8, 13, 18 and 23.
pub open spec fn uuid_text(id: u128) -> Seq<char> {
    Seq::new(
        36,
        |i: int|
            if i == 8 || i == 13 || i == 18 || i == 23 {
                '-'
            } else {
                hex_char(((id as int / pow(16, (31 - uuid_digit_index(i)) as nat)) % 16) as nat)
            },
    )
}

/// Relies on `uuid::Uuid::from_u128` (big-endian bytes) and its hyphenated
/// formatter (two lower-case hex digits per byte, hyphens after bytes 4, 6,
/// 8 and 10).
#[verifier::external_body]
fn session_id_text(id: u128) -> (r: String)
    ensures
        r@ == uuid_text(id),
{
    uuid::Uuid::from_u128(id).hyphenated().to_string()
}

/// The decimal digit character for `d`.
pub open spec fn digit_char(d: nat) -> char {
    if d == 0 {
        '0'
    } else if d == 1 {
        '1'
    } else if d == 2 {
        '2'
    } else if d == 3 {
        '3'
    } else if d == 4 {
        '4'
    } else if d == 5 {
        '5'
    } else if d == 6 {
        '6'
    } else if d == 7 {
        '7'
    } else if d == 8 {
        '8'
    } else {
        '9'
    }
}

/// The decimal text of `n`, without leading zeros.
pub open spec fn decimal(n: nat) -> Seq<char>
    decreases n,
{
    if n < 10 {
        seq![digit_char(n)]
    } else {
        decimal(n / 10) + seq![digit_char(n % 10)]
    }
}

/// The decimal text of a signed integer, with a leading `-` when negative.
pub open spec fn signed_decimal(i: int) -> Seq<char> {
    if i < 0 {
        seq!['-'] + decimal((-i) as nat)
    } else {
        decimal(i as nat)
    }
}

/// The wire text of an event: one JSON object with a `type` tag and a
/// `payload` object whose members are named in lower camel case. A payload's
/// client identifier is never written: events do not name their origin.
pub open spec fn event_text(e: OutgoingMessage) -> Seq<char> {
    match e {
        OutgoingMessage::RegistrationSuccess(p) => "{\"type\":\"registrationSuccess\",\"payload\":{\"clientId\":\""@
            + uuid_text(p.client_id) + "\"}}"@,
        OutgoingMessage::Play(p) => "{\"type\":\"play\",\"payload\":{\"player\":"@
            + decimal(p.player.0 as nat) + ",\"timestamp\":"@ + signed_decimal(p.timestamp.0 as int)
            + "}}"@,
        OutgoingMessage::Stop(p) => "{\"type\":\"stop\",\"payload\":{\"player\":"@
            + decimal(p.player.0 as nat) + "}}"@,
        OutgoingMessage::FastForward(p) => "{\"type\":\"fastForward\",\"payload\":{\"player\":"@
            + decimal(p.player.0 as nat) + ",\"targetPosition\":"@ + decimal(
            p.target_position.0 as nat,
        ) + ",\"timestamp\":"@ + signed_decimal(p.timestamp.0 as int) + "}}"@,
    }
}

fn digit_str(d: u64) -> (r: &'static str)
    requires
        d < 10,
    ensures
        r@ == seq![digit_char(d as nat)],
{
    proof {
        reveal_strlit("0");
        reveal_strlit("1");
        reveal_strlit("2");
        reveal_strlit("3");
        reveal_strlit("4");
        reveal_strlit("5");
        reveal_strlit("6");
        reveal_strlit("7");
        reveal_strlit("8");
        reveal_strlit("9");
    }
    if d == 0 {
        "0"
    } else if d == 1 {
        "1"
    } else if d == 2 {
        "2"
    } else if d == 3 {
        "3"
    } else if d == 4 {
        "4"
    } else if d == 5 {
        "5"
    } else if d == 6 {
        "6"
    } else if d == 7 {
        "7"
    } else if d == 8 {
        "8"
    } else {
        "9"
    }
}

fn push_decimal(out: &mut String, n: u64)
    ensures
        final(out)@ == old(out)@ + decimal(n as nat),
    decreases n,
{
    if n >= 10 {
        push_decimal(out, n / 10);
    }
    out.append(digit_str(n % 10));
    assert(final(out)@ =~= old(out)@ + decimal(n as nat));
}

fn push_signed_decimal(out: &mut String, i: i64)
    ensures
        final(out)@ == old(out)@ + signed_decimal(i as int),
{
    if i < 0 {
        proof {
            reveal_strlit("-");
        }
        out.append("-");
        let magnitude: u64 = (0i128 - i as i128) as u64;
        push_decimal(out, magnitude);
        assert(final(out)@ =~= old(out)@ + signed_decimal(i as int));
    } else {
        push_decimal(out, i as u64);
    }
}

/// Encodes an event as its wire text. Encoding cannot fail.
pub fn encode(event: &OutgoingMessage) -> (r: String)
    ensures
        r@ == event_text(*event),
{
    let mut out = String::new();
    match event {
        OutgoingMessage::RegistrationSuccess(p) => {
            out.append("{\"type\":\"registrationSuccess\",\"payload\":{\"clientId\":\"");
            let text = session_id_text(p.client_id);
            out.append(text.as_str());
            out.append("\"}}");
        },
        OutgoingMessage::Play(p) => {
            out.append("{\"type\":\"play\",\"payload\":{\"player\":");
            push_decimal(&mut out, p.player.0 as u64);
            out.append(",\"timestamp\":");
            push_signed_decimal(&mut out, p.timestamp.0);
            out.append("}}");
        },
        OutgoingMessage::Stop(p) => {
            out.append("{\"type\":\"stop\",\"payload\":{\"player\":");
            push_decimal(&mut out, p.player.0 as u64);
            out.append("}}");
        },
        OutgoingMessage::FastForward(p) => {
            out.append("{\"type\":\"fastForward\",\"payload\":{\"player\":");
            push_decimal(&mut out, p.player.0 as u64);
            out.append(",\"targetPosition\":");
            push_decimal(&mut out, p.target_position.0 as u64);
            out.append(",\"timestamp\":");
            push_signed_decimal(&mut out, p.timestamp.0);
            out.append("}}");
        },
    }
    assert(out@ =~= event_text(*event));
    out
}

} // verus!
