//! The Firecracker tunnel handshake: the request that asks the host socket for
//! a guest port, and the reading of its answer.

use vstd::prelude::*;
use vstd::string::{StrSliceExecFns, StringExecFns};

use crate::decimal::decimal_spec;

verus! {

/// The decimal text of a number, as characters.
pub open spec fn decimal_chars(n: nat) -> Seq<char> {
    decimal_spec(n).map_values(|b: u8| b as char)
}

/// The request `CONNECT <guest port>\n`.
pub open spec fn connect_request(guest_port: u32) -> Seq<char> {
    "CONNECT "@ + decimal_chars(guest_port as nat) + "\n"@
}

/// True when a response line starts with `OK`.
pub open spec fn accepts_tunnel(line: Seq<char>) -> bool {
    line.len() >= 2 && line[0] == 'O' && line[1] == 'K'
}

/// A line is accepted exactly when it has `OK` as its first two characters.
pub proof fn lemma_accepts_tunnel_prefix(line: Seq<char>)
    ensures
        accepts_tunnel(line) <==> line.len() >= 2 && line.subrange(0, 2) == seq!['O', 'K'],
{
    if line.len() >= 2 && line[0] == 'O' && line[1] == 'K' {
        assert(line.subrange(0, 2) =~= seq!['O', 'K']);
    }
    if line.len() >= 2 && line.subrange(0, 2) == seq!['O', 'K'] {
        assert(line[0] == line.subrange(0, 2)[0]);
        assert(line[1] == line.subrange(0, 2)[1]);
    }
}

/// The text of one decimal digit.
fn digit_str(d: u32) -> (text: &'static str)
    requires
        d < 10,
    ensures
        text@ == seq![(0x30 + d) as u8 as char],
{
    match d {
        0 => { proof { reveal_strlit("0"); } "0" },
        1 => { proof { reveal_strlit("1"); } "1" },
        2 => { proof { reveal_strlit("2"); } "2" },
        3 => { proof { reveal_strlit("3"); } "3" },
        4 => { proof { reveal_strlit("4"); } "4" },
        5 => { proof { reveal_strlit("5"); } "5" },
        6 => { proof { reveal_strlit("6"); } "6" },
        7 => { proof { reveal_strlit("7"); } "7" },
        8 => { proof { reveal_strlit("8"); } "8" },
        _ => { proof { reveal_strlit("9"); } "9" },
    }
}

/// Appends the decimal text of `n`.
fn append_decimal(n: u32, out: &mut String)
    ensures
        final(out)@ == old(out)@ + decimal_chars(n as nat),
    decreases n,
{
    if n >= 10 {
        append_decimal(n / 10, out);
    }
    out.append(digit_str(n % 10));
    proof {
        if n >= 10 {
            assert(decimal_spec(n as nat) == decimal_spec((n / 10) as nat).push((0x30 + n % 10) as u8));
            assert(decimal_chars(n as nat) =~= decimal_chars((n / 10) as nat) + seq![(0x30 + n % 10) as u8 as char]);
        } else {
            assert(decimal_chars(n as nat) =~= seq![(0x30 + n % 10) as u8 as char]);
        }
    }
}

/// The request that asks a Firecracker host socket for a tunnel to a guest port.
pub fn format_request(guest_port: u32) -> (request: String)
    ensures
        request@ == connect_request(guest_port),
        request@ == "CONNECT "@ + decimal_spec(guest_port as nat).map_values(|b: u8| b as char) + "\n"@,
{
    let mut request = String::new();
    request.append("CONNECT ");
    append_decimal(guest_port, &mut request);
    request.append("\n");
    assert(request@ =~= connect_request(guest_port));
    request
}

/// The request is `CONNECT `, the decimal digits of the guest port and a line
/// end, whatever the port.
pub proof fn lemma_connect_request_line(guest_port: u32)
    ensures
        connect_request(guest_port) == "CONNECT "@ + decimal_spec(guest_port as nat).map_values(|b: u8| b as char) + "\n"@,
        connect_request(guest_port).last() == '\n',
{
    reveal_strlit("\n");
    assert(connect_request(guest_port) =~= "CONNECT "@ + decimal_spec(guest_port as nat).map_values(|b: u8| b as char) + "\n"@);
}

/// Why a Firecracker tunnel was not established.
#[derive(Debug, Clone, Copy, PartialEq, Eq, Structural)]
pub enum TunnelError {
    /// The host answered with something other than `OK` (a refused connection).
    Refused,
    /// No answer could be read (an invalid input).
    NoResponse,
}

impl TunnelError {
    /// The message of this error.
    pub fn message(&self) -> (message: &'static str)
        ensures
            message@ == (match *self {
                TunnelError::Refused => "Firecracker refused to establish a tunnel to the given guest port"@,
                TunnelError::NoResponse => "Could not read Firecracker response"@,
            }),
    {
        match self {
            TunnelError::Refused => "Firecracker refused to establish a tunnel to the given guest port",
            TunnelError::NoResponse => "Could not read Firecracker response",
        }
    }
}

/// Reads the host's answer to the request: the stream is handed back when the
/// first line starts with `OK`; any other line is a refusal, and a missing or
/// unreadable line is no response.
pub fn parse_connection_response<S, E>(stream: S, response: Result<Option<String>, E>) -> (outcome: Result<S, TunnelError>)
    ensures
        match response {
            Ok(Some(line)) => if accepts_tunnel(line@) {
                outcome == Ok::<S, TunnelError>(stream)
            } else {
                outcome == Err::<S, TunnelError>(TunnelError::Refused)
            },
            _ => outcome == Err::<S, TunnelError>(TunnelError::NoResponse),
        },
        outcome is Ok <==> (response matches Ok(Some(line)) && line@.len() >= 2 && line@[0] == 'O' && line@[1] == 'K'),
        outcome is Ok ==> outcome == Ok::<S, TunnelError>(stream),
{
    match response {
        Ok(Some(line)) => {
            let text = line.as_str();
            if text.unicode_len() >= 2 && text.get_char(0) == 'O' && text.get_char(1) == 'K' {
                Ok(stream)
            } else {
                Err(TunnelError::Refused)
            }
        },
        _ => Err(TunnelError::NoResponse),
    }
}

} // verus!
