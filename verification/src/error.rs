//! Errors raised while decoding binary gateway messages.

use vstd::prelude::*;
use vstd::std_specs::convert::FromSpecImpl;
use vstd::string::StringExecFns;
use crate::addressing::NymNodeRoutingAddressError;
use crate::packet::{ACK_PACKET_SIZE, EXTENDED_PACKET_SIZE, REGULAR_PACKET_SIZE};

verus! {

/// Why a binary message received over the gateway connection was rejected.
/// Each of these rejects one message; none of them ends the connection.
#[derive(Debug, Clone, Copy, PartialEq, Eq, Structural)]
pub enum GatewayRequestsError {
    /// The frame is shorter than an authentication tag.
    TooShortRequest,
    /// The tag does not authenticate the ciphertext under the shared MAC key.
    InvalidMAC,
    /// The plaintext does not start with a well-formed routing address.
    IncorrectlyEncodedAddress,
    /// The packet part has a length that is no known packet size; holds that length.
    RequestOfInvalidSize(usize),
    /// The packet part has a known size but does not parse as a sphinx packet.
    MalformedSphinxPacket,
    /// Decryption broke its own invariant.
    MalformedEncryption,
}

/// The character of a decimal digit.
pub open spec fn digit_char(digit: nat) -> char {
    if digit == 0 {
        '0'
    } else if digit == 1 {
        '1'
    } else if digit == 2 {
        '2'
    } else if digit == 3 {
        '3'
    } else if digit == 4 {
        '4'
    } else if digit == 5 {
        '5'
    } else if digit == 6 {
        '6'
    } else if digit == 7 {
        '7'
    } else if digit == 8 {
        '8'
    } else {
        '9'
    }
}

/// A number written in decimal, without leading zeroes.
pub open spec fn decimal_digits(n: nat) -> Seq<char>
    decreases n,
{
    if n < 10 {
        seq![digit_char(n)]
    } else {
        decimal_digits(n / 10).push(digit_char(n % 10))
    }
}

/// One decimal digit as text.
fn digit_str(digit: usize) -> (text: &'static str)
    requires
        digit < 10,
    ensures
        text@ == seq![digit_char(digit as nat)],
{
    proof {
        reveal_strlit("0");
        reveal_strlit("1");
        reveal_strlit("2");
        reveal_strlit("3");
        reveal_strlit("4");
        reveal_strlit("5");
        reveal_strlit("6");
        reveal_strlit("7");
        reveal_strlit("8");
        reveal_strlit("9");
    }
    let text = if digit == 0 {
        "0"
    } else if digit == 1 {
        "1"
    } else if digit == 2 {
        "2"
    } else if digit == 3 {
        "3"
    } else if digit == 4 {
        "4"
    } else if digit == 5 {
        "5"
    } else if digit == 6 {
        "6"
    } else if digit == 7 {
        "7"
    } else if digit == 8 {
        "8"
    } else {
        "9"
    };
    assert(text@ =~= seq![digit_char(digit as nat)]);
    text
}

/// A number written in decimal.
fn decimal_string(n: usize) -> (text: String)
    ensures
        text@ == decimal_digits(n as nat),
    decreases n,
{
    if n < 10 {
        String::from_str(digit_str(n))
    } else {
        let mut text = decimal_string(n / 10);
        text.append(digit_str(n % 10));
        assert(text@ =~= decimal_digits(n as nat));
        text
    }
}

impl GatewayRequestsError {
    /// What this error says of itself. A request of invalid size names the
    /// size it had and the three sizes it could have had.
    pub open spec fn spec_to_string(self) -> Seq<char> {
        match self {
            GatewayRequestsError::TooShortRequest => "the request is too short"@,
            GatewayRequestsError::InvalidMAC => "provided MAC is invalid"@,
            GatewayRequestsError::IncorrectlyEncodedAddress => "address field was incorrectly encoded"@,
            GatewayRequestsError::RequestOfInvalidSize(actual) => {
                "received request had invalid size. (actual: "@ + decimal_digits(actual as nat)
                    + ", but expected one of: "@ + decimal_digits(ACK_PACKET_SIZE as nat)
                    + " (ACK), "@ + decimal_digits(REGULAR_PACKET_SIZE as nat) + " (REGULAR), "@
                    + decimal_digits(EXTENDED_PACKET_SIZE as nat) + " (EXTENDED))"@
            },
            GatewayRequestsError::MalformedSphinxPacket => "received sphinx packet was malformed"@,
            GatewayRequestsError::MalformedEncryption => "the received encrypted data was malformed"@,
        }
    }

    /// What this error says of itself, for logs and for the peer.
    pub fn to_string(&self) -> (text: String)
        ensures
            text@ == self.spec_to_string(),
    {
        match self {
            GatewayRequestsError::TooShortRequest => String::from_str("the request is too short"),
            GatewayRequestsError::InvalidMAC => String::from_str("provided MAC is invalid"),
            GatewayRequestsError::IncorrectlyEncodedAddress => String::from_str(
                "address field was incorrectly encoded",
            ),
            GatewayRequestsError::RequestOfInvalidSize(actual) => {
                let mut text = String::from_str("received request had invalid size. (actual: ");
                text.append(decimal_string(*actual).as_str());
                text.append(", but expected one of: ");
                text.append(decimal_string(ACK_PACKET_SIZE).as_str());
                text.append(" (ACK), ");
                text.append(decimal_string(REGULAR_PACKET_SIZE).as_str());
                text.append(" (REGULAR), ");
                text.append(decimal_string(EXTENDED_PACKET_SIZE).as_str());
                text.append(" (EXTENDED))");
                text
            },
            GatewayRequestsError::MalformedSphinxPacket => String::from_str(
                "received sphinx packet was malformed",
            ),
            GatewayRequestsError::MalformedEncryption => String::from_str(
                "the received encrypted data was malformed",
            ),
        }
    }
}

impl From<NymNodeRoutingAddressError> for GatewayRequestsError {
    /// Whatever is wrong with an address, the message that holds it is
    /// rejected for an incorrectly encoded address.
    fn from(e: NymNodeRoutingAddressError) -> (error: GatewayRequestsError) {
        GatewayRequestsError::IncorrectlyEncodedAddress
    }
}

impl FromSpecImpl<NymNodeRoutingAddressError> for GatewayRequestsError {
    open spec fn obeys_from_spec() -> bool {
        true
    }

    open spec fn from_spec(e: NymNodeRoutingAddressError) -> GatewayRequestsError {
        GatewayRequestsError::IncorrectlyEncodedAddress
    }
}

} // verus!
