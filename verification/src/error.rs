//! Why a connection could not be opened.

use vstd::prelude::*;

use crate::addr::SocketAddr;

verus! {

/// What stood in the way of a connection.
#[derive(Debug)]
pub enum FailureCause {
    /// A key has the wrong length, or a packet is not sealed under the expected key.
    InvalidSymmetricKey,
    /// The listener stopped handing on packets.
    ConnectionClose,
    /// The remote did not answer in as many attempts as there are.
    MaxAttemptsReached,
    /// The remote speaks the protocol in another version.
    DifferentProtocolVersion { protoc: [u8; 2] },
    /// The listener gave the request up without an answer.
    FailedToEstablish,
    /// The remote refused, and said why.
    Remote(String),
}

/// Why a connection could not be opened. `E` is what the work around the handshakes fails with:
/// encoding and decoding messages, asymmetric decryption, the socket.
#[derive(Debug)]
pub enum TransportError<E> {
    /// The other end of a channel is gone.
    ChannelClosed,
    /// The handshake failed.
    ConnectionEstablishmentFailure { cause: FailureCause },
    /// The listener stopped handing on packets of this remote.
    ConnectionClosed(SocketAddr),
    /// Work around the handshake failed.
    Other(E),
}

/// The text that `String::from_utf8_lossy` makes of some bytes.
pub uninterp spec fn utf8_lossy(bytes: Seq<u8>) -> Seq<char>;

/// The text that `str`'s `Debug` makes of some text.
pub uninterp spec fn debug_quoted(text: Seq<char>) -> Seq<char>;

/// Calls `String::from_utf8_lossy`, which takes valid UTF-8 for the text it encodes.
#[verifier::external_body]
fn string_from_utf8_lossy(bytes: &[u8]) -> (text: String)
    ensures
        text@ == utf8_lossy(bytes@),
        vstd::utf8::valid_utf8(bytes@) ==> text@ == vstd::utf8::decode_utf8(bytes@),
{
    String::from_utf8_lossy(bytes).into_owned()
}

/// Formats a text with its `Debug`.
#[verifier::external_body]
fn format_debug(text: &str) -> (quoted: String)
    ensures
        quoted@ == debug_quoted(text@),
{
    format!("{:?}", text)
}

impl FailureCause {
    /// The cause in words.
    pub open spec fn spec_text(self) -> Seq<char> {
        match self {
            FailureCause::InvalidSymmetricKey => "invalid symmetric key"@,
            FailureCause::ConnectionClose => "connection close"@,
            FailureCause::MaxAttemptsReached => "max connection attempts reached"@,
            FailureCause::DifferentProtocolVersion { protoc } =>
                "remote is using a different protocol version: "@ + debug_quoted(
                    utf8_lossy(protoc@),
                ),
            FailureCause::FailedToEstablish => "Failed to establish connection"@,
            FailureCause::Remote(text) => text@,
        }
    }

    /// The cause in words.
    pub fn text(&self) -> (text: String)
        ensures
            text@ == self.spec_text(),
    {
        match self {
            FailureCause::InvalidSymmetricKey => "invalid symmetric key".to_owned(),
            FailureCause::ConnectionClose => "connection close".to_owned(),
            FailureCause::MaxAttemptsReached => "max connection attempts reached".to_owned(),
            FailureCause::DifferentProtocolVersion { protoc } => {
                let mut text = "remote is using a different protocol version: ".to_owned();
                text.append(format_debug(string_from_utf8_lossy(protoc).as_str()).as_str());
                text
            },
            FailureCause::FailedToEstablish => "Failed to establish connection".to_owned(),
            FailureCause::Remote(text) => text.clone(),
        }
    }
}

/// Each cause has its words, and the words of a remote are passed on as they came.
pub proof fn causes_are_worded(text: String, protoc: [u8; 2])
    ensures
        FailureCause::InvalidSymmetricKey.spec_text() == "invalid symmetric key"@,
        FailureCause::ConnectionClose.spec_text() == "connection close"@,
        FailureCause::MaxAttemptsReached.spec_text() == "max connection attempts reached"@,
        FailureCause::FailedToEstablish.spec_text() == "Failed to establish connection"@,
        FailureCause::Remote(text).spec_text() == text@,
        (FailureCause::DifferentProtocolVersion { protoc }).spec_text()
            == "remote is using a different protocol version: "@ + debug_quoted(
            utf8_lossy(protoc@),
        ),
{
}

/// The words that are given for a cause are those words.
pub proof fn words_are_given_for_causes(cause: FailureCause, text: String)
    requires
        call_ensures(FailureCause::text, (&cause,), text),
    ensures
        text@ == match cause {
            FailureCause::InvalidSymmetricKey => "invalid symmetric key"@,
            FailureCause::ConnectionClose => "connection close"@,
            FailureCause::MaxAttemptsReached => "max connection attempts reached"@,
            FailureCause::DifferentProtocolVersion { protoc } =>
                "remote is using a different protocol version: "@ + debug_quoted(
                    utf8_lossy(protoc@),
                ),
            FailureCause::FailedToEstablish => "Failed to establish connection"@,
            FailureCause::Remote(words) => words@,
        },
{
}

} // verus!
