//! Pasting an image: it goes to the selected daemon, while the clipboard stays on
//! this client.

use base64::Engine;
use vstd::prelude::*;

use crate::mode;
use crate::proto::{ClientMessage, PaneId, ServerMessage};
use crate::text;

verus! {

/// Seconds an upload may take.
pub const UPLOAD_TIMEOUT_SECS: u64 = 15;

/// Calls `encode` of the `base64` crate's standard engine: the bytes in the
/// standard alphabet, padded to groups of four characters.
#[verifier::external_body]
fn encode_base64(bytes: &[u8]) -> (r: String)
    ensures
        r@ == mode::base64_text(bytes@),
{
    base64::engine::general_purpose::STANDARD.encode(bytes)
}

/// The request that pastes a PNG into a pane.
pub fn paste_request(pane: PaneId, bytes: &[u8]) -> (r: ClientMessage)
    ensures
        r matches ClientMessage::PasteImage { pane: id, data } && id == pane && data@
            == mode::base64_text(bytes@),
{
    ClientMessage::PasteImage { pane, data: encode_base64(bytes) }
}

/// Where the daemon put an image that was pasted into a pane.
pub fn pasted(reply: ServerMessage, pane: PaneId) -> (r: Result<String, String>)
    ensures
        match reply {
            ServerMessage::ImagePasted { pane: target, path } => if target == pane {
                r == Ok::<String, String>(path)
            } else {
                text::fault(r) == Some("daemon did not acknowledge image paste"@)
            },
            ServerMessage::Error { message } => text::fault(r) == Some(message@),
            _ => text::fault(r) == Some("daemon did not acknowledge image paste"@),
        },
{
    match reply {
        ServerMessage::ImagePasted { pane: target, path } => if target == pane {
            Ok(path)
        } else {
            Err("daemon did not acknowledge image paste".to_owned())
        },
        ServerMessage::Error { message } => Err(message),
        _ => Err("daemon did not acknowledge image paste".to_owned()),
    }
}

/// What came out of the clipboard program: at most `limit` bytes, and at least one.
pub fn clipboard_image(bytes: Vec<u8>, limit: usize, success: bool) -> (r: Result<Vec<u8>, String>)
    ensures
        if bytes@.len() > limit {
            text::fault(r) == Some("clipboard image exceeds 8 MiB"@)
        } else if !success || bytes@.len() == 0 {
            text::fault(r) == Some("clipboard has no PNG image"@)
        } else {
            r == Ok::<Vec<u8>, String>(bytes)
        },
{
    if bytes.len() > limit {
        return Err("clipboard image exceeds 8 MiB".to_owned());
    }
    if !success || bytes.len() == 0 {
        return Err("clipboard has no PNG image".to_owned());
    }
    Ok(bytes)
}

/// What is said when the clipboard program is not there.
pub fn needs_program(program: &str) -> (r: String)
    ensures
        r@ == "image clipboard needs "@ + program@
            + "; install it or use pane paste-image PANE PATH"@,
{
    text::cat3(
        "image clipboard needs ",
        program,
        "; install it or use pane paste-image PANE PATH",
    )
}

/// What the status line says of a paste.
pub fn note(outcome: &Result<String, String>) -> (r: String)
    ensures
        r@ == (match *outcome {
            Ok(_) => " image path pasted · press Enter to send"@,
            Err(error) => " image paste: "@ + error@,
        }),
{
    match outcome {
        Ok(_) => " image path pasted · press Enter to send".to_owned(),
        Err(error) => text::cat(" image paste: ", error.as_str()),
    }
}

/// Image pastes of the interface: one at a time.
#[derive(Debug, Clone, Copy, PartialEq, Eq, Structural)]
pub struct Clipboard {
    pub busy: bool,
}

impl Default for Clipboard {
    fn default() -> (r: Self)
        ensures
            !r.busy,
    {
        Clipboard { busy: false }
    }
}

impl Clipboard {
    /// Whether a paste may begin; from then on none other may, until it ends.
    pub fn start(&mut self) -> (r: bool)
        ensures
            r == !old(self).busy,
            final(self).busy,
    {
        if self.busy {
            return false;
        }
        self.busy = true;
        true
    }

    /// A paste ended.
    pub fn finish(&mut self)
        ensures
            !final(self).busy,
    {
        self.busy = false;
    }
}

} // verus!
