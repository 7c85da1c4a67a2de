//! The failures that end the process. None of them is recovered from.

use vstd::prelude::*;
use vstd::string::*;
use crate::atlas::FontError;
use crate::glcheck::{error_message, format_error, GraphicsError};
use crate::surface::{ProtocolViolation, SurfaceError};

verus! {

/// The compositor cannot be reached.
#[derive(Debug, Clone, Copy, PartialEq, Eq, Structural)]
pub enum ConnectionError {
    /// No compositor answers where the environment points.
    Unreachable,
}

/// Any failure that ends the process.
#[derive(Debug, Clone, Copy, PartialEq, Eq)]
pub enum Fatal {
    Connection(ConnectionError),
    Protocol(ProtocolViolation),
    Surface(SurfaceError),
    Graphics(GraphicsError),
    Font(FontError),
}

impl Fatal {
    /// What the diagnostic says.
    pub open spec fn message_text(self) -> Seq<char> {
        match self {
            Fatal::Connection(_) => "unable to connect to the wayland server"@,
            Fatal::Protocol(ProtocolViolation::UnexpectedEvent) =>
                "protocol violation: unexpected event"@,
            Fatal::Protocol(ProtocolViolation::MalformedConfigure) =>
                "protocol violation: malformed configure event"@,
            Fatal::Protocol(ProtocolViolation::DuplicateSerial) =>
                "protocol violation: serial received twice"@,
            Fatal::Protocol(ProtocolViolation::UnknownSerial) =>
                "protocol violation: acknowledgment of an unknown serial"@,
            Fatal::Protocol(ProtocolViolation::CommitBeforeAck) =>
                "protocol violation: commit before acknowledgment"@,
            Fatal::Surface(_) => "unable to create a drawable: the size has no area"@,
            Fatal::Graphics(GraphicsError::Gl(code)) => "OpenGL error: "@ + error_message(code),
            Fatal::Graphics(GraphicsError::ShaderCompile) => "shader compilation failed"@,
            Fatal::Font(FontError::Unloadable) => "Could not find font"@,
            Fatal::Font(FontError::Unrenderable) => "Could not render character"@,
        }
    }

    /// The diagnostic with which the process ends.
    pub fn message(&self) -> (text: String)
        ensures
            text@ == self.message_text(),
    {
        match self {
            Fatal::Connection(_) => String::from_str("unable to connect to the wayland server"),
            Fatal::Protocol(ProtocolViolation::UnexpectedEvent) => String::from_str(
                "protocol violation: unexpected event",
            ),
            Fatal::Protocol(ProtocolViolation::MalformedConfigure) => String::from_str(
                "protocol violation: malformed configure event",
            ),
            Fatal::Protocol(ProtocolViolation::DuplicateSerial) => String::from_str(
                "protocol violation: serial received twice",
            ),
            Fatal::Protocol(ProtocolViolation::UnknownSerial) => String::from_str(
                "protocol violation: acknowledgment of an unknown serial",
            ),
            Fatal::Protocol(ProtocolViolation::CommitBeforeAck) => String::from_str(
                "protocol violation: commit before acknowledgment",
            ),
            Fatal::Surface(_) => String::from_str(
                "unable to create a drawable: the size has no area",
            ),
            Fatal::Graphics(GraphicsError::Gl(code)) => {
                let mut text = String::from_str("OpenGL error: ");
                text.append(format_error(*code));
                text
            },
            Fatal::Graphics(GraphicsError::ShaderCompile) => String::from_str(
                "shader compilation failed",
            ),
            Fatal::Font(FontError::Unloadable) => String::from_str("Could not find font"),
            Fatal::Font(FontError::Unrenderable) => String::from_str("Could not render character"),
        }
    }
}

} // verus!
