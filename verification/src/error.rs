//! Conversion errors and their messages.

use vstd::prelude::*;

use crate::format::{spec_display_name, Format};

verus! {

/// Why a conversion did not happen.
#[derive(Debug, PartialEq, Eq)]
pub enum ConversionError {
    /// An I/O failure, with the operating system's message.
    Io { message: String },
    UnknownFormat { path: String },
    Unsupported { from: Format, to: Format },
    OutputExists { path: String },
    ToolNotFound { tool: String, hint: String },
    ToolFailed { tool: String, message: String },
    /// An image decoding or encoding failure, with the codec's message.
    Image { message: String },
}

/// The message shown for an error.
pub open spec fn spec_message(e: ConversionError) -> Seq<char> {
    match e {
        ConversionError::Io { message } => message@,
        ConversionError::UnknownFormat { path } => "could not determine the format of "@ + path@,
        ConversionError::Unsupported { from, to } => "no converter available for "@
            + spec_display_name(from) + " to "@ + spec_display_name(to),
        ConversionError::OutputExists { path } => "output already exists: "@ + path@,
        ConversionError::ToolNotFound { tool, hint } => tool@
            + " is required for this conversion but was not found; "@ + hint@,
        ConversionError::ToolFailed { tool, message } => tool@ + " failed: "@ + message@,
        ConversionError::Image { message } => message@,
    }
}

impl ConversionError {
    /// The human-readable message for this error.
    pub fn message(&self) -> (m: String)
        ensures
            m@ == spec_message(*self),
    {
        let mut m = String::new();
        match self {
            ConversionError::Io { message } => {
                m.append(message.as_str());
            },
            ConversionError::UnknownFormat { path } => {
                m.append("could not determine the format of ");
                m.append(path.as_str());
            },
            ConversionError::Unsupported { from, to } => {
                m.append("no converter available for ");
                m.append(from.display_name());
                m.append(" to ");
                m.append(to.display_name());
            },
            ConversionError::OutputExists { path } => {
                m.append("output already exists: ");
                m.append(path.as_str());
            },
            ConversionError::ToolNotFound { tool, hint } => {
                m.append(tool.as_str());
                m.append(" is required for this conversion but was not found; ");
                m.append(hint.as_str());
            },
            ConversionError::ToolFailed { tool, message } => {
                m.append(tool.as_str());
                m.append(" failed: ");
                m.append(message.as_str());
            },
            ConversionError::Image { message } => {
                m.append(message.as_str());
            },
        }
        m
    }
}

} // verus!
