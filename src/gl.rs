//! Handles of GL objects, and the GL enum values that the renderer decides on:
//! buffer usage hints, and the names of debug-message sources, types and
//! severities.
use vstd::prelude::*;

verus! {

pub const STREAM_DRAW: u32 = 0x88E0;
pub const STATIC_DRAW: u32 = 0x88E4;
pub const DYNAMIC_DRAW: u32 = 0x88E8;

pub const DEBUG_SOURCE_API: u32 = 0x8246;
pub const DEBUG_SOURCE_WINDOW_SYSTEM: u32 = 0x8247;
pub const DEBUG_SOURCE_SHADER_COMPILER: u32 = 0x8248;
pub const DEBUG_SOURCE_THIRD_PARTY: u32 = 0x8249;
pub const DEBUG_SOURCE_APPLICATION: u32 = 0x824A;
pub const DEBUG_SOURCE_OTHER: u32 = 0x824B;

pub const DEBUG_TYPE_ERROR: u32 = 0x824C;
pub const DEBUG_TYPE_DEPRECATED_BEHAVIOR: u32 = 0x824D;
pub const DEBUG_TYPE_UNDEFINED_BEHAVIOR: u32 = 0x824E;
pub const DEBUG_TYPE_PORTABILITY: u32 = 0x824F;
pub const DEBUG_TYPE_PERFORMANCE: u32 = 0x8250;
pub const DEBUG_TYPE_OTHER: u32 = 0x8251;

pub const DEBUG_SEVERITY_NOTIFICATION: u32 = 0x826B;
pub const DEBUG_SEVERITY_HIGH: u32 = 0x9146;
pub const DEBUG_SEVERITY_MEDIUM: u32 = 0x9147;
pub const DEBUG_SEVERITY_LOW: u32 = 0x9148;

/// A linked shader program.
#[derive(Clone, Copy, Debug, PartialEq, Eq, Structural)]
pub struct Program(pub u32);

/// How often a buffer's contents are expected to change.
#[derive(Clone, Copy, Debug, PartialEq, Eq, Structural)]
pub enum BufferUsage {
    Static,
    Dynamic,
    Stream,
}

/// A GPU buffer.
#[derive(Clone, Copy, Debug, PartialEq, Eq, Structural)]
pub struct Buffer(pub u32);

/// A GPU texture.
#[derive(Clone, Copy, Debug, PartialEq, Eq, Structural)]
pub struct Texture(pub u32);

impl BufferUsage {
    /// The GL usage hint for this usage.
    pub open spec fn spec_gl_enum(self) -> u32 {
        match self {
            BufferUsage::Static => STATIC_DRAW,
            BufferUsage::Dynamic => DYNAMIC_DRAW,
            BufferUsage::Stream => STREAM_DRAW,
        }
    }

    /// The GL usage hint for this usage.
    pub fn gl_enum(self) -> (r: u32)
        ensures
            r == self.spec_gl_enum(),
    {
        match self {
            BufferUsage::Static => STATIC_DRAW,
            BufferUsage::Dynamic => DYNAMIC_DRAW,
            BufferUsage::Stream => STREAM_DRAW,
        }
    }
}

/// The name of a debug-message severity, or `None` for a value that is none.
pub open spec fn spec_severity_name(severity: u32) -> Option<&'static str> {
    if severity == DEBUG_SEVERITY_LOW {
        Some("low")
    } else if severity == DEBUG_SEVERITY_MEDIUM {
        Some("medium")
    } else if severity == DEBUG_SEVERITY_HIGH {
        Some("high")
    } else if severity == DEBUG_SEVERITY_NOTIFICATION {
        Some("notification")
    } else {
        None
    }
}

/// The name of a debug-message type, or `None` for a value that is none.
pub open spec fn spec_message_type_name(ty: u32) -> Option<&'static str> {
    if ty == DEBUG_TYPE_ERROR {
        Some("error")
    } else if ty == DEBUG_TYPE_DEPRECATED_BEHAVIOR {
        Some("deprecated behaviour")
    } else if ty == DEBUG_TYPE_UNDEFINED_BEHAVIOR {
        Some("undefined behaviour")
    } else if ty == DEBUG_TYPE_PORTABILITY {
        Some("portability")
    } else if ty == DEBUG_TYPE_PERFORMANCE {
        Some("performance")
    } else if ty == DEBUG_TYPE_OTHER {
        Some("other")
    } else {
        None
    }
}

/// The name of a debug-message source, or `None` for a value that is none.
pub open spec fn spec_source_name(source: u32) -> Option<&'static str> {
    if source == DEBUG_SOURCE_API {
        Some("api")
    } else if source == DEBUG_SOURCE_WINDOW_SYSTEM {
        Some("window system")
    } else if source == DEBUG_SOURCE_SHADER_COMPILER {
        Some("shader compiler")
    } else if source == DEBUG_SOURCE_THIRD_PARTY {
        Some("third party")
    } else if source == DEBUG_SOURCE_APPLICATION {
        Some("application")
    } else if source == DEBUG_SOURCE_OTHER {
        Some("other")
    } else {
        None
    }
}

/// The name of a debug-message severity.
pub fn severity_name(severity: u32) -> (r: Option<&'static str>)
    ensures
        r == spec_severity_name(severity),
{
    if severity == DEBUG_SEVERITY_LOW {
        Some("low")
    } else if severity == DEBUG_SEVERITY_MEDIUM {
        Some("medium")
    } else if severity == DEBUG_SEVERITY_HIGH {
        Some("high")
    } else if severity == DEBUG_SEVERITY_NOTIFICATION {
        Some("notification")
    } else {
        None
    }
}

/// The name of a debug-message type.
pub fn message_type_name(ty: u32) -> (r: Option<&'static str>)
    ensures
        r == spec_message_type_name(ty),
{
    if ty == DEBUG_TYPE_ERROR {
        Some("error")
    } else if ty == DEBUG_TYPE_DEPRECATED_BEHAVIOR {
        Some("deprecated behaviour")
    } else if ty == DEBUG_TYPE_UNDEFINED_BEHAVIOR {
        Some("undefined behaviour")
    } else if ty == DEBUG_TYPE_PORTABILITY {
        Some("portability")
    } else if ty == DEBUG_TYPE_PERFORMANCE {
        Some("performance")
    } else if ty == DEBUG_TYPE_OTHER {
        Some("other")
    } else {
        None
    }
}

/// The name of a debug-message source.
pub fn source_name(source: u32) -> (r: Option<&'static str>)
    ensures
        r == spec_source_name(source),
{
    if source == DEBUG_SOURCE_API {
        Some("api")
    } else if source == DEBUG_SOURCE_WINDOW_SYSTEM {
        Some("window system")
    } else if source == DEBUG_SOURCE_SHADER_COMPILER {
        Some("shader compiler")
    } else if source == DEBUG_SOURCE_THIRD_PARTY {
        Some("third party")
    } else if source == DEBUG_SOURCE_APPLICATION {
        Some("application")
    } else if source == DEBUG_SOURCE_OTHER {
        Some("other")
    } else {
        None
    }
}

} // verus!
