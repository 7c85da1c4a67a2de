//! Reading the status codes of the graphics layer: which codes mean
//! failure, and what to say about them.

use vstd::prelude::*;

verus! {

/// The error codes of the graphics layer.
pub const NO_ERROR: u32 = 0;

pub const INVALID_ENUM: u32 = 0x0500;

pub const INVALID_VALUE: u32 = 0x0501;

pub const INVALID_OPERATION: u32 = 0x0502;

pub const STACK_OVERFLOW: u32 = 0x0503;

pub const STACK_UNDERFLOW: u32 = 0x0504;

pub const OUT_OF_MEMORY: u32 = 0x0505;

pub const INVALID_FRAMEBUFFER_OPERATION: u32 = 0x0506;

/// The compile status of a shader that compiled.
pub const COMPILED: i32 = 1;

/// A failure of the graphics layer.
#[derive(Debug, Clone, Copy, PartialEq, Eq, Structural)]
pub enum GraphicsError {
    /// A status check after a draw or compile step gave this error code.
    Gl(u32),
    /// A shader did not compile.
    ShaderCompile,
}

/// The name of an error code in words.
pub open spec fn error_message(code: u32) -> Seq<char> {
    if code == NO_ERROR {
        "No error"@
    } else if code == INVALID_ENUM {
        "Invalid enum"@
    } else if code == INVALID_VALUE {
        "Invalid value"@
    } else if code == INVALID_OPERATION {
        "Invalid operation"@
    } else if code == INVALID_FRAMEBUFFER_OPERATION {
        "Invalid framebuffer operation"@
    } else if code == OUT_OF_MEMORY {
        "Out of memory"@
    } else if code == STACK_UNDERFLOW {
        "Stack underflow"@
    } else if code == STACK_OVERFLOW {
        "Stack overflow"@
    } else {
        "Unknown error"@
    }
}

/// Names an error code in words.
pub fn format_error(e: u32) -> (msg: &'static str)
    ensures
        msg@ == error_message(e),
{
    if e == NO_ERROR {
        "No error"
    } else if e == INVALID_ENUM {
        "Invalid enum"
    } else if e == INVALID_VALUE {
        "Invalid value"
    } else if e == INVALID_OPERATION {
        "Invalid operation"
    } else if e == INVALID_FRAMEBUFFER_OPERATION {
        "Invalid framebuffer operation"
    } else if e == OUT_OF_MEMORY {
        "Out of memory"
    } else if e == STACK_UNDERFLOW {
        "Stack underflow"
    } else if e == STACK_OVERFLOW {
        "Stack overflow"
    } else {
        "Unknown error"
    }
}

/// Judges the error code that the graphics layer reports after a step:
/// every code but `NO_ERROR` is a failure.
pub fn check_gl_errors(code: u32) -> (res: Result<(), GraphicsError>)
    ensures
        res is Ok <==> code == NO_ERROR,
        res matches Err(e) ==> e == GraphicsError::Gl(code),
{
    if code == NO_ERROR {
        Ok(())
    } else {
        Err(GraphicsError::Gl(code))
    }
}

/// Judges the compile status of a shader: every status but `COMPILED` is a
/// failure.
pub fn check_shader_status(status: i32) -> (res: Result<(), GraphicsError>)
    ensures
        res is Ok <==> status == COMPILED,
        res matches Err(e) ==> e == GraphicsError::ShaderCompile,
{
    if status == COMPILED {
        Ok(())
    } else {
        Err(GraphicsError::ShaderCompile)
    }
}

/// The number of bytes of text in a compile log whose length the graphics
/// layer reports as `reported`: the report counts the terminating zero,
/// and a report of zero or less means that there is no log.
pub fn shader_log_text_len(reported: i32) -> (n: usize)
    ensures
        n == if reported > 0 {
            reported - 1
        } else {
            0
        },
{
    if reported > 0 {
        (reported - 1) as usize
    } else {
        0
    }
}

} // verus!
