//! The `wasi:cli` interfaces: exit statuses, terminals, and the wrapper
//! types through which the host traits are implemented.

use vstd::prelude::*;
use vstd::string::StringExecFns;

verus! {

/// An error returned from the `exit` host call, carrying the exit status.
/// Embedders can test if an error returned from wasm is this error, in
/// which case it may signal a non-fatal trap.
#[derive(Clone, Copy, Debug, PartialEq, Eq, Structural)]
pub struct I32Exit(pub i32);

/// The exit status for the `exit` call: 0 for success, 1 for failure.
pub fn exit_status(status: Result<(), ()>) -> (r: I32Exit)
    ensures
        r.0 == if status is Ok {
            0i32
        } else {
            1i32
        },
{
    if status.is_ok() {
        I32Exit(0)
    } else {
        I32Exit(1)
    }
}

/// The exit status for the `exit-with-code` call: the code itself.
pub fn exit_with_code(status_code: u8) -> (r: I32Exit)
    ensures
        r.0 == status_code,
{
    I32Exit(status_code as i32)
}

/// The decimal digits of a natural number.
pub open spec fn decimal_chars(v: nat) -> Seq<char>
    decreases v,
{
    if v < 10 {
        seq![((v + 48) as u8) as char]
    } else {
        decimal_chars(v / 10).push(((v % 10 + 48) as u8) as char)
    }
}

/// An integer in decimal, with a leading `-` when negative.
pub open spec fn signed_decimal_chars(v: int) -> Seq<char> {
    if v < 0 {
        seq!['-'].add(decimal_chars((-v) as nat))
    } else {
        decimal_chars(v as nat)
    }
}

/// The decimal digit `d` as a one-character string.
fn digit_str(d: u64) -> (r: &'static str)
    requires
        d < 10,
    ensures
        r@ == seq![((d + 48) as u8) as char],
{
    if d == 0 {
        proof {
            reveal_strlit("0");
        }
        "0"
    } else if d == 1 {
        proof {
            reveal_strlit("1");
        }
        "1"
    } else if d == 2 {
        proof {
            reveal_strlit("2");
        }
        "2"
    } else if d == 3 {
        proof {
            reveal_strlit("3");
        }
        "3"
    } else if d == 4 {
        proof {
            reveal_strlit("4");
        }
        "4"
    } else if d == 5 {
        proof {
            reveal_strlit("5");
        }
        "5"
    } else if d == 6 {
        proof {
            reveal_strlit("6");
        }
        "6"
    } else if d == 7 {
        proof {
            reveal_strlit("7");
        }
        "7"
    } else if d == 8 {
        proof {
            reveal_strlit("8");
        }
        "8"
    } else {
        proof {
            reveal_strlit("9");
        }
        "9"
    }
}

/// Appends the decimal digits of `v`.
pub(crate) fn push_decimal(s: &mut String, v: u64)
    ensures
        final(s)@ == old(s)@ + decimal_chars(v as nat),
    decreases v,
{
    if v < 10 {
        s.append(digit_str(v));
    } else {
        push_decimal(s, v / 10);
        s.append(digit_str(v % 10));
        proof {
            assert(final(s)@ =~= old(s)@ + decimal_chars(v as nat));
        }
    }
}

/// The message describing an exit status.
fn exit_message(code: i32) -> (r: String)
    ensures
        r@ == "Exited with i32 exit status "@ + signed_decimal_chars(code as int),
{
    let mut s = String::from_str("Exited with i32 exit status ");
    if code < 0 {
        s.append("-");
        proof {
            reveal_strlit("-");
        }
        let magnitude: u64 = (0i64 - code as i64) as u64;
        push_decimal(&mut s, magnitude);
        proof {
            assert(s@ =~= "Exited with i32 exit status "@ + signed_decimal_chars(code as int));
        }
    } else {
        push_decimal(&mut s, code as u64);
    }
    s
}

impl I32Exit {
    /// The message this error displays.
    pub fn to_string(&self) -> (r: String)
        ensures
            r@ == "Exited with i32 exit status "@ + signed_decimal_chars(self.0 as int),
    {
        exit_message(self.0)
    }
}

/// The resource of a terminal input.
pub struct TerminalInput;

/// The resource of a terminal output.
pub struct TerminalOutput;

/// A stream that may be backed by a terminal.
pub trait IsTerminal {
    /// Returns whether this stream is backed by a TTY.
    fn is_terminal(&self) -> bool;
}

/// The terminal behind standard input, if it is one.
pub fn terminal_input(is_terminal: bool) -> (r: Option<TerminalInput>)
    ensures
        r is Some == is_terminal,
{
    if is_terminal {
        Some(TerminalInput)
    } else {
        None
    }
}

/// The terminal behind standard output or error, if it is one.
pub fn terminal_output(is_terminal: bool) -> (r: Option<TerminalOutput>)
    ensures
        r is Some == is_terminal,
{
    if is_terminal {
        Some(TerminalOutput)
    } else {
        None
    }
}

/// A wrapper through which the `wasi:cli` host traits are implemented.
pub struct WasiCliImpl<T>(pub T);

/// A wrapper through which the `wasi:clocks` host traits are implemented.
pub struct WasiClocksImpl<T>(pub T);

/// A wrapper through which the `wasi:filesystem` host traits are
/// implemented.
pub struct WasiFilesystemImpl<T>(pub T);

/// The state of the `wasi:filesystem` implementation.
#[derive(Clone, Copy, Debug, PartialEq, Eq, Structural, Default)]
pub struct WasiFilesystemCtx {}

/// Gives access to the filesystem state of an embedder's store data.
pub trait WasiFilesystemView {
    /// The filesystem state.
    fn filesystem(&mut self) -> &mut WasiFilesystemCtx;
}

impl<T: WasiFilesystemView> WasiFilesystemView for WasiFilesystemImpl<T> {
    fn filesystem(&mut self) -> &mut WasiFilesystemCtx {
        self.0.filesystem()
    }
}

} // verus!
