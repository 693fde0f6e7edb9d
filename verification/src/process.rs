//! What the pipeline asks of a subprocess and what it gets back, as plain
//! values: the runs themselves happen outside this library.

use crate::text::texts;
use vstd::prelude::*;
use vstd::utf8::{decode_utf8, encode_utf8, valid_utf8};

verus! {

/// A program to run, the arguments to give it and, where it reads any, the
/// text to write to its input before that stream is closed.
#[derive(Debug, Clone, PartialEq, Eq)]
pub struct Invocation {
    pub program: String,
    pub args: Vec<String>,
    pub input: Option<String>,
}

/// How a subprocess ended.
#[derive(Debug, Clone, PartialEq, Eq)]
pub struct Output {
    /// The exit code; `None` where a signal ended the process.
    pub code: Option<i32>,
    /// All that the process wrote to its output stream.
    pub stdout: Vec<u8>,
    /// All that the process wrote to its diagnostic stream.
    pub stderr: Vec<u8>,
}

impl Output {
    /// A process succeeded when it exited with code zero.
    pub open spec fn succeeded(self) -> bool {
        self.code == Some(0i32)
    }

    /// Tells whether the process exited with code zero.
    pub fn success(&self) -> (r: bool)
        ensures
            r == self.succeeded(),
    {
        match self.code {
            Some(c) => c == 0,
            None => false,
        }
    }
}

/// The run of `script` by the shell.
pub open spec fn shell_run(script: Seq<char>, inv: Invocation) -> bool {
    &&& inv.program@ == "zsh"@
    &&& texts(inv.args@) == seq!["-c"@, script]
    &&& inv.input is None
}

/// The invocation that has the shell run `script`.
pub fn shell(script: String) -> (inv: Invocation)
    ensures
        shell_run(script@, inv),
{
    let mut args: Vec<String> = Vec::new();
    args.push("-c".to_string());
    args.push(script);
    assert(texts(args@) =~= seq!["-c"@, script@]);
    Invocation { program: "zsh".to_string(), args, input: None }
}

/// The text that `String::from_utf8_lossy` makes of bytes that are not
/// UTF-8.
pub uninterp spec fn lossy_text(bytes: Seq<u8>) -> Seq<char>;

/// The description that `String::from_utf8` gives of why `bytes` are not
/// UTF-8.
pub uninterp spec fn utf8_fault(bytes: Seq<u8>) -> Seq<char>;

/// What a diagnostic stream is shown as: the text that the bytes encode
/// where they are UTF-8, else that text as far as it can be read.
pub open spec fn diagnostics(bytes: Seq<u8>) -> Seq<char> {
    if valid_utf8(bytes) {
        decode_utf8(bytes)
    } else {
        lossy_text(bytes)
    }
}

/// `String::from_utf8_lossy`: bytes that are UTF-8 give the text that they
/// encode; of others the function makes a text of its own, with a
/// replacement character for what cannot be read.
#[verifier::external_body]
pub(crate) fn lossy(bytes: &Vec<u8>) -> (r: String)
    ensures
        valid_utf8(bytes@) ==> r@ == decode_utf8(bytes@),
        !valid_utf8(bytes@) ==> r@ == lossy_text(bytes@),
{
    String::from_utf8_lossy(bytes).into_owned()
}

/// `String::from_utf8`: the text that `bytes` encode where they are UTF-8,
/// else the function's description of the fault.
#[verifier::external_body]
pub(crate) fn decode(bytes: Vec<u8>) -> (r: Result<String, String>)
    ensures
        r is Ok <==> valid_utf8(bytes@),
        r matches Ok(s) ==> s@ == decode_utf8(bytes@),
        r matches Err(e) ==> e@ == utf8_fault(bytes@),
{
    match String::from_utf8(bytes) {
        Ok(s) => Ok(s),
        Err(e) => Err(e.to_string()),
    }
}

/// What a tool's run comes to: the text of its output, or the message of
/// the failure. That message is `unstarted` and the cause where the tool
/// could not be started, `failed` and what the tool wrote to its diagnostic
/// stream where it did not succeed, `undecoded` and the fault where its
/// output is not UTF-8.
pub open spec fn reading(
    ran: Result<Output, String>,
    unstarted: Seq<char>,
    failed: Seq<char>,
    undecoded: Seq<char>,
) -> Result<Seq<char>, Seq<char>> {
    match ran {
        Err(cause) => Err(unstarted + cause@),
        Ok(out) => if !out.succeeded() {
            Err(failed + diagnostics(out.stderr@))
        } else if !valid_utf8(out.stdout@) {
            Err(undecoded + utf8_fault(out.stdout@))
        } else {
            Ok(decode_utf8(out.stdout@))
        },
    }
}

/// Reads a tool's run: see [`reading`].
pub fn read_run(ran: Result<Output, String>, unstarted: &str, failed: &str, undecoded: &str) -> (r:
    Result<String, String>)
    ensures
        match r {
            Ok(s) => reading(ran, unstarted@, failed@, undecoded@) == Ok::<Seq<char>, Seq<char>>(
                s@,
            ),
            Err(m) => reading(ran, unstarted@, failed@, undecoded@) == Err::<Seq<char>, Seq<char>>(
                m@,
            ),
        },
{
    match ran {
        Err(cause) => Err(unstarted.to_string().concat(cause.as_str())),
        Ok(out) => {
            if !out.success() {
                let diagnostics = lossy(&out.stderr);
                Err(failed.to_string().concat(diagnostics.as_str()))
            } else {
                match decode(out.stdout) {
                    Ok(s) => Ok(s),
                    Err(why) => Err(undecoded.to_string().concat(why.as_str())),
                }
            }
        },
    }
}

/// What a tool's run comes to where its output is not read: nothing, or the
/// message of the failure, as in [`reading`].
pub open spec fn checking(ran: Result<Output, String>, unstarted: Seq<char>, failed: Seq<char>)
    -> Result<(), Seq<char>> {
    match ran {
        Err(cause) => Err(unstarted + cause@),
        Ok(out) => if !out.succeeded() {
            Err(failed + diagnostics(out.stderr@))
        } else {
            Ok(())
        },
    }
}

/// Checks a tool's run: see [`checking`].
pub fn check_run(ran: Result<Output, String>, unstarted: &str, failed: &str) -> (r: Result<
    (),
    String,
>)
    ensures
        match r {
            Ok(_) => checking(ran, unstarted@, failed@) == Ok::<(), Seq<char>>(()),
            Err(m) => checking(ran, unstarted@, failed@) == Err::<(), Seq<char>>(m@),
        },
{
    match ran {
        Err(cause) => Err(unstarted.to_string().concat(cause.as_str())),
        Ok(out) => {
            if !out.success() {
                let diagnostics = lossy(&out.stderr);
                Err(failed.to_string().concat(diagnostics.as_str()))
            } else {
                Ok(())
            }
        },
    }
}

/// A diagnostic stream that holds the encoding of a text is shown as that
/// text, unchanged.
pub proof fn lemma_diagnostics_verbatim(text: Seq<char>)
    ensures
        diagnostics(encode_utf8(text)) == text,
{
    vstd::utf8::encode_utf8_valid_utf8(text);
    vstd::utf8::encode_utf8_decode_utf8(text);
}

} // verus!
