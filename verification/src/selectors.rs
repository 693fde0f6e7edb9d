//! Selectors: the interactive filters that let the user pick one line.
//!
//! A selector says how its filter program is started and fed, and reads how
//! the program's run ended. All of them follow one protocol; they differ in
//! the program's name and in the exit code that reports a cancellation.

use crate::error::{text_outcome, AnyframeError, Failure};
use crate::process::{
    decode, diagnostics, lemma_diagnostics_verbatim, lossy, utf8_fault, Invocation, Output,
};
use crate::text::{is_space, lemma_trimmed_edges, texts, trim, trimmed};
use vstd::prelude::*;
use vstd::utf8::{decode_utf8, encode_utf8, valid_utf8};

verus! {

/// An interactive filter over candidate lines.
pub trait Selector {
    /// Whether `r` is a result that `select` may return for `input` and
    /// `query`. A selector that says nothing of its results admits them all.
    open spec fn selects(
        &self,
        input: Seq<char>,
        query: Option<Seq<char>>,
        r: Result<String, AnyframeError>,
    ) -> bool {
        true
    }

    /// Lets the user pick one line of `input`, with the filter preset to
    /// `query` where one is given.
    fn select(&self, input: &str, query: Option<&str>) -> (r: Result<String, AnyframeError>)
        ensures
            self.selects(input@, query_text(query), r),
    ;

    /// The name of the selector.
    fn name(&self) -> &str;
}

/// The text of an optional query.
pub open spec fn query_text(query: Option<&str>) -> Option<Seq<char>> {
    match query {
        Some(q) => Some(q@),
        None => None,
    }
}

/// The exit code by which peco reports that the user cancelled.
pub const PECO_CANCELLED: i32 = 1;

/// The exit code by which fzf and fzf-tmux report that the user cancelled.
pub const FZF_CANCELLED: i32 = 130;

/// The run of the filter program at `path` on the candidates `input`: the
/// query, where there is one, follows the option `--query`, and the whole of
/// `input` is written to the program's input.
pub open spec fn filter_run(
    path: Seq<char>,
    input: Seq<char>,
    query: Option<Seq<char>>,
    inv: Invocation,
) -> bool {
    &&& inv.program@ == path
    &&& texts(inv.args@) == match query {
        Some(q) => seq!["--query"@, q],
        None => Seq::<Seq<char>>::empty(),
    }
    &&& match inv.input {
        Some(fed) => fed@ == input,
        None => false,
    }
}

/// The invocation of the filter program at `path`.
pub fn filter_command(path: &str, input: &str, query: Option<&str>) -> (inv: Invocation)
    ensures
        filter_run(path@, input@, query_text(query), inv),
{
    let mut args: Vec<String> = Vec::new();
    match query {
        Some(q) => {
            args.push("--query".to_string());
            args.push(q.to_string());
            assert(texts(args@) =~= seq!["--query"@, q@]);
        },
        None => {
            assert(texts(args@) =~= Seq::<Seq<char>>::empty());
        },
    }
    Invocation { program: path.to_string(), args, input: Some(input.to_string()) }
}

/// What a run of the filter program `tool` comes to, where `cancel` is the
/// exit code by which the program reports a cancellation.
///
/// - The program could not be started, fed or awaited: an `IoError` with the
///   cause.
/// - It exited with `cancel` and wrote no output: `SelectorNotFound`, the
///   selection was cancelled.
/// - It failed otherwise: an `IoError` with what it wrote to its diagnostic
///   stream.
/// - It succeeded with output that is not UTF-8: an `IoError`.
/// - It succeeded with output that is empty once trimmed: `SelectorNotFound`,
///   no item was selected.
/// - Else the output, trimmed.
pub open spec fn selection(tool: Seq<char>, cancel: i32, ran: Result<Output, String>) -> Result<
    Seq<char>,
    Failure,
> {
    match ran {
        Err(cause) => Err(Failure::IoError(cause@)),
        Ok(out) => if !out.succeeded() {
            if out.code == Some(cancel) && out.stdout@.len() == 0 {
                Err(Failure::SelectorNotFound("selection cancelled"@))
            } else {
                Err(Failure::IoError(tool + " command failed: "@ + diagnostics(out.stderr@)))
            }
        } else if !valid_utf8(out.stdout@) {
            Err(
                Failure::IoError(
                    "Invalid UTF-8 in "@ + tool + " output: "@ + utf8_fault(out.stdout@),
                ),
            )
        } else if trimmed(decode_utf8(out.stdout@)).len() == 0 {
            Err(Failure::SelectorNotFound("no item selected"@))
        } else {
            Ok(trimmed(decode_utf8(out.stdout@)))
        },
    }
}

/// Reads a run of the filter program `tool`: see [`selection`].
pub fn read_selection(tool: &str, cancel: i32, ran: Result<Output, String>) -> (r: Result<
    String,
    AnyframeError,
>)
    ensures
        text_outcome(r) == selection(tool@, cancel, ran),
{
    match ran {
        Err(cause) => Err(AnyframeError::IoError(cause)),
        Ok(out) => {
            if !out.success() {
                let cancelled = match out.code {
                    Some(c) => c == cancel,
                    None => false,
                };
                if cancelled && out.stdout.len() == 0 {
                    Err(AnyframeError::SelectorNotFound("selection cancelled".to_string()))
                } else {
                    let diagnostics = lossy(&out.stderr);
                    Err(
                        AnyframeError::IoError(
                            tool.to_string().concat(" command failed: ").concat(
                                diagnostics.as_str(),
                            ),
                        ),
                    )
                }
            } else {
                match decode(out.stdout) {
                    Err(why) => Err(
                        AnyframeError::IoError(
                            "Invalid UTF-8 in ".to_string().concat(tool).concat(" output: ").concat(
                                why.as_str(),
                            ),
                        ),
                    ),
                    Ok(text) => {
                        let picked = trim(text.as_str());
                        if picked.as_str().is_empty() {
                            Err(AnyframeError::SelectorNotFound("no item selected".to_string()))
                        } else {
                            Ok(picked)
                        }
                    },
                }
            }
        },
    }
}

/// A filter that succeeds and writes out a line of the candidates, with
/// whatever white space around it, selects that line trimmed, whatever the
/// other candidates were.
pub proof fn lemma_echoed_line_is_selected(
    tool: Seq<char>,
    cancel: i32,
    out: Output,
    written: Seq<char>,
    line: Seq<char>,
)
    requires
        out.succeeded(),
        out.stdout@ == encode_utf8(written),
        trimmed(written) == trimmed(line),
        trimmed(line).len() > 0,
    ensures
        selection(tool, cancel, Ok(out)) == Ok::<Seq<char>, Failure>(trimmed(line)),
{
    vstd::utf8::encode_utf8_valid_utf8(written);
    vstd::utf8::encode_utf8_decode_utf8(written);
}

/// A filter that exits with its cancellation code and writes no output gives
/// `SelectorNotFound` with a message of its own, which is not the message of
/// a successful run without output.
pub proof fn lemma_cancellation_is_told_apart(tool: Seq<char>, cancel: i32, out: Output)
    requires
        cancel != 0,
        out.code == Some(cancel),
        out.stdout@.len() == 0,
    ensures
        selection(tool, cancel, Ok(out)) == Err::<Seq<char>, Failure>(
            Failure::SelectorNotFound("selection cancelled"@),
        ),
        "selection cancelled"@ != "no item selected"@,
{
    reveal_strlit("selection cancelled");
    reveal_strlit("no item selected");
    assert("selection cancelled"@.len() != "no item selected"@.len());
}

/// Of two runs without output, one that ends with the cancellation code
/// and one that succeeds, both give `SelectorNotFound`, and the two messages
/// differ.
pub proof fn lemma_empty_outputs_are_told_apart(
    tool: Seq<char>,
    cancel: i32,
    cancelled: Output,
    silent: Output,
)
    requires
        cancel != 0,
        cancelled.code == Some(cancel),
        cancelled.stdout@.len() == 0,
        silent.succeeded(),
        silent.stdout@.len() == 0,
    ensures
        selection(tool, cancel, Ok(cancelled)) == Err::<Seq<char>, Failure>(
            Failure::SelectorNotFound("selection cancelled"@),
        ),
        selection(tool, cancel, Ok(silent)) == Err::<Seq<char>, Failure>(
            Failure::SelectorNotFound("no item selected"@),
        ),
        selection(tool, cancel, Ok(cancelled)) != selection(tool, cancel, Ok(silent)),
{
    lemma_cancellation_is_told_apart(tool, cancel, cancelled);
    let nothing = Seq::<char>::empty();
    assert(encode_utf8(nothing) =~= Seq::<u8>::empty());
    assert(silent.stdout@ =~= encode_utf8(nothing));
    vstd::utf8::encode_utf8_valid_utf8(nothing);
    vstd::utf8::encode_utf8_decode_utf8(nothing);
    lemma_trimmed_edges(nothing);
}

/// A filter that fails, other than by a cancellation without output, gives
/// an `IoError` that holds what it wrote to its diagnostic stream, word for
/// word.
pub proof fn lemma_failure_holds_diagnostics(
    tool: Seq<char>,
    cancel: i32,
    out: Output,
    said: Seq<char>,
)
    requires
        !out.succeeded(),
        out.code != Some(cancel) || out.stdout@.len() > 0,
        out.stderr@ == encode_utf8(said),
    ensures
        selection(tool, cancel, Ok(out)) == Err::<Seq<char>, Failure>(
            Failure::IoError(tool + " command failed: "@ + said),
        ),
{
    lemma_diagnostics_verbatim(said);
}

/// A selected line is never empty, and neither begins nor ends with white
/// space.
pub proof fn lemma_selected_is_trimmed(tool: Seq<char>, cancel: i32, ran: Result<Output, String>)
    ensures
        match selection(tool, cancel, ran) {
            Ok(line) => line.len() > 0 && !is_space(line[0]) && !is_space(line.last()),
            Err(_) => true,
        },
{
    match ran {
        Ok(out) => {
            lemma_trimmed_edges(decode_utf8(out.stdout@));
        },
        Err(_) => {},
    }
}

/// The peco filter.
#[derive(Debug, Clone, PartialEq, Eq)]
pub struct Peco {
    /// Where the program is found.
    pub path: String,
}

impl Peco {
    /// The peco filter at `path`, or the one named `peco` where no path is
    /// given.
    pub fn new(path: Option<String>) -> (r: Self)
        ensures
            r.path@ == match path {
                Some(p) => p@,
                None => "peco"@,
            },
    {
        match path {
            Some(p) => Self { path: p },
            None => Self { path: "peco".to_string() },
        }
    }

    /// The run of the program on the candidates `input`.
    pub fn command(&self, input: &str, query: Option<&str>) -> (inv: Invocation)
        ensures
            filter_run(self.path@, input@, query_text(query), inv),
    {
        filter_command(self.path.as_str(), input, query)
    }

    /// The selected line, or why there is none: see [`selection`].
    pub fn outcome(&self, ran: Result<Output, String>) -> (r: Result<String, AnyframeError>)
        ensures
            text_outcome(r) == selection("peco"@, PECO_CANCELLED, ran),
    {
        read_selection("peco", PECO_CANCELLED, ran)
    }

    /// The name of the selector.
    pub fn name(&self) -> (r: &'static str)
        ensures
            r@ == "peco"@,
    {
        "peco"
    }

    /// A run that ends with exit code 1 and without output is a
    /// cancellation: `SelectorNotFound` with the message of a cancellation,
    /// never a selection and never an `IoError`.
    pub proof fn lemma_cancelled(out: Output)
        requires
            out.code == Some(PECO_CANCELLED),
            out.stdout@.len() == 0,
        ensures
            selection("peco"@, PECO_CANCELLED, Ok(out)) == Err::<Seq<char>, Failure>(
                Failure::SelectorNotFound("selection cancelled"@),
            ),
    {
        lemma_cancellation_is_told_apart("peco"@, PECO_CANCELLED, out);
    }
}

/// The fzf filter.
#[derive(Debug, Clone, PartialEq, Eq)]
pub struct Fzf {
    /// Where the program is found.
    pub path: String,
}

impl Fzf {
    /// The fzf filter at `path`, or the one named `fzf` where no path is
    /// given.
    pub fn new(path: Option<String>) -> (r: Self)
        ensures
            r.path@ == match path {
                Some(p) => p@,
                None => "fzf"@,
            },
    {
        match path {
            Some(p) => Self { path: p },
            None => Self { path: "fzf".to_string() },
        }
    }

    /// The run of the program on the candidates `input`.
    pub fn command(&self, input: &str, query: Option<&str>) -> (inv: Invocation)
        ensures
            filter_run(self.path@, input@, query_text(query), inv),
    {
        filter_command(self.path.as_str(), input, query)
    }

    /// The selected line, or why there is none: see [`selection`].
    pub fn outcome(&self, ran: Result<Output, String>) -> (r: Result<String, AnyframeError>)
        ensures
            text_outcome(r) == selection("fzf"@, FZF_CANCELLED, ran),
    {
        read_selection("fzf", FZF_CANCELLED, ran)
    }

    /// The name of the selector.
    pub fn name(&self) -> (r: &'static str)
        ensures
            r@ == "fzf"@,
    {
        "fzf"
    }

    /// A run that ends with exit code 130 and without output is a
    /// cancellation: `SelectorNotFound` with the message of a cancellation,
    /// never a selection and never an `IoError`.
    pub proof fn lemma_cancelled(out: Output)
        requires
            out.code == Some(FZF_CANCELLED),
            out.stdout@.len() == 0,
        ensures
            selection("fzf"@, FZF_CANCELLED, Ok(out)) == Err::<Seq<char>, Failure>(
                Failure::SelectorNotFound("selection cancelled"@),
            ),
    {
        lemma_cancellation_is_told_apart("fzf"@, FZF_CANCELLED, out);
    }
}

/// The fzf filter in a tmux pane.
#[derive(Debug, Clone, PartialEq, Eq)]
pub struct FzfTmux {
    /// Where the program is found.
    pub path: String,
}

impl FzfTmux {
    /// The fzf-tmux filter at `path`, or the one named `fzf-tmux` where no
    /// path is given.
    pub fn new(path: Option<String>) -> (r: Self)
        ensures
            r.path@ == match path {
                Some(p) => p@,
                None => "fzf-tmux"@,
            },
    {
        match path {
            Some(p) => Self { path: p },
            None => Self { path: "fzf-tmux".to_string() },
        }
    }

    /// The run of the program on the candidates `input`.
    pub fn command(&self, input: &str, query: Option<&str>) -> (inv: Invocation)
        ensures
            filter_run(self.path@, input@, query_text(query), inv),
    {
        filter_command(self.path.as_str(), input, query)
    }

    /// The selected line, or why there is none: see [`selection`].
    pub fn outcome(&self, ran: Result<Output, String>) -> (r: Result<String, AnyframeError>)
        ensures
            text_outcome(r) == selection("fzf-tmux"@, FZF_CANCELLED, ran),
    {
        read_selection("fzf-tmux", FZF_CANCELLED, ran)
    }

    /// The name of the selector.
    pub fn name(&self) -> (r: &'static str)
        ensures
            r@ == "fzf-tmux"@,
    {
        "fzf-tmux"
    }

    /// A run that ends with exit code 130 and without output is a
    /// cancellation: `SelectorNotFound` with the message of a cancellation,
    /// never a selection and never an `IoError`.
    pub proof fn lemma_cancelled(out: Output)
        requires
            out.code == Some(FZF_CANCELLED),
            out.stdout@.len() == 0,
        ensures
            selection("fzf-tmux"@, FZF_CANCELLED, Ok(out)) == Err::<Seq<char>, Failure>(
                Failure::SelectorNotFound("selection cancelled"@),
            ),
    {
        lemma_cancellation_is_told_apart("fzf-tmux"@, FZF_CANCELLED, out);
    }
}

} // verus!
