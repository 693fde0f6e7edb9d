//! Actions: what is done to the shell with the selected item.
//!
//! Each action builds the script that the shell is to run and reads how that
//! run ended. The run itself is the caller's part.

use crate::error::{unit_outcome, AnyframeError, Failure};
use crate::process::{check_run, checking, shell, shell_run, Invocation, Output};
use crate::text::{
    escape, escaped, lemma_escaped_concat, lemma_escaped_single, lemma_unescaped_escaped,
    unescaped,
};
use vstd::prelude::*;

verus! {

/// An effect on the shell that takes the selected item.
pub trait Action {
    /// Whether `r` is a result that `perform` may return for `item`. An
    /// action that says nothing of its results admits them all.
    open spec fn performs(&self, item: Seq<char>, r: Result<(), AnyframeError>) -> bool {
        true
    }

    /// Performs the action on the selected item.
    fn perform(&self, item: &str) -> (r: Result<(), AnyframeError>)
        ensures
            self.performs(item@, r),
    ;

    /// The name of the action.
    fn name(&self) -> &str;
}

/// What the shell's run comes to for an action: nothing, or an `ActionError`
/// whose message is that of [`checking`].
pub open spec fn effect(ran: Result<Output, String>, unstarted: Seq<char>, failed: Seq<char>)
    -> Result<(), Failure> {
    match checking(ran, unstarted, failed) {
        Ok(_) => Ok(()),
        Err(m) => Err(Failure::ActionError(m)),
    }
}

/// Reads the shell's run for an action: see [`effect`].
pub fn read_effect(ran: Result<Output, String>, unstarted: &str, failed: &str) -> (r: Result<
    (),
    AnyframeError,
>)
    ensures
        unit_outcome(r) == effect(ran, unstarted@, failed@),
{
    match check_run(ran, unstarted, failed) {
        Ok(_) => Ok(()),
        Err(m) => Err(AnyframeError::ActionError(m)),
    }
}

/// Whether every double quote and dollar sign of `s` has a backslash in
/// front that escapes it. A backslash escapes the character after it, so a
/// backslash that is itself escaped escapes nothing.
pub open spec fn guarded(s: Seq<char>) -> bool
    decreases s.len(),
{
    if s.len() == 0 {
        true
    } else if s[0] == '\\' {
        s.len() >= 2 && guarded(s.skip(2))
    } else {
        s[0] != '"' && s[0] != '$' && guarded(s.drop_first())
    }
}

/// Two guarded texts in a row are guarded.
pub proof fn lemma_guarded_concat(a: Seq<char>, b: Seq<char>)
    requires
        guarded(a),
        guarded(b),
    ensures
        guarded(a + b),
    decreases a.len(),
{
    if a.len() == 0 {
        assert(a + b =~= b);
    } else if a[0] == '\\' {
        lemma_guarded_concat(a.skip(2), b);
        assert((a + b).skip(2) =~= a.skip(2) + b);
    } else {
        lemma_guarded_concat(a.drop_first(), b);
        assert((a + b).drop_first() =~= a.drop_first() + b);
    }
}

/// Escaping leaves no double quote or dollar sign unescaped.
pub proof fn lemma_escaped_guarded(s: Seq<char>)
    ensures
        guarded(escaped(s)),
    decreases s.len(),
{
    if s.len() > 0 {
        let c = s.last();
        let e = crate::text::escaped_char(c);
        assert(s[s.len() - 1] == c);
        assert(forall|i: int| 0 <= i < s.drop_last().len() ==> s.drop_last()[i] == s[i]);
        lemma_escaped_guarded(s.drop_last());
        if e.len() == 2 {
            assert(e.skip(2) =~= Seq::<char>::empty());
            assert(guarded(e.skip(2)));
            assert(guarded(e));
        } else {
            assert(e.drop_first() =~= Seq::<char>::empty());
            assert(guarded(e.drop_first()));
            assert(c != '\\');
            assert(guarded(e));
        }
        lemma_guarded_concat(escaped(s.drop_last()), e);
    }
}

/// An escaped item has no double quote or dollar sign without an escaping
/// backslash in front, and the shell reads it back, between double quotes,
/// as the item itself.
pub proof fn lemma_embedded_item(item: Seq<char>)
    ensures
        guarded(escaped(item)),
        unescaped(escaped(item)) == item,
{
    lemma_escaped_guarded(item);
    lemma_unescaped_escaped(item);
}

/// Runs the selected text as a command line.
#[derive(Debug, Clone, Copy, PartialEq, Eq)]
pub struct Execute;

impl Execute {
    /// The script that puts `item` into the shell's edit buffer, with its
    /// backslashes, double quotes and dollar signs escaped, and has the shell
    /// accept the line, or evaluate it where that is not to be had.
    pub open spec fn script_for(item: Seq<char>) -> Seq<char> {
        "BUFFER=\""@ + escaped(item)
            + "\"; zle accept-line 2>/dev/null || eval \"$BUFFER\""@
    }

    /// The script for `item`.
    pub fn script(&self, item: &str) -> (r: String)
        ensures
            r@ == Self::script_for(item@),
    {
        let body = escape(item);
        "BUFFER=\"".to_string().concat(body.as_str()).concat(
            "\"; zle accept-line 2>/dev/null || eval \"$BUFFER\"",
        )
    }

    /// The shell's run of the script for `item`.
    pub fn command(&self, item: &str) -> (inv: Invocation)
        ensures
            shell_run(Self::script_for(item@), inv),
    {
        shell(self.script(item))
    }

    /// Success where the shell ran and succeeded, else an `ActionError` with
    /// the cause, or with what the shell wrote to its diagnostic stream.
    pub fn outcome(&self, ran: Result<Output, String>) -> (r: Result<(), AnyframeError>)
        ensures
            unit_outcome(r) == effect(
                ran,
                "Failed to execute command: "@,
                "Execute command failed: "@,
            ),
    {
        read_effect(ran, "Failed to execute command: ", "Execute command failed: ")
    }

    /// The name of the action.
    pub fn name(&self) -> (r: &'static str)
        ensures
            r@ == "execute"@,
    {
        "execute"
    }
}

/// Puts the selected text into the shell's pending input, unexecuted.
#[derive(Debug, Clone, Copy, PartialEq, Eq)]
pub struct Insert;

impl Insert {
    /// The script that pushes `item` onto the shell's pending input: the
    /// item stands between double quotes, with its backslashes, double
    /// quotes and dollar signs escaped.
    pub open spec fn script_for(item: Seq<char>) -> Seq<char> {
        "print -z \""@ + escaped(item) + "\""@
    }

    /// The script for `item`.
    pub fn script(&self, item: &str) -> (r: String)
        ensures
            r@ == Self::script_for(item@),
    {
        let body = escape(item);
        "print -z \"".to_string().concat(body.as_str()).concat("\"")
    }

    /// The shell's run of the script for `item`.
    pub fn command(&self, item: &str) -> (inv: Invocation)
        ensures
            shell_run(Self::script_for(item@), inv),
    {
        shell(self.script(item))
    }

    /// Success where the shell ran and succeeded, else an `ActionError` with
    /// the cause, or with what the shell wrote to its diagnostic stream.
    pub fn outcome(&self, ran: Result<Output, String>) -> (r: Result<(), AnyframeError>)
        ensures
            unit_outcome(r) == effect(
                ran,
                "Failed to execute insert command: "@,
                "Insert command failed: "@,
            ),
    {
        read_effect(ran, "Failed to execute insert command: ", "Insert command failed: ")
    }

    /// The name of the action.
    pub fn name(&self) -> (r: &'static str)
        ensures
            r@ == "insert"@,
    {
        "insert"
    }
}

/// Puts the selected text into the shell's edit buffer, with the cursor at
/// its end.
#[derive(Debug, Clone, Copy, PartialEq, Eq)]
pub struct Put {
    /// Whether the text is quoted before it is placed.
    pub quote_item: bool,
}

impl Put {
    /// A put action that quotes the text if `quote_item` is set.
    pub fn new(quote_item: bool) -> (r: Self)
        ensures
            r.quote_item == quote_item,
    {
        Self { quote_item }
    }

    /// `item` quoted: backslashes, double quotes and dollar signs escaped,
    /// and the whole between two escaped double quotes.
    pub open spec fn quoted(item: Seq<char>) -> Seq<char> {
        seq!['\\', '"'] + escaped(item) + seq!['\\', '"']
    }

    /// The text that stands for `item` between the double quotes of the
    /// buffer assignment: `item` quoted if the action quotes, else `item`
    /// with its backslashes, double quotes and dollar signs escaped.
    pub open spec fn placed(self, item: Seq<char>) -> Seq<char> {
        if self.quote_item {
            Self::quoted(item)
        } else {
            escaped(item)
        }
    }

    /// What the shell's edit buffer holds once the script has run: `item`
    /// between two double quotes if the action quotes, else `item`.
    pub open spec fn buffer(self, item: Seq<char>) -> Seq<char> {
        if self.quote_item {
            seq!['"'] + item + seq!['"']
        } else {
            item
        }
    }

    /// The script that assigns the placed text to the shell's edit buffer,
    /// moves the cursor to its end and redraws, or pushes the buffer onto the
    /// pending input where there is no line editor.
    pub open spec fn script_for(self, item: Seq<char>) -> Seq<char> {
        "BUFFER=\""@ + self.placed(item)
            + "\"; CURSOR=$#BUFFER; zle -R -c 2>/dev/null || print -z -f '%s' \"$BUFFER\""@
    }

    /// The text that stands for `item` in the buffer assignment.
    pub fn place(&self, item: &str) -> (r: String)
        ensures
            r@ == self.placed(item@),
    {
        let body = escape(item);
        if self.quote_item {
            proof {
                reveal_strlit("\\\"");
                assert("\\\""@ =~= seq!['\\', '"']);
            }
            "\\\"".to_string().concat(body.as_str()).concat("\\\"")
        } else {
            body
        }
    }

    /// The script for `item`.
    pub fn script(&self, item: &str) -> (r: String)
        ensures
            r@ == self.script_for(item@),
    {
        let placed = self.place(item);
        "BUFFER=\"".to_string().concat(placed.as_str()).concat(
            "\"; CURSOR=$#BUFFER; zle -R -c 2>/dev/null || print -z -f '%s' \"$BUFFER\"",
        )
    }

    /// The shell's run of the script for `item`.
    pub fn command(&self, item: &str) -> (inv: Invocation)
        ensures
            shell_run(self.script_for(item@), inv),
    {
        shell(self.script(item))
    }

    /// Success where the shell ran and succeeded, else an `ActionError` with
    /// the cause, or with what the shell wrote to its diagnostic stream.
    pub fn outcome(&self, ran: Result<Output, String>) -> (r: Result<(), AnyframeError>)
        ensures
            unit_outcome(r) == effect(
                ran,
                "Failed to execute put command: "@,
                "Put command failed: "@,
            ),
    {
        read_effect(ran, "Failed to execute put command: ", "Put command failed: ")
    }

    /// The name of the action.
    pub fn name(&self) -> (r: &'static str)
        ensures
            r@ == "put"@,
    {
        "put"
    }

    /// A quoted text begins and ends with an escaped double quote, and has
    /// no double quote or dollar sign without an escaping backslash in
    /// front, whatever the item holds.
    pub proof fn lemma_quoted_guarded(item: Seq<char>)
        ensures
            guarded(Self::quoted(item)),
            Self::quoted(item).len() >= 4,
            Self::quoted(item).take(2) == seq!['\\', '"'],
            Self::quoted(item).skip(Self::quoted(item).len() - 2) == seq!['\\', '"'],
    {
        let q = seq!['\\', '"'];
        assert(q.skip(2) =~= Seq::<char>::empty());
        assert(guarded(q.skip(2)));
        assert(guarded(q));
        lemma_escaped_guarded(item);
        lemma_guarded_concat(q, escaped(item));
        lemma_guarded_concat(q + escaped(item), q);
        assert(Self::quoted(item).take(2) =~= q);
        assert(Self::quoted(item).skip(Self::quoted(item).len() - 2) =~= q);
    }

    /// Whether the action quotes or not, the text in the buffer assignment
    /// has no double quote or dollar sign without an escaping backslash in
    /// front, and the shell reads it back as the buffer's text.
    pub proof fn lemma_placed_is_safe(self, item: Seq<char>)
        ensures
            guarded(self.placed(item)),
            unescaped(self.placed(item)) == self.buffer(item),
    {
        if self.quote_item {
            Self::lemma_quoted_guarded(item);
            let q = seq!['"'];
            lemma_escaped_single('"');
            lemma_escaped_concat(q, item);
            lemma_escaped_concat(q + item, q);
            assert(Self::quoted(item) == escaped(q + item + q));
            lemma_unescaped_escaped(q + item + q);
        } else {
            lemma_embedded_item(item);
        }
    }
}

/// Changes the shell's working directory to the selected path.
#[derive(Debug, Clone, Copy, PartialEq, Eq)]
pub struct ChangeDirectory;

impl ChangeDirectory {
    /// The script that changes to the directory `item`: the path is one
    /// word between double quotes, with its backslashes, double quotes and
    /// dollar signs escaped.
    pub open spec fn script_for(item: Seq<char>) -> Seq<char> {
        "cd \""@ + escaped(item) + "\""@
    }

    /// The script for `item`.
    pub fn script(&self, item: &str) -> (r: String)
        ensures
            r@ == Self::script_for(item@),
    {
        let body = escape(item);
        "cd \"".to_string().concat(body.as_str()).concat("\"")
    }

    /// The shell's run of the script for `item`.
    pub fn command(&self, item: &str) -> (inv: Invocation)
        ensures
            shell_run(Self::script_for(item@), inv),
    {
        shell(self.script(item))
    }

    /// Success where the shell ran and succeeded, else an `ActionError` with
    /// the cause, or with what the shell wrote to its diagnostic stream.
    pub fn outcome(&self, ran: Result<Output, String>) -> (r: Result<(), AnyframeError>)
        ensures
            unit_outcome(r) == effect(ran, "Failed to execute cd command: "@, "cd command failed: "@),
    {
        read_effect(ran, "Failed to execute cd command: ", "cd command failed: ")
    }

    /// The name of the action.
    pub fn name(&self) -> (r: &'static str)
        ensures
            r@ == "change-directory"@,
    {
        "change-directory"
    }
}

} // verus!
