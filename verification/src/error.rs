//! The error that every stage of the pipeline reports.

use vstd::prelude::*;

verus! {

/// Why a run of the pipeline ended without its effect.
#[derive(Debug, Clone, PartialEq, Eq)]
pub enum AnyframeError {
    /// Nothing was selected: the user cancelled, or there was nothing to pick.
    SelectorNotFound(String),
    /// The candidates could not be produced.
    SourceError(String),
    /// The effect on the shell failed.
    ActionError(String),
    /// A failure of the composition itself.
    WidgetError(String),
    /// A subprocess could not be started, fed or read, or its output was no
    /// valid text.
    IoError(String),
}

/// An error with its message as a sequence of characters.
pub enum Failure {
    SelectorNotFound(Seq<char>),
    SourceError(Seq<char>),
    ActionError(Seq<char>),
    WidgetError(Seq<char>),
    IoError(Seq<char>),
}

impl Failure {
    /// The message that the error carries.
    pub open spec fn message(self) -> Seq<char> {
        match self {
            Failure::SelectorNotFound(m) => m,
            Failure::SourceError(m) => m,
            Failure::ActionError(m) => m,
            Failure::WidgetError(m) => m,
            Failure::IoError(m) => m,
        }
    }

    /// What stands before the message when the error is shown.
    pub open spec fn heading(self) -> Seq<char> {
        match self {
            Failure::SelectorNotFound(_) => "Selector not found: "@,
            Failure::SourceError(_) => "Source error: "@,
            Failure::ActionError(_) => "Action error: "@,
            Failure::WidgetError(_) => "Widget error: "@,
            Failure::IoError(_) => "IO error: "@,
        }
    }

    /// The error as it is shown to the user.
    pub open spec fn shown(self) -> Seq<char> {
        self.heading() + self.message()
    }
}

impl View for AnyframeError {
    type V = Failure;

    open spec fn view(&self) -> Failure {
        match self {
            AnyframeError::SelectorNotFound(m) => Failure::SelectorNotFound(m@),
            AnyframeError::SourceError(m) => Failure::SourceError(m@),
            AnyframeError::ActionError(m) => Failure::ActionError(m@),
            AnyframeError::WidgetError(m) => Failure::WidgetError(m@),
            AnyframeError::IoError(m) => Failure::IoError(m@),
        }
    }
}

/// A result that carries a text, with text and error by their views.
pub open spec fn text_outcome(r: Result<String, AnyframeError>) -> Result<Seq<char>, Failure> {
    match r {
        Ok(s) => Ok(s@),
        Err(e) => Err(e@),
    }
}

/// A result that carries nothing, with the error by its view.
pub open spec fn unit_outcome(r: Result<(), AnyframeError>) -> Result<(), Failure> {
    match r {
        Ok(_) => Ok(()),
        Err(e) => Err(e@),
    }
}

impl AnyframeError {
    /// The error as it is shown to the user: the heading of its kind, then
    /// its message.
    pub fn to_text(&self) -> (r: String)
        ensures
            r@ == self@.shown(),
    {
        match self {
            AnyframeError::SelectorNotFound(m) => "Selector not found: ".to_string().concat(
                m.as_str(),
            ),
            AnyframeError::SourceError(m) => "Source error: ".to_string().concat(m.as_str()),
            AnyframeError::ActionError(m) => "Action error: ".to_string().concat(m.as_str()),
            AnyframeError::WidgetError(m) => "Widget error: ".to_string().concat(m.as_str()),
            AnyframeError::IoError(m) => "IO error: ".to_string().concat(m.as_str()),
        }
    }
}

} // verus!
