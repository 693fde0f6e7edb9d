//! Widgets: one source, one selector and one action bound together.
//!
//! A widget asks its source for the candidates, has the selector pick one
//! line, turns that line into the text for its action by its own rule, and
//! performs the action. The first stage that fails ends the run, and its
//! error is the run's error.

use crate::actions::Action;
use crate::error::AnyframeError;
use crate::selectors::Selector;
use crate::sources::Source;
use crate::text::{field, nth_field};
use vstd::prelude::*;

verus! {

/// A named binding of source, selector and action.
pub trait Widget {
    /// Whether `r` is a result that `run` may return. A widget that says
    /// nothing of its results admits them all.
    open spec fn runs(&self, r: Result<(), AnyframeError>) -> bool {
        true
    }

    /// Runs the widget once.
    fn run(&self) -> (r: Result<(), AnyframeError>)
        ensures
            self.runs(r),
    ;

    /// The name of the widget.
    fn name(&self) -> &str;
}

/// How a widget turns the selected line into the text for its action.
#[derive(Debug, Clone, Copy, PartialEq, Eq)]
pub enum Rule {
    /// The whole line.
    WholeLine,
    /// The first field of the line.
    FirstField,
    /// `kill` and the first field of the line.
    Kill,
    /// `git checkout` and the first field of the line.
    Checkout,
    /// `git add --` and, right behind it, the second field of the line.
    Add,
}

impl Rule {
    /// The text for the action, given the selected line. A field that the
    /// line does not have counts as empty.
    pub open spec fn applied(self, line: Seq<char>) -> Seq<char> {
        match self {
            Rule::WholeLine => line,
            Rule::FirstField => field(line, 0),
            Rule::Kill => "kill "@ + field(line, 0),
            Rule::Checkout => "git checkout "@ + field(line, 0),
            Rule::Add => "git add --"@ + field(line, 1),
        }
    }

    /// The text for the action, given the selected line.
    pub fn apply(self, line: &str) -> (r: String)
        ensures
            r@ == self.applied(line@),
    {
        match self {
            Rule::WholeLine => line.to_string(),
            Rule::FirstField => nth_field(line, 0),
            Rule::Kill => "kill ".to_string().concat(nth_field(line, 0).as_str()),
            Rule::Checkout => "git checkout ".to_string().concat(nth_field(line, 0).as_str()),
            Rule::Add => "git add --".to_string().concat(nth_field(line, 1).as_str()),
        }
    }
}

/// Whether `r` ends a run in which the source gave `data` and the selector,
/// if it was asked, gave `picked`: an error of the source is the result; else
/// an error of the selector, asked with the source's payload and no query, is
/// the result; else the result is that of the action on the selected line as
/// `rule` turns it.
pub open spec fn staged<S: Source, F: Selector, A: Action>(
    source: &S,
    selector: &F,
    action: &A,
    rule: Rule,
    data: Result<String, AnyframeError>,
    picked: Result<String, AnyframeError>,
    r: Result<(), AnyframeError>,
) -> bool {
    &&& source.yields(data)
    &&& match data {
        Err(e) => r == Err::<(), AnyframeError>(e),
        Ok(payload) => {
            &&& selector.selects(payload@, None, picked)
            &&& match picked {
                Err(e) => r == Err::<(), AnyframeError>(e),
                Ok(line) => action.performs(rule.applied(line@), r),
            }
        },
    }
}

/// Whether `r` is a result of one run of source, selector and action in
/// turn, with `rule` between the last two.
pub open spec fn piped<S: Source, F: Selector, A: Action>(
    source: &S,
    selector: &F,
    action: &A,
    rule: Rule,
    r: Result<(), AnyframeError>,
) -> bool {
    exists|data: Result<String, AnyframeError>, picked: Result<String, AnyframeError>|
        #[trigger] staged(source, selector, action, rule, data, picked, r)
}

/// Runs source, selector and action in turn, with `rule` between the last
/// two, and stops at the first that fails.
pub fn pipe<S: Source, F: Selector, A: Action>(source: &S, selector: &F, action: &A, rule: Rule)
    -> (r: Result<(), AnyframeError>)
    ensures
        piped(source, selector, action, rule, r),
{
    let data = source.get_data();
    let ghost seen = data;
    match data {
        Err(e) => {
            let r = Err(e);
            assert(staged(source, selector, action, rule, seen, seen, r));
            r
        },
        Ok(payload) => {
            let picked = selector.select(payload.as_str(), None);
            let ghost chosen = picked;
            match picked {
                Err(e) => {
                    let r = Err(e);
                    assert(staged(source, selector, action, rule, seen, chosen, r));
                    r
                },
                Ok(line) => {
                    let text = rule.apply(line.as_str());
                    let r = action.perform(text.as_str());
                    assert(staged(source, selector, action, rule, seen, chosen, r));
                    r
                },
            }
        },
    }
}

/// Runs a command picked from the history.
pub struct ExecuteHistory<S: Source, F: Selector, A: Action> {
    pub source: S,
    pub selector: F,
    pub action: A,
}

impl<S: Source, F: Selector, A: Action> ExecuteHistory<S, F, A> {
    /// Binds the three together.
    pub fn new(source: S, selector: F, action: A) -> (r: Self)
        ensures
            r.source == source,
            r.selector == selector,
            r.action == action,
    {
        Self { source, selector, action }
    }

    /// The text for the action: the selected line as it is.
    pub fn command(selected: &str) -> (r: String)
        ensures
            r@ == Rule::WholeLine.applied(selected@),
    {
        Rule::WholeLine.apply(selected)
    }
}

impl<S: Source, F: Selector, A: Action> Widget for ExecuteHistory<S, F, A> {
    open spec fn runs(&self, r: Result<(), AnyframeError>) -> bool {
        piped(&self.source, &self.selector, &self.action, Rule::WholeLine, r)
    }

    fn run(&self) -> (r: Result<(), AnyframeError>) {
        pipe(&self.source, &self.selector, &self.action, Rule::WholeLine)
    }

    fn name(&self) -> (r: &str)
        ensures
            r@ == "execute-history"@,
    {
        "execute-history"
    }
}

/// Changes to a repository picked from those that ghq has cloned.
pub struct CdGhqRepository<S: Source, F: Selector, A: Action> {
    pub source: S,
    pub selector: F,
    pub action: A,
}

impl<S: Source, F: Selector, A: Action> CdGhqRepository<S, F, A> {
    /// Binds the three together.
    pub fn new(source: S, selector: F, action: A) -> (r: Self)
        ensures
            r.source == source,
            r.selector == selector,
            r.action == action,
    {
        Self { source, selector, action }
    }

    /// The text for the action: the selected line as it is.
    pub fn command(selected: &str) -> (r: String)
        ensures
            r@ == Rule::WholeLine.applied(selected@),
    {
        Rule::WholeLine.apply(selected)
    }
}

impl<S: Source, F: Selector, A: Action> Widget for CdGhqRepository<S, F, A> {
    open spec fn runs(&self, r: Result<(), AnyframeError>) -> bool {
        piped(&self.source, &self.selector, &self.action, Rule::WholeLine, r)
    }

    fn run(&self) -> (r: Result<(), AnyframeError>) {
        pipe(&self.source, &self.selector, &self.action, Rule::WholeLine)
    }

    fn name(&self) -> (r: &str)
        ensures
            r@ == "cd-ghq-repository"@,
    {
        "cd-ghq-repository"
    }
}

/// Checks out a branch picked from the branch listing.
pub struct CheckoutGitBranch<S: Source, F: Selector, A: Action> {
    pub source: S,
    pub selector: F,
    pub action: A,
}

impl<S: Source, F: Selector, A: Action> CheckoutGitBranch<S, F, A> {
    /// Binds the three together.
    pub fn new(source: S, selector: F, action: A) -> (r: Self)
        ensures
            r.source == source,
            r.selector == selector,
            r.action == action,
    {
        Self { source, selector, action }
    }

    /// The text for the action: `git checkout` and the first field of the selected line.
    pub fn command(selected: &str) -> (r: String)
        ensures
            r@ == Rule::Checkout.applied(selected@),
    {
        Rule::Checkout.apply(selected)
    }
}

impl<S: Source, F: Selector, A: Action> Widget for CheckoutGitBranch<S, F, A> {
    open spec fn runs(&self, r: Result<(), AnyframeError>) -> bool {
        piped(&self.source, &self.selector, &self.action, Rule::Checkout, r)
    }

    fn run(&self) -> (r: Result<(), AnyframeError>) {
        pipe(&self.source, &self.selector, &self.action, Rule::Checkout)
    }

    fn name(&self) -> (r: &str)
        ensures
            r@ == "checkout-git-branch"@,
    {
        "checkout-git-branch"
    }
}

/// Inserts the name of a branch picked from the branch listing.
pub struct InsertGitBranch<S: Source, F: Selector, A: Action> {
    pub source: S,
    pub selector: F,
    pub action: A,
}

impl<S: Source, F: Selector, A: Action> InsertGitBranch<S, F, A> {
    /// Binds the three together.
    pub fn new(source: S, selector: F, action: A) -> (r: Self)
        ensures
            r.source == source,
            r.selector == selector,
            r.action == action,
    {
        Self { source, selector, action }
    }

    /// The text for the action: the first field of the selected line.
    pub fn command(selected: &str) -> (r: String)
        ensures
            r@ == Rule::FirstField.applied(selected@),
    {
        Rule::FirstField.apply(selected)
    }
}

impl<S: Source, F: Selector, A: Action> Widget for InsertGitBranch<S, F, A> {
    open spec fn runs(&self, r: Result<(), AnyframeError>) -> bool {
        piped(&self.source, &self.selector, &self.action, Rule::FirstField, r)
    }

    fn run(&self) -> (r: Result<(), AnyframeError>) {
        pipe(&self.source, &self.selector, &self.action, Rule::FirstField)
    }

    fn name(&self) -> (r: &str)
        ensures
            r@ == "insert-git-branch"@,
    {
        "insert-git-branch"
    }
}

/// Stages a file picked from the status listing.
pub struct GitAdd<S: Source, F: Selector, A: Action> {
    pub source: S,
    pub selector: F,
    pub action: A,
}

impl<S: Source, F: Selector, A: Action> GitAdd<S, F, A> {
    /// Binds the three together.
    pub fn new(source: S, selector: F, action: A) -> (r: Self)
        ensures
            r.source == source,
            r.selector == selector,
            r.action == action,
    {
        Self { source, selector, action }
    }

    /// The text for the action: `git add --` and, right behind it, the second field of the selected line.
    pub fn command(selected: &str) -> (r: String)
        ensures
            r@ == Rule::Add.applied(selected@),
    {
        Rule::Add.apply(selected)
    }
}

impl<S: Source, F: Selector, A: Action> Widget for GitAdd<S, F, A> {
    open spec fn runs(&self, r: Result<(), AnyframeError>) -> bool {
        piped(&self.source, &self.selector, &self.action, Rule::Add, r)
    }

    fn run(&self) -> (r: Result<(), AnyframeError>) {
        pipe(&self.source, &self.selector, &self.action, Rule::Add)
    }

    fn name(&self) -> (r: &str)
        ensures
            r@ == "git-add"@,
    {
        "git-add"
    }
}

/// Changes to a directory picked from those visited lately.
pub struct Cdr<S: Source, F: Selector, A: Action> {
    pub source: S,
    pub selector: F,
    pub action: A,
}

impl<S: Source, F: Selector, A: Action> Cdr<S, F, A> {
    /// Binds the three together.
    pub fn new(source: S, selector: F, action: A) -> (r: Self)
        ensures
            r.source == source,
            r.selector == selector,
            r.action == action,
    {
        Self { source, selector, action }
    }

    /// The text for the action: the selected line as it is.
    pub fn command(selected: &str) -> (r: String)
        ensures
            r@ == Rule::WholeLine.applied(selected@),
    {
        Rule::WholeLine.apply(selected)
    }
}

impl<S: Source, F: Selector, A: Action> Widget for Cdr<S, F, A> {
    open spec fn runs(&self, r: Result<(), AnyframeError>) -> bool {
        piped(&self.source, &self.selector, &self.action, Rule::WholeLine, r)
    }

    fn run(&self) -> (r: Result<(), AnyframeError>) {
        pipe(&self.source, &self.selector, &self.action, Rule::WholeLine)
    }

    fn name(&self) -> (r: &str)
        ensures
            r@ == "cdr"@,
    {
        "cdr"
    }
}

/// Kills a process picked from the process listing.
pub struct Kill<S: Source, F: Selector, A: Action> {
    pub source: S,
    pub selector: F,
    pub action: A,
}

impl<S: Source, F: Selector, A: Action> Kill<S, F, A> {
    /// Binds the three together.
    pub fn new(source: S, selector: F, action: A) -> (r: Self)
        ensures
            r.source == source,
            r.selector == selector,
            r.action == action,
    {
        Self { source, selector, action }
    }

    /// The text for the action: `kill` and the first field of the selected line.
    pub fn command(selected: &str) -> (r: String)
        ensures
            r@ == Rule::Kill.applied(selected@),
    {
        Rule::Kill.apply(selected)
    }
}

impl<S: Source, F: Selector, A: Action> Widget for Kill<S, F, A> {
    open spec fn runs(&self, r: Result<(), AnyframeError>) -> bool {
        piped(&self.source, &self.selector, &self.action, Rule::Kill, r)
    }

    fn run(&self) -> (r: Result<(), AnyframeError>) {
        pipe(&self.source, &self.selector, &self.action, Rule::Kill)
    }

    fn name(&self) -> (r: &str)
        ensures
            r@ == "kill"@,
    {
        "kill"
    }
}

} // verus!
