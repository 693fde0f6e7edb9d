use anyframe_rs::actions::Action;
use anyframe_rs::error::AnyframeError;
use anyframe_rs::process::Output;
use anyframe_rs::selectors::{Peco, Selector};
use anyframe_rs::sources::Source;
use anyframe_rs::widgets::{
    CdGhqRepository, Cdr, CheckoutGitBranch, ExecuteHistory, GitAdd, InsertGitBranch, Kill, Rule,
    Widget,
};
use std::cell::RefCell;

struct Fixed(Result<String, AnyframeError>);

impl Source for Fixed {
    fn get_data(&self) -> Result<String, AnyframeError> {
        self.0.clone()
    }

    fn name(&self) -> &str {
        "fixed"
    }
}

/// Stands for a filter program that writes `answer` and exits with `code`.
struct Echo {
    code: i32,
    answer: String,
    seen: RefCell<Vec<(String, Option<String>)>>,
}

impl Echo {
    fn picking(answer: &str) -> Self {
        Echo { code: 0, answer: answer.to_string(), seen: RefCell::new(Vec::new()) }
    }

    fn exiting(code: i32) -> Self {
        Echo { code, answer: String::new(), seen: RefCell::new(Vec::new()) }
    }
}

impl Selector for Echo {
    fn select(&self, input: &str, query: Option<&str>) -> Result<String, AnyframeError> {
        self.seen.borrow_mut().push((input.to_string(), query.map(|q| q.to_string())));
        let answer = if input.is_empty() { String::new() } else { self.answer.clone() };
        Peco::new(None).outcome(Ok(Output {
            code: Some(self.code),
            stdout: answer.into_bytes(),
            stderr: Vec::new(),
        }))
    }

    fn name(&self) -> &str {
        "echo"
    }
}

struct Recorder {
    fails: bool,
    items: RefCell<Vec<String>>,
}

impl Recorder {
    fn new() -> Self {
        Recorder { fails: false, items: RefCell::new(Vec::new()) }
    }

    fn failing() -> Self {
        Recorder { fails: true, items: RefCell::new(Vec::new()) }
    }

    fn items(&self) -> Vec<String> {
        self.items.borrow().clone()
    }
}

impl Action for Recorder {
    fn perform(&self, item: &str) -> Result<(), AnyframeError> {
        self.items.borrow_mut().push(item.to_string());
        if self.fails {
            Err(AnyframeError::ActionError("refused".to_string()))
        } else {
            Ok(())
        }
    }

    fn name(&self) -> &str {
        "recorder"
    }
}

fn payload(text: &str) -> Fixed {
    Fixed(Ok(text.to_string()))
}

#[test]
fn rules_extract_fields() {
    assert_eq!(Rule::Checkout.apply("feature/x extra"), "git checkout feature/x");
    assert_eq!(Rule::Add.apply("M  path/to/file"), "git add --path/to/file");
    assert_eq!(Rule::Add.apply(" M\t../file.txt"), "git add --../file.txt");
    assert_eq!(Rule::Kill.apply("  4242 S   0.0  0.1 0:00.01 zsh"), "kill 4242");
    assert_eq!(Rule::FirstField.apply("dev     1a2b3c4 Add thing"), "dev");
    assert_eq!(Rule::WholeLine.apply("cd  /tmp  "), "cd  /tmp  ");
}

#[test]
fn missing_fields_become_empty() {
    assert_eq!(Rule::Checkout.apply(""), "git checkout ");
    assert_eq!(Rule::Checkout.apply("   "), "git checkout ");
    assert_eq!(Rule::Kill.apply(""), "kill ");
    assert_eq!(Rule::FirstField.apply(" \t"), "");
    assert_eq!(Rule::Add.apply("M"), "git add --");
    assert_eq!(Rule::Add.apply(""), "git add --");
}

#[test]
fn widget_commands_follow_their_rules() {
    assert_eq!(
        CheckoutGitBranch::<Fixed, Echo, Recorder>::command("feature/x extra"),
        "git checkout feature/x"
    );
    assert_eq!(
        GitAdd::<Fixed, Echo, Recorder>::command("M  path/to/file"),
        "git add --path/to/file"
    );
    assert_eq!(Kill::<Fixed, Echo, Recorder>::command("77 S zsh"), "kill 77");
    assert_eq!(InsertGitBranch::<Fixed, Echo, Recorder>::command("dev 1a2b"), "dev");
    assert_eq!(ExecuteHistory::<Fixed, Echo, Recorder>::command("ls -l"), "ls -l");
    assert_eq!(CdGhqRepository::<Fixed, Echo, Recorder>::command("/a b"), "/a b");
    assert_eq!(Cdr::<Fixed, Echo, Recorder>::command("~/x"), "~/x");
}

#[test]
fn checkout_hands_first_field_to_action() {
    let widget = CheckoutGitBranch::new(
        payload("main 1\nfeature/x extra\n"),
        Echo::picking("feature/x extra\n"),
        Recorder::new(),
    );
    assert_eq!(widget.name(), "checkout-git-branch");
    assert_eq!(widget.run(), Ok(()));
    assert_eq!(widget.action.items(), vec!["git checkout feature/x".to_string()]);
    assert_eq!(
        widget.selector.seen.borrow().clone(),
        vec![("main 1\nfeature/x extra\n".to_string(), None)]
    );
}

#[test]
fn git_add_hands_second_field_to_action() {
    let widget =
        GitAdd::new(payload("M  path/to/file\n"), Echo::picking("M  path/to/file"), Recorder::new());
    assert_eq!(widget.name(), "git-add");
    assert_eq!(widget.run(), Ok(()));
    assert_eq!(widget.action.items(), vec!["git add --path/to/file".to_string()]);
}

#[test]
fn whole_line_widgets_hand_the_line_on() {
    let history =
        ExecuteHistory::new(payload("ls -l\ncd ..\n"), Echo::picking(" cd ..\n"), Recorder::new());
    assert_eq!(history.name(), "execute-history");
    assert_eq!(history.run(), Ok(()));
    assert_eq!(history.action.items(), vec!["cd ..".to_string()]);

    let ghq = CdGhqRepository::new(payload("/r/a\n/r/b\n"), Echo::picking("/r/b"), Recorder::new());
    assert_eq!(ghq.name(), "cd-ghq-repository");
    assert_eq!(ghq.run(), Ok(()));
    assert_eq!(ghq.action.items(), vec!["/r/b".to_string()]);

    let cdr = Cdr::new(payload("~/a\n~/b c\n"), Echo::picking("~/b c"), Recorder::new());
    assert_eq!(cdr.name(), "cdr");
    assert_eq!(cdr.run(), Ok(()));
    assert_eq!(cdr.action.items(), vec!["~/b c".to_string()]);
}

#[test]
fn kill_and_insert_take_the_first_field() {
    let kill = Kill::new(payload("1 S init\n77 S zsh\n"), Echo::picking("77 S zsh"), Recorder::new());
    assert_eq!(kill.name(), "kill");
    assert_eq!(kill.run(), Ok(()));
    assert_eq!(kill.action.items(), vec!["kill 77".to_string()]);

    let insert =
        InsertGitBranch::new(payload("dev 1a2b\n"), Echo::picking("dev 1a2b"), Recorder::new());
    assert_eq!(insert.name(), "insert-git-branch");
    assert_eq!(insert.run(), Ok(()));
    assert_eq!(insert.action.items(), vec!["dev".to_string()]);
}

#[test]
fn empty_payload_aborts_before_action() {
    let widget = ExecuteHistory::new(payload(""), Echo::picking("anything"), Recorder::new());
    assert_eq!(
        widget.run(),
        Err(AnyframeError::SelectorNotFound("no item selected".to_string()))
    );
    assert!(widget.action.items().is_empty());
    assert_eq!(widget.selector.seen.borrow().len(), 1);
}

#[test]
fn cancellation_aborts_before_action() {
    let widget = Kill::new(payload("1 S init\n"), Echo::exiting(1), Recorder::new());
    assert_eq!(
        widget.run(),
        Err(AnyframeError::SelectorNotFound("selection cancelled".to_string()))
    );
    assert!(widget.action.items().is_empty());
}

#[test]
fn source_failure_aborts_before_selector() {
    let widget = GitAdd::new(
        Fixed(Err(AnyframeError::SourceError("git command failed: fatal".to_string()))),
        Echo::picking("x y"),
        Recorder::new(),
    );
    assert_eq!(
        widget.run(),
        Err(AnyframeError::SourceError("git command failed: fatal".to_string()))
    );
    assert!(widget.selector.seen.borrow().is_empty());
    assert!(widget.action.items().is_empty());
}

#[test]
fn action_failure_is_the_result() {
    let widget =
        CheckoutGitBranch::new(payload("dev 1\n"), Echo::picking("dev 1"), Recorder::failing());
    assert_eq!(widget.run(), Err(AnyframeError::ActionError("refused".to_string())));
    assert_eq!(widget.action.items(), vec!["git checkout dev".to_string()]);
}
