use anyframe_rs::actions::{ChangeDirectory, Execute, Insert, Put};
use anyframe_rs::error::AnyframeError;
use anyframe_rs::process::{Invocation, Output};
use anyframe_rs::selectors::{Fzf, FzfTmux, Peco, FZF_CANCELLED, PECO_CANCELLED};
use anyframe_rs::sources::{
    Cdr, Directory, DirectoryRead, GhqRepository, GitBranch, GitStatus, History, Process,
    StatusStage, StatusStep,
};

fn ended(code: i32, stdout: &str, stderr: &str) -> Result<Output, String> {
    Ok(Output {
        code: Some(code),
        stdout: stdout.as_bytes().to_vec(),
        stderr: stderr.as_bytes().to_vec(),
    })
}

fn shell(script: &str) -> Invocation {
    Invocation {
        program: "zsh".to_string(),
        args: vec!["-c".to_string(), script.to_string()],
        input: None,
    }
}

fn tool(program: &str, args: &[&str]) -> Invocation {
    Invocation {
        program: program.to_string(),
        args: args.iter().map(|a| a.to_string()).collect(),
        input: None,
    }
}

#[test]
fn error_text_has_heading_and_message() {
    assert_eq!(
        AnyframeError::SelectorNotFound("no item selected".to_string()).to_text(),
        "Selector not found: no item selected"
    );
    assert_eq!(AnyframeError::SourceError("x".to_string()).to_text(), "Source error: x");
    assert_eq!(AnyframeError::ActionError("y".to_string()).to_text(), "Action error: y");
    assert_eq!(AnyframeError::WidgetError("z".to_string()).to_text(), "Widget error: z");
    assert_eq!(AnyframeError::IoError("w".to_string()).to_text(), "IO error: w");
}

#[test]
fn output_success_is_exit_zero() {
    assert!(Output { code: Some(0), stdout: vec![], stderr: vec![] }.success());
    assert!(!Output { code: Some(1), stdout: vec![], stderr: vec![] }.success());
    assert!(!Output { code: None, stdout: vec![], stderr: vec![] }.success());
}

#[test]
fn selector_returns_echoed_line_trimmed() {
    let payload = "first\n  line two \nthird\n";
    let peco = Peco::new(None);
    let inv = peco.command(payload, None);
    assert_eq!(inv.input.as_deref(), Some(payload));
    assert_eq!(peco.outcome(ended(0, "  line two \n", "")), Ok("line two".to_string()));
    assert_eq!(Fzf::new(None).outcome(ended(0, "third\n", "")), Ok("third".to_string()));
    assert_eq!(FzfTmux::new(None).outcome(ended(0, "first", "")), Ok("first".to_string()));
}

#[test]
fn selector_cancellation_has_its_own_message() {
    let cancelled = Err(AnyframeError::SelectorNotFound("selection cancelled".to_string()));
    let nothing = Err(AnyframeError::SelectorNotFound("no item selected".to_string()));
    assert_eq!(PECO_CANCELLED, 1);
    assert_eq!(FZF_CANCELLED, 130);
    assert_eq!(Peco::new(None).outcome(ended(1, "", "")), cancelled);
    assert_eq!(Fzf::new(None).outcome(ended(130, "", "")), cancelled);
    assert_eq!(FzfTmux::new(None).outcome(ended(130, "", "")), cancelled);
    assert_eq!(Peco::new(None).outcome(ended(0, "", "")), nothing);
    assert_eq!(Fzf::new(None).outcome(ended(0, " \n", "")), nothing);
    assert_ne!(cancelled, nothing);
}

#[test]
fn selector_failure_carries_diagnostics() {
    assert_eq!(
        Peco::new(None).outcome(ended(130, "", "boom")),
        Err(AnyframeError::IoError("peco command failed: boom".to_string()))
    );
    assert_eq!(
        Fzf::new(None).outcome(ended(1, "", "no tty")),
        Err(AnyframeError::IoError("fzf command failed: no tty".to_string()))
    );
    assert_eq!(
        Peco::new(None).outcome(ended(1, "partial", "oops")),
        Err(AnyframeError::IoError("peco command failed: oops".to_string()))
    );
    assert_eq!(
        FzfTmux::new(None).outcome(Ok(Output {
            code: None,
            stdout: vec![],
            stderr: vec![b'k', 0xff, b'o'],
        })),
        Err(AnyframeError::IoError("fzf-tmux command failed: k\u{fffd}o".to_string()))
    );
    assert_eq!(
        Fzf::new(None).outcome(Err("No such file or directory (os error 2)".to_string())),
        Err(AnyframeError::IoError("No such file or directory (os error 2)".to_string()))
    );
}

#[test]
fn selector_output_must_be_utf8() {
    let bytes = vec![b'a', 0xff, b'b'];
    let why = String::from_utf8(bytes.clone()).unwrap_err().to_string();
    assert_eq!(
        Peco::new(None).outcome(Ok(Output { code: Some(0), stdout: bytes, stderr: vec![] })),
        Err(AnyframeError::IoError(format!("Invalid UTF-8 in peco output: {}", why)))
    );
}

#[test]
fn selector_command_carries_query_and_payload() {
    let peco = Peco::new(None);
    assert_eq!(peco.path, "peco");
    assert_eq!(peco.name(), "peco");
    assert_eq!(
        peco.command("a\nb\n", Some("ab")),
        Invocation {
            program: "peco".to_string(),
            args: vec!["--query".to_string(), "ab".to_string()],
            input: Some("a\nb\n".to_string()),
        }
    );
    let fzf = Fzf::new(Some("/opt/bin/fzf".to_string()));
    assert_eq!(fzf.name(), "fzf");
    assert_eq!(
        fzf.command("x", None),
        Invocation { program: "/opt/bin/fzf".to_string(), args: vec![], input: Some("x".to_string()) }
    );
    let tmux = FzfTmux::new(None);
    assert_eq!(tmux.path, "fzf-tmux");
    assert_eq!(tmux.name(), "fzf-tmux");
    assert_eq!(Fzf::new(None).path, "fzf");
}

#[test]
fn history_keeps_first_of_repeated_lines() {
    assert_eq!(History::dedup("a\nb\na\nc\n"), "a\nb\nc\n");
    assert_eq!(History::dedup("a\nb\na\nc"), "a\nb\nc\n");
    assert_eq!(History::dedup(""), "");
    assert_eq!(History::dedup("x\nx\nx\n"), "x\n");
    assert_eq!(History::dedup("ls -l\ncd ..\nls\nls -l\n\n\n"), "ls -l\ncd ..\nls\n\n");
}

#[test]
fn history_source() {
    assert_eq!(History.name(), "history");
    assert_eq!(History.command(), shell("history -n -r 1 | awk '!a[$0]++'"));
    assert_eq!(History.outcome(ended(0, "ls\ncd\nls\n", "")), Ok("ls\ncd\n".to_string()));
    assert_eq!(
        History.outcome(ended(1, "", "bad option")),
        Err(AnyframeError::SourceError("zsh command failed: bad option".to_string()))
    );
    assert_eq!(
        History.outcome(Err("not found".to_string())),
        Err(AnyframeError::SourceError("Failed to execute zsh: not found".to_string()))
    );
    let bytes = vec![0xc3, 0x28];
    let why = String::from_utf8(bytes.clone()).unwrap_err().to_string();
    assert_eq!(
        History.outcome(Ok(Output { code: Some(0), stdout: bytes, stderr: vec![] })),
        Err(AnyframeError::SourceError(format!("Invalid UTF-8 in history output: {}", why)))
    );
}

#[test]
fn directory_source() {
    assert_eq!(Directory.name(), "directory");
    assert_eq!(
        Directory.outcome(DirectoryRead::Entries(vec![
            Ok("src".to_string()),
            Ok("Cargo.toml".to_string()),
            Ok("a b".to_string()),
        ])),
        Ok("src\nCargo.toml\na b\n".to_string())
    );
    assert_eq!(Directory.outcome(DirectoryRead::Entries(vec![])), Ok(String::new()));
    assert_eq!(
        Directory.outcome(DirectoryRead::Entries(vec![
            Ok("src".to_string()),
            Err("first".to_string()),
            Ok("x".to_string()),
            Err("second".to_string()),
        ])),
        Err(AnyframeError::SourceError("Failed to read directory entry: first".to_string()))
    );
    assert_eq!(
        Directory.outcome(DirectoryRead::Unknown("gone".to_string())),
        Err(AnyframeError::SourceError("Failed to get current directory: gone".to_string()))
    );
    assert_eq!(
        Directory.outcome(DirectoryRead::Unreadable("denied".to_string())),
        Err(AnyframeError::SourceError("Failed to read directory: denied".to_string()))
    );
}

#[test]
fn git_branch_drops_or_unmarks_current() {
    let raw = "* main\n  dev\n";
    assert_eq!(GitBranch::new(false, false, false).arrange(raw), "dev");
    assert_eq!(GitBranch::new(true, false, false).arrange(raw), "main\ndev");
    let verbose = "  dev     1a2b3c4 Add thing\n* main    5d6e7f8 Fix *star*\n  remotes/origin/x 9 y";
    assert_eq!(
        GitBranch::new(true, false, true).arrange(verbose),
        "dev     1a2b3c4 Add thing\nmain    5d6e7f8 Fix *star*\nremotes/origin/x 9 y"
    );
    assert_eq!(
        GitBranch::new(false, false, true).arrange(verbose),
        "dev     1a2b3c4 Add thing\nremotes/origin/x 9 y"
    );
    assert_eq!(GitBranch::new(true, false, false).arrange(""), "");
    assert_eq!(GitBranch::new(true, false, false).arrange("*"), "");
    assert_eq!(GitBranch::new(false, false, false).arrange("* only\n"), "");
}

#[test]
fn git_branch_command_follows_flags() {
    let local = GitBranch::new(false, false, false);
    assert_eq!(local.name(), "git-branch");
    assert_eq!(local.command(), tool("git", &["branch", "--list", "-v"]));
    assert_eq!(
        GitBranch::new(false, true, false).command(),
        tool("git", &["branch", "--list", "-v", "-r"])
    );
    assert_eq!(
        GitBranch::new(false, false, true).command(),
        tool("git", &["branch", "--list", "-v", "-a"])
    );
    assert_eq!(
        GitBranch::new(true, true, true).command(),
        tool("git", &["branch", "--list", "-v", "-a"])
    );
}

#[test]
fn git_branch_outcome() {
    let source = GitBranch::new(false, false, false);
    assert_eq!(source.outcome(ended(0, "* main\n  dev\n", "")), Ok("dev".to_string()));
    assert_eq!(
        source.outcome(ended(128, "", "fatal: not a git repository")),
        Err(AnyframeError::SourceError(
            "git command failed: fatal: not a git repository".to_string()
        ))
    );
    assert_eq!(
        source.outcome(Err("missing".to_string())),
        Err(AnyframeError::SourceError("Failed to execute git: missing".to_string()))
    );
    let bytes = vec![0x80];
    let why = String::from_utf8(bytes.clone()).unwrap_err().to_string();
    assert_eq!(
        source.outcome(Ok(Output { code: Some(0), stdout: bytes, stderr: vec![] })),
        Err(AnyframeError::SourceError(format!("Invalid UTF-8 in branch output: {}", why)))
    );
}

#[test]
fn git_status_puts_root_before_path() {
    let all = GitStatus::new(None);
    assert_eq!(all.rewrite("../", " M file.txt"), " M\t../file.txt");
    assert_eq!(
        all.rewrite("../", " M file.txt\n?? new dir/x\nA  src/lib.rs\n"),
        " M\t../file.txt\n??\t../new dir/x\nA \t../src/lib.rs"
    );
    assert_eq!(all.rewrite("", "MM a"), "MM\ta");
    assert_eq!(all.rewrite("../", "ab\nabc\n"), "ab\nab\t../");
    assert_eq!(all.rewrite("../", ""), "");
}

#[test]
fn git_status_pattern_is_a_prefix() {
    let staged = GitStatus::new(Some("A ".to_string()));
    assert_eq!(
        staged.rewrite("", " M file.txt\nA  src/lib.rs\nA  b*\n"),
        "A \tsrc/lib.rs\nA \tb*"
    );
    let glob = GitStatus::new(Some("*".to_string()));
    assert_eq!(glob.rewrite("", " M file.txt\nA  src/lib.rs\n"), "");
    let tabbed = GitStatus::new(Some("??\t../n".to_string()));
    assert_eq!(tabbed.rewrite("../", "?? new\n?? old\n"), "??\t../new");
}

#[test]
fn git_status_commands_and_outcomes() {
    let source = GitStatus::new(None);
    assert_eq!(source.name(), "git-status");
    assert_eq!(source.pattern, None);
    assert_eq!(source.root_command(), tool("git", &["rev-parse", "--show-cdup"]));
    assert_eq!(source.status_command(), tool("git", &["status", "--porcelain"]));
    assert_eq!(source.root(ended(0, "../../\n", "")), Ok("../../".to_string()));
    assert_eq!(source.root(ended(0, "\n", "")), Ok(String::new()));
    assert_eq!(
        source.root(ended(128, "", "fatal")),
        Err(AnyframeError::SourceError("git command failed: fatal".to_string()))
    );
    let bytes = vec![0xff];
    let why = String::from_utf8(bytes.clone()).unwrap_err().to_string();
    assert_eq!(
        source.root(Ok(Output { code: Some(0), stdout: bytes.clone(), stderr: vec![] })),
        Err(AnyframeError::SourceError(format!("Invalid UTF-8 in base path output: {}", why)))
    );
    assert_eq!(
        source.outcome("../", ended(0, " M file.txt\n", "")),
        Ok(" M\t../file.txt".to_string())
    );
    assert_eq!(
        source.outcome("../", Err("gone".to_string())),
        Err(AnyframeError::SourceError("Failed to execute git: gone".to_string()))
    );
    assert_eq!(
        source.outcome("../", Ok(Output { code: Some(0), stdout: bytes, stderr: vec![] })),
        Err(AnyframeError::SourceError(format!("Invalid UTF-8 in status output: {}", why)))
    );
}

#[test]
fn process_and_ghq_sources() {
    assert_eq!(Process.name(), "process");
    assert_eq!(Process.command(), shell("ps -u $USER -o pid,stat,%cpu,%mem,cputime,command"));
    assert_eq!(
        Process.outcome(ended(0, "  PID STAT\n    1 Ss\n", "")),
        Ok("  PID STAT\n    1 Ss\n".to_string())
    );
    assert_eq!(
        Process.outcome(ended(1, "", "ps: bad")),
        Err(AnyframeError::SourceError("ps command failed: ps: bad".to_string()))
    );
    assert_eq!(GhqRepository.name(), "ghq-repository");
    assert_eq!(GhqRepository.command(), tool("ghq", &["list", "--full-path"]));
    assert_eq!(
        GhqRepository.outcome(ended(0, "/home/u/ghq/a\n/home/u/ghq/b\n", "")),
        Ok("/home/u/ghq/a\n/home/u/ghq/b\n".to_string())
    );
    assert_eq!(
        GhqRepository.outcome(Err("no ghq".to_string())),
        Err(AnyframeError::SourceError("Failed to execute ghq: no ghq".to_string()))
    );
}

#[test]
fn execute_escapes_quotes_and_dollars() {
    assert_eq!(Execute.name(), "execute");
    assert_eq!(
        Execute.script("echo \"$HOME\""),
        "BUFFER=\"echo \\\"\\$HOME\\\"\"; zle accept-line 2>/dev/null || eval \"$BUFFER\""
    );
    assert_eq!(
        Execute.script("a\\b \\\"x"),
        "BUFFER=\"a\\\\b \\\\\\\"x\"; zle accept-line 2>/dev/null || eval \"$BUFFER\""
    );
    assert_eq!(
        Execute.command("ls"),
        shell("BUFFER=\"ls\"; zle accept-line 2>/dev/null || eval \"$BUFFER\"")
    );
    assert_eq!(Execute.outcome(ended(0, "", "")), Ok(()));
    assert_eq!(
        Execute.outcome(ended(2, "", "nope")),
        Err(AnyframeError::ActionError("Execute command failed: nope".to_string()))
    );
    assert_eq!(
        Execute.outcome(Err("no zsh".to_string())),
        Err(AnyframeError::ActionError("Failed to execute command: no zsh".to_string()))
    );
}

#[test]
fn insert_pushes_onto_pending_input() {
    assert_eq!(Insert.name(), "insert");
    assert_eq!(Insert.script("feature/x"), "print -z \"feature/x\"");
    assert_eq!(Insert.script("x\"y$z"), "print -z \"x\\\"y\\$z\"");
    assert_eq!(Insert.script("a\\b"), "print -z \"a\\\\b\"");
    assert_eq!(Insert.script(""), "print -z \"\"");
    assert_eq!(Insert.command("dev"), shell("print -z \"dev\""));
    assert_eq!(Insert.outcome(ended(0, "", "")), Ok(()));
    assert_eq!(
        Insert.outcome(ended(1, "", "bad")),
        Err(AnyframeError::ActionError("Insert command failed: bad".to_string()))
    );
    assert_eq!(
        Insert.outcome(Err("e".to_string())),
        Err(AnyframeError::ActionError("Failed to execute insert command: e".to_string()))
    );
}

fn unescaped_specials(s: &str) -> usize {
    let mut count = 0;
    let mut chars = s.chars();
    while let Some(c) = chars.next() {
        if c == '\\' {
            assert!(chars.next().is_some(), "a backslash ends the text");
        } else if c == '"' || c == '$' {
            count += 1;
        }
    }
    count
}

#[test]
fn put_quotes_when_asked() {
    let quoting = Put::new(true);
    assert!(quoting.quote_item);
    assert_eq!(quoting.name(), "put");
    let placed = quoting.place("say \"hi\" for $5");
    assert_eq!(placed, "\\\"say \\\"hi\\\" for \\$5\\\"");
    assert_eq!(unescaped_specials(&placed), 0);
    assert_eq!(quoting.place("a\\b"), "\\\"a\\\\b\\\"");
    assert_eq!(unescaped_specials(&quoting.place("\\\"$\\\\$\"")), 0);
    assert_eq!(quoting.place(""), "\\\"\\\"");
    let plain = Put::new(false);
    assert_eq!(plain.place("say hi"), "say hi");
    assert_eq!(plain.place("say \"hi\" for $5"), "say \\\"hi\\\" for \\$5");
    assert_eq!(plain.place("a\\b"), "a\\\\b");
    assert_eq!(unescaped_specials(&plain.place("\\\"$\\\\$\"")), 0);
    assert_eq!(
        plain.script("echo \"$x\""),
        "BUFFER=\"echo \\\"\\$x\\\"\"; CURSOR=$#BUFFER; zle -R -c 2>/dev/null || print -z -f '%s' \"$BUFFER\""
    );
    assert_eq!(
        plain.script("ls"),
        "BUFFER=\"ls\"; CURSOR=$#BUFFER; zle -R -c 2>/dev/null || print -z -f '%s' \"$BUFFER\""
    );
    assert_eq!(
        quoting.command("a$b"),
        shell(
            "BUFFER=\"\\\"a\\$b\\\"\"; CURSOR=$#BUFFER; zle -R -c 2>/dev/null || print -z -f '%s' \"$BUFFER\""
        )
    );
    assert_eq!(plain.outcome(ended(0, "", "")), Ok(()));
    assert_eq!(
        plain.outcome(ended(1, "", "bad")),
        Err(AnyframeError::ActionError("Put command failed: bad".to_string()))
    );
    assert_eq!(
        plain.outcome(Err("e".to_string())),
        Err(AnyframeError::ActionError("Failed to execute put command: e".to_string()))
    );
}

#[test]
fn change_directory() {
    assert_eq!(ChangeDirectory.name(), "change-directory");
    assert_eq!(ChangeDirectory.script("/home/u/ghq/a"), "cd \"/home/u/ghq/a\"");
    assert_eq!(ChangeDirectory.script("/tmp/my dir"), "cd \"/tmp/my dir\"");
    assert_eq!(ChangeDirectory.script("/tmp/a;b\"c$d"), "cd \"/tmp/a;b\\\"c\\$d\"");
    assert_eq!(ChangeDirectory.script("a\\b"), "cd \"a\\\\b\"");
    assert_eq!(ChangeDirectory.command("/r/x"), shell("cd \"/r/x\""));
    assert_eq!(ChangeDirectory.outcome(ended(0, "", "")), Ok(()));
    assert_eq!(
        ChangeDirectory.outcome(ended(1, "", "no such directory")),
        Err(AnyframeError::ActionError("cd command failed: no such directory".to_string()))
    );
    assert_eq!(
        ChangeDirectory.outcome(Err("e".to_string())),
        Err(AnyframeError::ActionError("Failed to execute cd command: e".to_string()))
    );
}

#[test]
fn git_status_asks_for_root_then_listing() {
    let source = GitStatus::new(Some(" M".to_string()));
    let (first, stage) = source.start();
    assert_eq!(first, tool("git", &["rev-parse", "--show-cdup"]));
    assert_eq!(stage, StatusStage::Rooting);
    let step = source.advance(stage, ended(0, "../\n", ""));
    assert_eq!(
        step,
        StatusStep::Run(
            tool("git", &["status", "--porcelain"]),
            StatusStage::Listing("../".to_string())
        )
    );
    assert_eq!(
        source.advance(
            StatusStage::Listing("../".to_string()),
            ended(0, " M file.txt\n?? other\n", "")
        ),
        StatusStep::Done(Ok(" M\t../file.txt".to_string()))
    );
}

#[test]
fn git_status_stops_at_first_failure() {
    let source = GitStatus::new(None);
    assert_eq!(
        source.advance(StatusStage::Rooting, ended(128, "", "fatal: not a git repository")),
        StatusStep::Done(Err(AnyframeError::SourceError(
            "git command failed: fatal: not a git repository".to_string()
        )))
    );
    assert_eq!(
        source.advance(StatusStage::Listing(String::new()), Err("gone".to_string())),
        StatusStep::Done(Err(AnyframeError::SourceError(
            "Failed to execute git: gone".to_string()
        )))
    );
}

#[test]
fn history_dedup_is_stable() {
    let listing = "git status\nls -l\ncd ..\n";
    assert_eq!(History::dedup(listing), listing);
    for raw in ["a\nb\na\nc", "x\r\nx\n", "\n\n", "one", ""] {
        let once = History::dedup(raw);
        assert_eq!(History::dedup(&once), once, "{:?}", raw);
    }
    assert_eq!(History::dedup("x\r\nx\n"), "x\r\nx\n");
}

#[test]
fn cdr_source() {
    assert_eq!(Cdr.name(), "cdr");
    assert_eq!(Cdr.command(), shell("cdr -l | sed 's/^[^ ][^ ]*  *//'"));
    assert_eq!(Cdr.outcome(ended(0, "~/a\n~/b c\n", "")), Ok("~/a\n~/b c\n".to_string()));
    assert_eq!(
        Cdr.outcome(ended(127, "", "zsh: command not found: cdr")),
        Err(AnyframeError::SourceError(
            "zsh command failed: zsh: command not found: cdr".to_string()
        ))
    );
}

fn read_back(quoted: &str) -> String {
    let mut out = String::new();
    let mut chars = quoted.chars().peekable();
    while let Some(c) = chars.next() {
        if c == '\\' {
            match chars.peek().copied() {
                Some(n) if n == '"' || n == '$' || n == '\\' => {
                    out.push(n);
                    chars.next();
                }
                _ => out.push(c),
            }
        } else {
            out.push(c);
        }
    }
    out
}

#[test]
fn embedded_items_read_back_unchanged() {
    let items = ["", "plain", "x\"y$z", "/tmp/my dir", "a\\b", "\\\"", "$(rm -rf x); \"q\" \\$"];
    for item in items {
        let insert = Insert.script(item);
        let body = insert.strip_prefix("print -z \"").unwrap().strip_suffix('"').unwrap();
        assert_eq!(unescaped_specials(body), 0, "{:?}", item);
        assert_eq!(read_back(body), item);

        let cd = ChangeDirectory.script(item);
        let body = cd.strip_prefix("cd \"").unwrap().strip_suffix('"').unwrap();
        assert_eq!(unescaped_specials(body), 0, "{:?}", item);
        assert_eq!(read_back(body), item);

        let execute = Execute.script(item);
        let body = execute
            .strip_prefix("BUFFER=\"")
            .unwrap()
            .strip_suffix("\"; zle accept-line 2>/dev/null || eval \"$BUFFER\"")
            .unwrap();
        assert_eq!(unescaped_specials(body), 0, "{:?}", item);
        assert_eq!(read_back(body), item);

        let placed = Put::new(false).place(item);
        assert_eq!(unescaped_specials(&placed), 0, "{:?}", item);
        assert_eq!(read_back(&placed), item);

        let quoted = Put::new(true).place(item);
        assert!(quoted.starts_with("\\\"") && quoted.ends_with("\\\"") && quoted.len() >= 4);
        assert_eq!(unescaped_specials(&quoted), 0, "{:?}", item);
        assert_eq!(read_back(&quoted), format!("\"{}\"", item));
    }
}
