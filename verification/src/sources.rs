//! Sources: where the candidate lines come from.
//!
//! A source says which tool lists its candidates and turns what the tool
//! wrote into the payload that is shown to the user.

use crate::error::{text_outcome, AnyframeError, Failure};
use crate::process::{read_run, reading, shell, shell_run, Invocation, Output};
use crate::text::{
    append_range, chars_of, copy_range, feed_free, is_space, join_lines, joined, left_trimmed,
    lemma_run, lemma_split_lines_are_feed_free, lemma_split_of_terminated, rows, scan, split,
    split_lines, starts_with, string_from, terminate_lines, terminated, texts, trim, trimmed,
    Class,
};
use vstd::prelude::*;

verus! {

/// A producer of candidate lines.
pub trait Source {
    /// Whether `r` is a result that `get_data` may return. A source that
    /// says nothing of its results admits them all.
    open spec fn yields(&self, r: Result<String, AnyframeError>) -> bool {
        true
    }

    /// The candidates, one per line.
    fn get_data(&self) -> (r: Result<String, AnyframeError>)
        ensures
            self.yields(r),
    ;

    /// The name of the source.
    fn name(&self) -> &str;
}

/// What a tool's run comes to for a source: the text that the tool wrote,
/// or a `SourceError` whose message is that of [`reading`].
pub open spec fn listing(
    ran: Result<Output, String>,
    unstarted: Seq<char>,
    failed: Seq<char>,
    undecoded: Seq<char>,
) -> Result<Seq<char>, Failure> {
    match reading(ran, unstarted, failed, undecoded) {
        Ok(text) => Ok(text),
        Err(m) => Err(Failure::SourceError(m)),
    }
}

/// Reads a tool's run for a source: see [`listing`].
pub fn read_listing(ran: Result<Output, String>, unstarted: &str, failed: &str, undecoded: &str)
    -> (r: Result<String, AnyframeError>)
    ensures
        text_outcome(r) == listing(ran, unstarted@, failed@, undecoded@),
{
    match read_run(ran, unstarted, failed, undecoded) {
        Ok(text) => Ok(text),
        Err(m) => Err(AnyframeError::SourceError(m)),
    }
}

/// The run of `program` with the arguments `args` and no input.
pub open spec fn tool_run(program: Seq<char>, args: Seq<Seq<char>>, inv: Invocation) -> bool {
    &&& inv.program@ == program
    &&& texts(inv.args@) == args
    &&& inv.input is None
}

/// The lines without those that occurred before: of equal lines the first
/// stays, and what stays keeps its order.
pub open spec fn unique(lines: Seq<Seq<char>>) -> Seq<Seq<char>>
    decreases lines.len(),
{
    if lines.len() == 0 {
        Seq::empty()
    } else if lines.drop_last().contains(lines.last()) {
        unique(lines.drop_last())
    } else {
        unique(lines.drop_last()).push(lines.last())
    }
}

/// Deduplication keeps exactly the lines that occur, each of them once.
pub proof fn lemma_unique(lines: Seq<Seq<char>>)
    ensures
        forall|x: Seq<char>| #[trigger] unique(lines).contains(x) <==> lines.contains(x),
        unique(lines).no_duplicates(),
    decreases lines.len(),
{
    if lines.len() > 0 {
        let init = lines.drop_last();
        let last = lines.last();
        let u = unique(init);
        lemma_unique(init);
        assert forall|x: Seq<char>| #[trigger] unique(lines).contains(x) <==> lines.contains(
            x,
        ) by {
            if lines.contains(x) {
                let j = choose|j: int| 0 <= j < lines.len() && lines[j] == x;
                if j < init.len() {
                    assert(init[j] == x);
                    assert(init.contains(x));
                }
            }
            if init.contains(x) {
                let j = choose|j: int| 0 <= j < init.len() && init[j] == x;
                assert(lines[j] == x);
            }
            assert(lines[lines.len() - 1] == last);
            if !init.contains(last) {
                let w = u.push(last);
                assert(w[u.len() as int] == last);
                if u.contains(x) {
                    let j = choose|j: int| 0 <= j < u.len() && u[j] == x;
                    assert(w[j] == x);
                }
                if w.contains(x) {
                    let j = choose|j: int| 0 <= j < w.len() && w[j] == x;
                    if j < u.len() {
                        assert(u[j] == x);
                    }
                }
            }
        }
        if !init.contains(last) {
            let w = u.push(last);
            assert forall|i: int, j: int| 0 <= i < w.len() && 0 <= j < w.len() && i != j implies w[i]
                != w[j] by {
                if i < u.len() && j < u.len() {
                } else if i < u.len() {
                    assert(u[i] == w[i]);
                    assert(u.contains(w[i]));
                } else {
                    assert(u[j] == w[j]);
                    assert(u.contains(w[j]));
                }
            }
        }
    }
}

/// Lines of which none occurs twice stay as they are.
pub proof fn lemma_unique_of_distinct(lines: Seq<Seq<char>>)
    requires
        lines.no_duplicates(),
    ensures
        unique(lines) == lines,
    decreases lines.len(),
{
    if lines.len() > 0 {
        let init = lines.drop_last();
        lemma_unique_of_distinct(init);
        if init.contains(lines.last()) {
            let j = choose|j: int| 0 <= j < init.len() && init[j] == lines.last();
            assert(lines[j] == lines[lines.len() - 1]);
        }
        assert(init.push(lines.last()) =~= lines);
    }
}

/// Tells whether two texts are the same.
fn same(a: &Vec<char>, b: &Vec<char>) -> (r: bool)
    ensures
        r == (a@ == b@),
{
    if a.len() != b.len() {
        return false;
    }
    let mut i: usize = 0;
    while i < a.len()
        invariant
            i <= a.len() == b.len(),
            forall|j: int| 0 <= j < i ==> a@[j] == b@[j],
        decreases a.len() - i,
    {
        if a[i] != b[i] {
            return false;
        }
        i += 1;
    }
    assert(a@ =~= b@);
    true
}

/// Tells whether `line` is among `lines`.
fn holds(lines: &Vec<Vec<char>>, line: &Vec<char>) -> (r: bool)
    ensures
        r == rows(lines@).contains(line@),
{
    let mut i: usize = 0;
    while i < lines.len()
        invariant
            i <= lines.len(),
            forall|j: int| 0 <= j < i ==> rows(lines@)[j] != line@,
        decreases lines.len() - i,
    {
        if same(&lines[i], line) {
            assert(rows(lines@)[i as int] == line@);
            return true;
        }
        i += 1;
    }
    false
}

/// The command history of the shell, most recent first, each command once.
#[derive(Debug, Clone, Copy, PartialEq, Eq)]
pub struct History;

impl History {
    /// The payload made of the history listing `raw`: its lines without
    /// those that occurred before, each followed by a line feed.
    pub open spec fn payload(raw: Seq<char>) -> Seq<char> {
        terminated(unique(split(raw, false)))
    }

    /// A listing without repeated lines, each line followed by a line feed,
    /// is its own payload.
    pub proof fn lemma_deduplicated_stays(lines: Seq<Seq<char>>)
        requires
            lines.no_duplicates(),
            forall|i: int| 0 <= i < lines.len() ==> feed_free(#[trigger] lines[i]),
        ensures
            Self::payload(terminated(lines)) == terminated(lines),
    {
        lemma_split_of_terminated(lines);
        lemma_unique_of_distinct(lines);
    }

    /// Deduplicating twice gives what deduplicating once gives.
    pub proof fn lemma_payload_is_stable(raw: Seq<char>)
        ensures
            Self::payload(Self::payload(raw)) == Self::payload(raw),
    {
        let lines = split(raw, false);
        let kept = unique(lines);
        lemma_unique(lines);
        lemma_split_lines_are_feed_free(raw, false);
        assert forall|i: int| 0 <= i < kept.len() implies feed_free(#[trigger] kept[i]) by {
            assert(kept.contains(kept[i]));
            let j = choose|j: int| 0 <= j < lines.len() && lines[j] == kept[i];
            assert(feed_free(lines[j]));
        }
        Self::lemma_deduplicated_stays(kept);
    }

    /// The shell's run that lists the history, most recent first, and drops
    /// the repeated lines.
    pub fn command(&self) -> (inv: Invocation)
        ensures
            shell_run("history -n -r 1 | awk '!a[$0]++'"@, inv),
    {
        shell("history -n -r 1 | awk '!a[$0]++'".to_string())
    }

    /// The lines of `raw` without those that occurred before, each followed
    /// by a line feed.
    pub fn dedup(raw: &str) -> (r: String)
        ensures
            r@ == Self::payload(raw@),
    {
        let v = chars_of(raw);
        let lines = split_lines(&v, false);
        let mut kept: Vec<Vec<char>> = Vec::new();
        let mut i: usize = 0;
        proof {
            assert(rows(lines@).take(0) =~= Seq::<Seq<char>>::empty());
            assert(rows(kept@) =~= Seq::<Seq<char>>::empty());
        }
        while i < lines.len()
            invariant
                i <= lines.len(),
                rows(kept@) == unique(rows(lines@).take(i as int)),
            decreases lines.len() - i,
        {
            let line = &lines[i];
            let ghost before = rows(kept@);
            proof {
                lemma_unique(rows(lines@).take(i as int));
                let done = rows(lines@).take(i + 1);
                assert(done.drop_last() =~= rows(lines@).take(i as int));
                assert(done.last() == line@);
            }
            if !holds(&kept, line) {
                let copy = copy_range(line, 0, line.len());
                assert(copy@ =~= line@);
                kept.push(copy);
                assert(rows(kept@) =~= before.push(line@));
            }
            i += 1;
        }
        proof {
            assert(rows(lines@).take(lines.len() as int) =~= rows(lines@));
        }
        let out = terminate_lines(&kept);
        string_from(&out)
    }

    /// The payload where the shell ran, succeeded and wrote UTF-8; else a
    /// `SourceError` that says which of these failed.
    pub fn outcome(&self, ran: Result<Output, String>) -> (r: Result<String, AnyframeError>)
        ensures
            text_outcome(r) == match listing(
                ran,
                "Failed to execute zsh: "@,
                "zsh command failed: "@,
                "Invalid UTF-8 in history output: "@,
            ) {
                Ok(raw) => Ok(Self::payload(raw)),
                Err(e) => Err(e),
            },
    {
        match read_listing(
            ran,
            "Failed to execute zsh: ",
            "zsh command failed: ",
            "Invalid UTF-8 in history output: ",
        ) {
            Ok(raw) => Ok(Self::dedup(raw.as_str())),
            Err(e) => Err(e),
        }
    }

    /// The name of the source.
    pub fn name(&self) -> (r: &'static str)
        ensures
            r@ == "history"@,
    {
        "history"
    }
}

/// What reading the current directory gave.
#[derive(Debug, Clone, PartialEq, Eq)]
pub enum DirectoryRead {
    /// The current directory could not be told; the cause.
    Unknown(String),
    /// The directory could not be opened; the cause.
    Unreadable(String),
    /// The entries in the order in which the file system gave them: a name,
    /// or the cause for which the entry could not be read.
    Entries(Vec<Result<String, String>>),
}

/// The cause of the first entry that could not be read, if there is one.
pub open spec fn first_unread(entries: Seq<Result<String, String>>) -> Option<Seq<char>>
    decreases entries.len(),
{
    if entries.len() == 0 {
        None
    } else {
        match first_unread(entries.drop_last()) {
            Some(cause) => Some(cause),
            None => match entries.last() {
                Ok(_) => None,
                Err(cause) => Some(cause@),
            },
        }
    }
}

/// The names of the entries, one after the other.
pub open spec fn entry_names(entries: Seq<Result<String, String>>) -> Seq<Seq<char>> {
    entries.map_values(
        |e: Result<String, String>|
            match e {
                Ok(name) => name@,
                Err(_) => Seq::<char>::empty(),
            },
    )
}

/// The names of the entries in the current directory.
#[derive(Debug, Clone, Copy, PartialEq, Eq)]
pub struct Directory;

impl Directory {
    /// What a reading of the current directory comes to: the names in the
    /// order given, each followed by a line feed, or a `SourceError` for the
    /// first thing that failed.
    pub open spec fn payload(read: DirectoryRead) -> Result<Seq<char>, Failure> {
        match read {
            DirectoryRead::Unknown(cause) => Err(
                Failure::SourceError("Failed to get current directory: "@ + cause@),
            ),
            DirectoryRead::Unreadable(cause) => Err(
                Failure::SourceError("Failed to read directory: "@ + cause@),
            ),
            DirectoryRead::Entries(entries) => match first_unread(entries@) {
                Some(cause) => Err(
                    Failure::SourceError("Failed to read directory entry: "@ + cause),
                ),
                None => Ok(terminated(entry_names(entries@))),
            },
        }
    }

    /// The payload for a reading of the current directory.
    pub fn outcome(&self, read: DirectoryRead) -> (r: Result<String, AnyframeError>)
        ensures
            text_outcome(r) == Self::payload(read),
    {
        match read {
            DirectoryRead::Unknown(cause) => Err(
                AnyframeError::SourceError(
                    "Failed to get current directory: ".to_string().concat(cause.as_str()),
                ),
            ),
            DirectoryRead::Unreadable(cause) => Err(
                AnyframeError::SourceError(
                    "Failed to read directory: ".to_string().concat(cause.as_str()),
                ),
            ),
            DirectoryRead::Entries(entries) => {
                let mut out = String::new();
                let mut i: usize = 0;
                proof {
                    assert(entries@.take(0) =~= Seq::<Result<String, String>>::empty());
                    assert(entry_names(entries@.take(0)) =~= Seq::<Seq<char>>::empty());
                }
                while i < entries.len()
                    invariant
                        i <= entries.len(),
                        read == DirectoryRead::Entries(entries),
                        first_unread(entries@.take(i as int)) is None,
                        out@ == terminated(entry_names(entries@.take(i as int))),
                    decreases entries.len() - i,
                {
                    let ghost before = entries@.take(i as int);
                    let ghost done = entries@.take(i + 1);
                    proof {
                        assert(done.drop_last() =~= before);
                        assert(done.last() == entries@[i as int]);
                    }
                    match &entries[i] {
                        Ok(name) => {
                            out.append(name.as_str());
                            out.append("\n");
                            proof {
                                reveal_strlit("\n");
                                assert("\n"@ =~= seq!['\n']);
                                assert(entry_names(done).drop_last() =~= entry_names(before));
                                assert(entry_names(done).last() == name@);
                            }
                        },
                        Err(cause) => {
                            proof {
                                assert(first_unread(done) == Some(cause@));
                                lemma_first_unread_stays(entries@, i + 1);
                            }
                            return Err(
                                AnyframeError::SourceError(
                                    "Failed to read directory entry: ".to_string().concat(
                                        cause.as_str(),
                                    ),
                                ),
                            );
                        },
                    }
                    i += 1;
                }
                proof {
                    assert(entries@.take(entries.len() as int) =~= entries@);
                }
                Ok(out)
            },
        }
    }

    /// The name of the source.
    pub fn name(&self) -> (r: &'static str)
        ensures
            r@ == "directory"@,
    {
        "directory"
    }
}

/// An entry that could not be read among the first `n` is still the first
/// such entry among all.
pub proof fn lemma_first_unread_stays(entries: Seq<Result<String, String>>, n: int)
    requires
        0 <= n <= entries.len(),
        first_unread(entries.take(n)) is Some,
    ensures
        first_unread(entries) == first_unread(entries.take(n)),
    decreases entries.len() - n,
{
    if n < entries.len() {
        assert(entries.drop_last().take(n) =~= entries.take(n));
        lemma_first_unread_stays(entries.drop_last(), n);
    } else {
        assert(entries.take(n) =~= entries);
    }
}

/// Whether a line of the branch listing carries the mark of the current
/// branch.
pub open spec fn is_current(line: Seq<char>) -> bool {
    line.len() > 0 && line[0] == '*'
}

/// A line of the branch listing as it is shown: without the mark of the
/// current branch and without white space in front.
pub open spec fn branch_entry(line: Seq<char>) -> Seq<char> {
    if is_current(line) {
        left_trimmed(line.drop_first())
    } else {
        left_trimmed(line)
    }
}

/// A shown line of the branch listing does not begin with white space.
pub proof fn lemma_branch_entry_is_left_trimmed(line: Seq<char>)
    ensures
        branch_entry(line).len() > 0 ==> !is_space(branch_entry(line)[0]),
{
    if is_current(line) {
        lemma_run(line.drop_first(), Class::Space);
    } else {
        lemma_run(line, Class::Space);
    }
}

/// The lines of the branch listing that are shown.
pub open spec fn shown_branches(include_current: bool) -> spec_fn(Seq<char>) -> bool {
    |line: Seq<char>| include_current || !is_current(line)
}

/// How each line of the branch listing is shown.
pub open spec fn branch_entries() -> spec_fn(Seq<char>) -> Seq<char> {
    |line: Seq<char>| branch_entry(line)
}

/// What a filter keeps was there before.
pub proof fn lemma_filtered_is_contained(
    lines: Seq<Seq<char>>,
    keep: spec_fn(Seq<char>) -> bool,
    i: int,
)
    requires
        0 <= i < lines.filter(keep).len(),
    ensures
        lines.contains(lines.filter(keep)[i]),
    decreases lines.len(),
{
    reveal(Seq::filter);
    if lines.len() > 0 {
        let init = lines.drop_last();
        if i < init.filter(keep).len() {
            lemma_filtered_is_contained(init, keep, i);
            let x = init.filter(keep)[i];
            let j = choose|j: int| 0 <= j < init.len() && init[j] == x;
            assert(lines[j] == x);
        } else {
            assert(lines[lines.len() - 1] == lines.last());
        }
    }
}

/// The branches of the repository, with the commit each stands at.
#[derive(Debug, Clone, Copy, PartialEq, Eq)]
pub struct GitBranch {
    /// Whether the current branch is listed too.
    pub include_current_branch: bool,
    /// Whether the remote branches are listed in place of the local ones.
    pub show_remote_branches: bool,
    /// Whether remote and local branches are listed together.
    pub show_all_branches: bool,
}

impl GitBranch {
    /// A branch source with the three choices as given.
    pub fn new(include_current_branch: bool, show_remote_branches: bool, show_all_branches: bool)
        -> (r: Self)
        ensures
            r.include_current_branch == include_current_branch,
            r.show_remote_branches == show_remote_branches,
            r.show_all_branches == show_all_branches,
    {
        Self { include_current_branch, show_remote_branches, show_all_branches }
    }

    /// The arguments of the listing: verbose, and with `-a` for all
    /// branches, else with `-r` for the remote ones, else the local ones.
    pub open spec fn arguments(self) -> Seq<Seq<char>> {
        if self.show_all_branches {
            seq!["branch"@, "--list"@, "-v"@, "-a"@]
        } else if self.show_remote_branches {
            seq!["branch"@, "--list"@, "-v"@, "-r"@]
        } else {
            seq!["branch"@, "--list"@, "-v"@]
        }
    }

    /// The payload made of the branch listing `raw`: every line without the
    /// white space in front, the line of the current branch without its
    /// mark, or left out where the current branch is not listed; a line
    /// feed between each two.
    pub open spec fn payload(self, raw: Seq<char>) -> Seq<char> {
        joined(self.entries(raw))
    }

    /// The lines of the payload made of the branch listing `raw`.
    pub open spec fn entries(self, raw: Seq<char>) -> Seq<Seq<char>> {
        split(raw, true).filter(shown_branches(self.include_current_branch)).map_values(
            branch_entries(),
        )
    }

    /// Where the current branch is not listed, no line of the payload comes
    /// from a marked line; every line of it is a line of the listing, shown.
    pub proof fn lemma_entries_are_shown(self, raw: Seq<char>, i: int)
        requires
            0 <= i < self.entries(raw).len(),
        ensures
            exists|line: Seq<char>|
                split(raw, true).contains(line) && (self.include_current_branch || !is_current(
                    line,
                )) && self.entries(raw)[i] == #[trigger] branch_entry(line),
    {
        let keep = shown_branches(self.include_current_branch);
        let lines = split(raw, true);
        let kept = lines.filter(keep);
        lines.lemma_filter_pred(keep, i);
        let line = kept[i];
        assert(lines.contains(line)) by {
            lemma_filtered_is_contained(lines, keep, i);
        }
        assert(self.entries(raw)[i] == branch_entry(line));
    }

    /// The run of git that lists the branches.
    pub fn command(&self) -> (inv: Invocation)
        ensures
            tool_run("git"@, self.arguments(), inv),
    {
        let mut args: Vec<String> = Vec::new();
        args.push("branch".to_string());
        args.push("--list".to_string());
        args.push("-v".to_string());
        if self.show_all_branches {
            args.push("-a".to_string());
        } else if self.show_remote_branches {
            args.push("-r".to_string());
        }
        assert(texts(args@) =~= self.arguments());
        Invocation { program: "git".to_string(), args, input: None }
    }

    /// The payload made of the branch listing `raw`.
    pub fn arrange(&self, raw: &str) -> (r: String)
        ensures
            r@ == self.payload(raw@),
    {
        let v = chars_of(raw);
        let lines = split_lines(&v, true);
        let mut shown: Vec<Vec<char>> = Vec::new();
        let mut i: usize = 0;
        let ghost keep = shown_branches(self.include_current_branch);
        let ghost show = branch_entries();
        proof {
            assert(rows(lines@).take(0) =~= Seq::<Seq<char>>::empty());
            assert(Seq::<Seq<char>>::empty().filter(keep) =~= Seq::<Seq<char>>::empty()) by {
                reveal(Seq::filter);
            }
            assert(rows(shown@) =~= rows(lines@).take(0).filter(keep).map_values(show));
        }
        while i < lines.len()
            invariant
                i <= lines.len(),
                keep == shown_branches(self.include_current_branch),
                show == branch_entries(),
                rows(shown@) == rows(lines@).take(i as int).filter(keep).map_values(show),
            decreases lines.len() - i,
        {
            let line = &lines[i];
            let len = line.len();
            let ghost before = rows(lines@).take(i as int);
            let ghost old_shown = rows(shown@);
            proof {
                assert(rows(lines@).take(i + 1) =~= before.push(line@));
                before.lemma_filter_push(line@, keep);
                before.filter(keep).lemma_push_map_commute(show, line@);
            }
            let current = len > 0 && line[0] == '*';
            if !current || self.include_current_branch {
                let from: usize = if current {
                    1
                } else {
                    0
                };
                let a = scan(line, from, len, Class::Space);
                let entry = copy_range(line, a, len);
                proof {
                    if current {
                        assert(line@.drop_first() =~= line@.subrange(1, len as int));
                    } else {
                        assert(line@ =~= line@.subrange(0, len as int));
                    }
                    assert(entry@ =~= branch_entry(line@));
                }
                shown.push(entry);
                assert(rows(shown@) =~= old_shown.push(branch_entry(line@)));
            }
            i += 1;
        }
        proof {
            assert(rows(lines@).take(lines.len() as int) =~= rows(lines@));
        }
        let out = join_lines(&shown);
        string_from(&out)
    }

    /// The payload where git ran, succeeded and wrote UTF-8; else a
    /// `SourceError` that says which of these failed.
    pub fn outcome(&self, ran: Result<Output, String>) -> (r: Result<String, AnyframeError>)
        ensures
            text_outcome(r) == match listing(
                ran,
                "Failed to execute git: "@,
                "git command failed: "@,
                "Invalid UTF-8 in branch output: "@,
            ) {
                Ok(raw) => Ok(self.payload(raw)),
                Err(e) => Err(e),
            },
    {
        match read_listing(
            ran,
            "Failed to execute git: ",
            "git command failed: ",
            "Invalid UTF-8 in branch output: ",
        ) {
            Ok(raw) => Ok(self.arrange(raw.as_str())),
            Err(e) => Err(e),
        }
    }

    /// The name of the source.
    pub fn name(&self) -> (r: &'static str)
        ensures
            r@ == "git-branch"@,
    {
        "git-branch"
    }
}

/// A line of the status listing as it is shown: the two characters of the
/// status, a tab, then the path with `root` in front; the character between
/// status and path is dropped. A line of fewer than three characters stays
/// as it is.
pub open spec fn status_entry(root: Seq<char>, line: Seq<char>) -> Seq<char> {
    if line.len() >= 3 {
        line.take(2) + seq!['\t'] + root + line.skip(3)
    } else {
        line
    }
}

/// How each line of the status listing is shown.
pub open spec fn status_entries(root: Seq<char>) -> spec_fn(Seq<char>) -> Seq<char> {
    |line: Seq<char>| status_entry(root, line)
}

/// The shown lines that pass: all of them without a pattern, else those
/// that begin with it.
pub open spec fn matching(pattern: Option<Seq<char>>) -> spec_fn(Seq<char>) -> bool {
    |line: Seq<char>|
        match pattern {
            Some(p) => p.is_prefix_of(line),
            None => true,
        }
}

/// The text of an optional pattern.
pub open spec fn pattern_text(pattern: Option<String>) -> Option<Seq<char>> {
    match pattern {
        Some(p) => Some(p@),
        None => None,
    }
}

/// Where a status source stands between its two runs of git.
#[derive(Debug, Clone, PartialEq, Eq)]
pub enum StatusStage {
    /// The way up to the repository's root was asked for.
    Rooting,
    /// The status listing was asked for; the way up to the root is known.
    Listing(String),
}

/// What a status source does next.
#[derive(Debug, PartialEq, Eq)]
pub enum StatusStep {
    /// Run this, and come back with how it ended, at this stage.
    Run(Invocation, StatusStage),
    /// The source is done, with this result.
    Done(Result<String, AnyframeError>),
}

/// The files that git reports as changed, with their status.
#[derive(Debug, Clone, PartialEq, Eq)]
pub struct GitStatus {
    /// The text with which a shown line must begin, if any.
    pub pattern: Option<String>,
}

impl GitStatus {
    /// A status source that keeps the lines that begin with `pattern`, or
    /// all lines where none is given.
    pub fn new(pattern: Option<String>) -> (r: Self)
        ensures
            r.pattern == pattern,
    {
        Self { pattern }
    }

    /// The payload made of the status listing `raw`: every line shown with
    /// `root` before its path, those that do not match the pattern left out,
    /// a line feed between each two.
    pub open spec fn payload(self, root: Seq<char>, raw: Seq<char>) -> Seq<char> {
        joined(self.entries(root, raw))
    }

    /// The lines of the payload made of the status listing `raw`.
    pub open spec fn entries(self, root: Seq<char>, raw: Seq<char>) -> Seq<Seq<char>> {
        split(raw, true).map_values(status_entries(root)).filter(
            matching(pattern_text(self.pattern)),
        )
    }

    /// Every line of the payload begins with the pattern, where there is
    /// one.
    pub proof fn lemma_entries_match(self, root: Seq<char>, raw: Seq<char>, i: int)
        requires
            0 <= i < self.entries(root, raw).len(),
        ensures
            match self.pattern {
                Some(p) => p@.is_prefix_of(self.entries(root, raw)[i]),
                None => true,
            },
    {
        let keep = matching(pattern_text(self.pattern));
        split(raw, true).map_values(status_entries(root)).lemma_filter_pred(keep, i);
        assert(keep(self.entries(root, raw)[i]));
    }

    /// The run of git that tells the way from here up to the repository's
    /// root.
    pub fn root_command(&self) -> (inv: Invocation)
        ensures
            tool_run("git"@, seq!["rev-parse"@, "--show-cdup"@], inv),
    {
        let mut args: Vec<String> = Vec::new();
        args.push("rev-parse".to_string());
        args.push("--show-cdup".to_string());
        assert(texts(args@) =~= seq!["rev-parse"@, "--show-cdup"@]);
        Invocation { program: "git".to_string(), args, input: None }
    }

    /// The run of git that lists the changed files, two status characters
    /// before each path.
    pub fn status_command(&self) -> (inv: Invocation)
        ensures
            tool_run("git"@, seq!["status"@, "--porcelain"@], inv),
    {
        let mut args: Vec<String> = Vec::new();
        args.push("status".to_string());
        args.push("--porcelain".to_string());
        assert(texts(args@) =~= seq!["status"@, "--porcelain"@]);
        Invocation { program: "git".to_string(), args, input: None }
    }

    /// The way up to the repository's root, trimmed, where git ran,
    /// succeeded and wrote UTF-8; else a `SourceError` that says which of
    /// these failed.
    pub fn root(&self, ran: Result<Output, String>) -> (r: Result<String, AnyframeError>)
        ensures
            text_outcome(r) == match listing(
                ran,
                "Failed to execute git: "@,
                "git command failed: "@,
                "Invalid UTF-8 in base path output: "@,
            ) {
                Ok(raw) => Ok(trimmed(raw)),
                Err(e) => Err(e),
            },
    {
        match read_listing(
            ran,
            "Failed to execute git: ",
            "git command failed: ",
            "Invalid UTF-8 in base path output: ",
        ) {
            Ok(raw) => Ok(trim(raw.as_str())),
            Err(e) => Err(e),
        }
    }

    /// The payload made of the status listing `raw`, with `root` before each
    /// path.
    pub fn rewrite(&self, root: &str, raw: &str) -> (r: String)
        ensures
            r@ == self.payload(root@, raw@),
    {
        let base = chars_of(root);
        let v = chars_of(raw);
        let lines = split_lines(&v, true);
        let wanted: Option<Vec<char>> = match &self.pattern {
            Some(p) => Some(chars_of(p.as_str())),
            None => None,
        };
        let mut shown: Vec<Vec<char>> = Vec::new();
        let mut i: usize = 0;
        let ghost show = status_entries(root@);
        let ghost keep = matching(pattern_text(self.pattern));
        proof {
            assert(rows(lines@).take(0) =~= Seq::<Seq<char>>::empty());
            assert(Seq::<Seq<char>>::empty().filter(keep) =~= Seq::<Seq<char>>::empty()) by {
                reveal(Seq::filter);
            }
            assert(rows(shown@) =~= rows(lines@).take(0).map_values(show).filter(keep));
        }
        while i < lines.len()
            invariant
                i <= lines.len(),
                base@ == root@,
                show == status_entries(root@),
                keep == matching(pattern_text(self.pattern)),
                match wanted {
                    Some(w) => pattern_text(self.pattern) == Some(w@),
                    None => pattern_text(self.pattern) is None,
                },
                rows(shown@) == rows(lines@).take(i as int).map_values(show).filter(keep),
            decreases lines.len() - i,
        {
            let line = &lines[i];
            let len = line.len();
            let ghost before = rows(lines@).take(i as int);
            let ghost old_shown = rows(shown@);
            proof {
                assert(rows(lines@).take(i + 1) =~= before.push(line@));
                before.lemma_push_map_commute(show, line@);
                before.map_values(show).lemma_filter_push(status_entry(root@, line@), keep);
            }
            let mut entry: Vec<char> = Vec::new();
            if len >= 3 {
                append_range(&mut entry, line, 0, 2);
                entry.push('\t');
                append_range(&mut entry, &base, 0, base.len());
                append_range(&mut entry, line, 3, len);
                proof {
                    assert(base@.subrange(0, base.len() as int) =~= base@);
                    assert(entry@ =~= status_entry(root@, line@));
                }
            } else {
                append_range(&mut entry, line, 0, len);
                assert(entry@ =~= status_entry(root@, line@));
            }
            let passes = match &wanted {
                Some(w) => starts_with(&entry, w),
                None => true,
            };
            if passes {
                shown.push(entry);
                assert(rows(shown@) =~= old_shown.push(status_entry(root@, line@)));
            }
            i += 1;
        }
        proof {
            assert(rows(lines@).take(lines.len() as int) =~= rows(lines@));
        }
        let out = join_lines(&shown);
        string_from(&out)
    }

    /// The payload where git ran, succeeded and wrote UTF-8; else a
    /// `SourceError` that says which of these failed.
    pub fn outcome(&self, root: &str, ran: Result<Output, String>) -> (r: Result<
        String,
        AnyframeError,
    >)
        ensures
            text_outcome(r) == match listing(
                ran,
                "Failed to execute git: "@,
                "git command failed: "@,
                "Invalid UTF-8 in status output: "@,
            ) {
                Ok(raw) => Ok(self.payload(root@, raw)),
                Err(e) => Err(e),
            },
    {
        match read_listing(
            ran,
            "Failed to execute git: ",
            "git command failed: ",
            "Invalid UTF-8 in status output: ",
        ) {
            Ok(raw) => Ok(self.rewrite(root, raw.as_str())),
            Err(e) => Err(e),
        }
    }

    /// What the source does once the run asked for at `stage` has ended.
    ///
    /// After the first run: the source is done with the error if the way up
    /// to the root could not be had, else it asks for the status listing.
    /// After the second run: the source is done, with the payload or the
    /// error.
    pub open spec fn next(self, stage: StatusStage, ran: Result<Output, String>, step: StatusStep)
        -> bool {
        match stage {
            StatusStage::Rooting => match listing(
                ran,
                "Failed to execute git: "@,
                "git command failed: "@,
                "Invalid UTF-8 in base path output: "@,
            ) {
                Err(e) => match step {
                    StatusStep::Done(r) => text_outcome(r) == Err::<Seq<char>, Failure>(e),
                    StatusStep::Run(_, _) => false,
                },
                Ok(raw) => match step {
                    StatusStep::Run(inv, StatusStage::Listing(root)) => {
                        &&& root@ == trimmed(raw)
                        &&& tool_run("git"@, seq!["status"@, "--porcelain"@], inv)
                    },
                    _ => false,
                },
            },
            StatusStage::Listing(root) => match step {
                StatusStep::Done(r) => text_outcome(r) == match listing(
                    ran,
                    "Failed to execute git: "@,
                    "git command failed: "@,
                    "Invalid UTF-8 in status output: "@,
                ) {
                    Ok(raw) => Ok(self.payload(root@, raw)),
                    Err(e) => Err(e),
                },
                StatusStep::Run(_, _) => false,
            },
        }
    }

    /// The first run of the source, and the stage at which its end is
    /// awaited.
    pub fn start(&self) -> (r: (Invocation, StatusStage))
        ensures
            tool_run("git"@, seq!["rev-parse"@, "--show-cdup"@], r.0),
            r.1 == StatusStage::Rooting,
    {
        (self.root_command(), StatusStage::Rooting)
    }

    /// What the source does once the run asked for at `stage` has ended:
    /// see [`GitStatus::next`].
    pub fn advance(&self, stage: StatusStage, ran: Result<Output, String>) -> (step: StatusStep)
        ensures
            self.next(stage, ran, step),
    {
        match stage {
            StatusStage::Rooting => match self.root(ran) {
                Err(e) => StatusStep::Done(Err(e)),
                Ok(root) => StatusStep::Run(self.status_command(), StatusStage::Listing(root)),
            },
            StatusStage::Listing(root) => StatusStep::Done(self.outcome(root.as_str(), ran)),
        }
    }

    /// The name of the source.
    pub fn name(&self) -> (r: &'static str)
        ensures
            r@ == "git-status"@,
    {
        "git-status"
    }
}

/// The processes of the invoking user.
#[derive(Debug, Clone, Copy, PartialEq, Eq)]
pub struct Process;

impl Process {
    /// The shell's run that lists, for the invoking user, each process with
    /// its id, state, share of processor and memory, processor time and
    /// command.
    pub fn command(&self) -> (inv: Invocation)
        ensures
            shell_run("ps -u $USER -o pid,stat,%cpu,%mem,cputime,command"@, inv),
    {
        shell("ps -u $USER -o pid,stat,%cpu,%mem,cputime,command".to_string())
    }

    /// The listing as it was written where the shell ran, succeeded and
    /// wrote UTF-8; else a `SourceError` that says which of these failed.
    pub fn outcome(&self, ran: Result<Output, String>) -> (r: Result<String, AnyframeError>)
        ensures
            text_outcome(r) == listing(
                ran,
                "Failed to execute ps: "@,
                "ps command failed: "@,
                "Invalid UTF-8 in process output: "@,
            ),
    {
        read_listing(
            ran,
            "Failed to execute ps: ",
            "ps command failed: ",
            "Invalid UTF-8 in process output: ",
        )
    }

    /// The name of the source.
    pub fn name(&self) -> (r: &'static str)
        ensures
            r@ == "process"@,
    {
        "process"
    }
}

/// The repositories that ghq has cloned, by their full paths.
#[derive(Debug, Clone, Copy, PartialEq, Eq)]
pub struct GhqRepository;

impl GhqRepository {
    /// The run of ghq that lists the full path of every repository.
    pub fn command(&self) -> (inv: Invocation)
        ensures
            tool_run("ghq"@, seq!["list"@, "--full-path"@], inv),
    {
        let mut args: Vec<String> = Vec::new();
        args.push("list".to_string());
        args.push("--full-path".to_string());
        assert(texts(args@) =~= seq!["list"@, "--full-path"@]);
        Invocation { program: "ghq".to_string(), args, input: None }
    }

    /// The listing as it was written where ghq ran, succeeded and wrote
    /// UTF-8; else a `SourceError` that says which of these failed.
    pub fn outcome(&self, ran: Result<Output, String>) -> (r: Result<String, AnyframeError>)
        ensures
            text_outcome(r) == listing(
                ran,
                "Failed to execute ghq: "@,
                "ghq command failed: "@,
                "Invalid UTF-8 in ghq output: "@,
            ),
    {
        read_listing(
            ran,
            "Failed to execute ghq: ",
            "ghq command failed: ",
            "Invalid UTF-8 in ghq output: ",
        )
    }

    /// The name of the source.
    pub fn name(&self) -> (r: &'static str)
        ensures
            r@ == "ghq-repository"@,
    {
        "ghq-repository"
    }
}

/// The directories that the shell visited lately.
#[derive(Debug, Clone, Copy, PartialEq, Eq)]
pub struct Cdr;

impl Cdr {
    /// The shell's run that lists the directories visited lately, without
    /// the number in front of each.
    pub fn command(&self) -> (inv: Invocation)
        ensures
            shell_run("cdr -l | sed 's/^[^ ][^ ]*  *//'"@, inv),
    {
        shell("cdr -l | sed 's/^[^ ][^ ]*  *//'".to_string())
    }

    /// The listing as it was written where the shell ran, succeeded and
    /// wrote UTF-8; else a `SourceError` that says which of these failed.
    pub fn outcome(&self, ran: Result<Output, String>) -> (r: Result<String, AnyframeError>)
        ensures
            text_outcome(r) == listing(
                ran,
                "Failed to execute zsh: "@,
                "zsh command failed: "@,
                "Invalid UTF-8 in cdr output: "@,
            ),
    {
        read_listing(
            ran,
            "Failed to execute zsh: ",
            "zsh command failed: ",
            "Invalid UTF-8 in cdr output: ",
        )
    }

    /// The name of the source.
    pub fn name(&self) -> (r: &'static str)
        ensures
            r@ == "cdr"@,
    {
        "cdr"
    }
}

} // verus!
