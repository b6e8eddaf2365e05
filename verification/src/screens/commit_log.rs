//! The commit log screen: the colored `jj log`, a selection that moves over
//! commit header lines, and a prompt to describe the selected commit.
//!
//! Key handling decides what happens; running `jj` (describe, new, reload) is
//! left to the caller, which performs the returned [`CommitLogAction`] and
//! hands the reloaded log back with [`CommitLogScreen::set_log`].

use vstd::prelude::*;

use crate::jj_log::{JjLogOutput, LogCommit};
use crate::keys::{KeyCode, KeyEvent};
use crate::models::change_id::ChangeId;
use crate::screens::ScreenOutcome;
use crate::ansi::spans_view;
use crate::style::{spec_default_style, Color, Style, StyledSpan, BOLD};
use crate::widgets::status_bar::{binding_view, Binding};
use crate::widgets::text_input::{spec_key_step, TextInput, TextInputOutcome, TextInputView};

verus! {

broadcast use vstd::std_specs::hash::group_hash_axioms;

/// What the caller must do after a key press on the commit log.
pub enum CommitLogAction {
    /// Nothing to run: report this outcome.
    Outcome(ScreenOutcome),
    /// Reload the log.
    Reload,
    /// Set the description of `change_id` to `message`, then reload.
    Describe { change_id: ChangeId, message: String },
    /// Create a new commit on top of `change_id`, then reload.
    NewOnTop { change_id: ChangeId },
}

/// The commit log screen.
pub struct CommitLogScreen {
    log: JjLogOutput,
    selected: Option<usize>,
    describe_input: Option<TextInput>,
}

/// The key bindings of the commit log's status bar.
pub open spec fn spec_commit_log_bindings() -> Seq<(Seq<char>, Seq<char>)> {
    seq![
        ("j/k"@, "navigate"@),
        ("Enter"@, "review"@),
        ("d"@, "describe"@),
        ("n"@, "new"@),
        ("r"@, "refresh"@),
        ("g/G"@, "top/bottom"@),
        ("q"@, "quit"@),
    ]
}

/// The key bindings for the status bar.
pub fn commit_log_bindings() -> (r: Vec<Binding>)
    ensures
        r@.map_values(|b: Binding| binding_view(b)) == spec_commit_log_bindings(),
{
    let mut b: Vec<Binding> = Vec::new();
    b.push(Binding::new("j/k", "navigate"));
    b.push(Binding::new("Enter", "review"));
    b.push(Binding::new("d", "describe"));
    b.push(Binding::new("n", "new"));
    b.push(Binding::new("r", "refresh"));
    b.push(Binding::new("g/G", "top/bottom"));
    b.push(Binding::new("q", "quit"));
    proof {
        assert(b@.map_values(|x: Binding| binding_view(x)) =~= spec_commit_log_bindings());
    }
    b
}

/// The header of the commit log: a bold white title, then the repository
/// directory in dark gray.
pub fn commit_log_header(dir: &str) -> (r: Vec<StyledSpan>)
    ensures
        spans_view(r@) == seq![
            (" Commit Log: "@, spec_default_style().spec_fg(Color::White).spec_add_modifier(BOLD)),
            (dir@, spec_default_style().spec_fg(Color::DarkGray)),
        ],
{
    let mut out: Vec<StyledSpan> = Vec::new();
    out.push(
        StyledSpan {
            content: " Commit Log: ".to_owned(),
            style: Style::new().fg(Color::White).add_modifier(BOLD),
        },
    );
    out.push(StyledSpan { content: dir.to_owned(), style: Style::new().fg(Color::DarkGray) });
    proof {
        assert(spans_view(out@) =~= seq![
            (" Commit Log: "@, spec_default_style().spec_fg(Color::White).spec_add_modifier(BOLD)),
            (dir@, spec_default_style().spec_fg(Color::DarkGray)),
        ]);
    }
    out
}

/// The first of `lines` greater than `current`, if any.
pub open spec fn spec_next_commit_line(lines: Seq<usize>, current: usize) -> Option<usize>
    decreases lines.len(),
{
    if lines.len() == 0 {
        None
    } else if lines[0] > current {
        Some(lines[0])
    } else {
        spec_next_commit_line(lines.drop_first(), current)
    }
}

/// The last of `lines` less than `current`, if any.
pub open spec fn spec_prev_commit_line(lines: Seq<usize>, current: usize) -> Option<usize>
    decreases lines.len(),
{
    if lines.len() == 0 {
        None
    } else if lines.last() < current {
        Some(lines.last())
    } else {
        spec_prev_commit_line(lines.drop_last(), current)
    }
}

/// The message shown when describing an immutable commit is refused.
pub open spec fn immutable_describe_message() -> Seq<char> {
    "Cannot describe an immutable commit"@
}

/// The first of `lines` greater than `current`.
fn next_line_after(lines: &Vec<usize>, current: usize) -> (r: Option<usize>)
    ensures
        r == spec_next_commit_line(lines@, current),
{
    let mut i: usize = 0;
    proof {
        assert(lines@.subrange(0, lines@.len() as int) =~= lines@);
    }
    while i < lines.len()
        invariant
            i <= lines@.len(),
            spec_next_commit_line(lines@, current) == spec_next_commit_line(
                lines@.subrange(i as int, lines@.len() as int),
                current,
            ),
        decreases lines.len() - i,
    {
        proof {
            let rest = lines@.subrange(i as int, lines@.len() as int);
            assert(rest.drop_first() =~= lines@.subrange(i + 1, lines@.len() as int));
        }
        if lines[i] > current {
            return Some(lines[i]);
        }
        i = i + 1;
    }
    None
}

/// The last of `lines` less than `current`.
fn prev_line_before(lines: &Vec<usize>, current: usize) -> (r: Option<usize>)
    ensures
        r == spec_prev_commit_line(lines@, current),
{
    let mut i: usize = lines.len();
    proof {
        assert(lines@.subrange(0, lines@.len() as int) =~= lines@);
    }
    while i > 0
        invariant
            i <= lines@.len(),
            spec_prev_commit_line(lines@, current) == spec_prev_commit_line(
                lines@.subrange(0, i as int),
                current,
            ),
        decreases i,
    {
        proof {
            let head = lines@.subrange(0, i as int);
            assert(head.drop_last() =~= lines@.subrange(0, i - 1));
        }
        if lines[i - 1] < current {
            return Some(lines[i - 1]);
        }
        i = i - 1;
    }
    None
}

impl CommitLogScreen {
    /// The line selected, if any.
    pub closed spec fn spec_selected(&self) -> Option<usize> {
        self.selected
    }

    /// The log shown.
    pub closed spec fn spec_log(&self) -> JjLogOutput {
        self.log
    }

    /// The header line indices of the log.
    pub closed spec fn spec_commit_lines(&self) -> Seq<usize> {
        self.log.commit_lines@
    }

    /// The commits of the log by line.
    pub closed spec fn spec_commits(&self) -> Map<usize, LogCommit> {
        self.log.commits_by_line@
    }

    /// The describe prompt, if open.
    pub closed spec fn spec_prompt(&self) -> Option<TextInputView> {
        match self.describe_input {
            Some(i) => Some(i@),
            None => None,
        }
    }

    /// The selected commit, if the selection is on a header line.
    pub open spec fn spec_selected_commit(&self) -> Option<LogCommit> {
        match self.spec_selected() {
            Some(i) => if self.spec_commits().contains_key(i) {
                Some(self.spec_commits()[i])
            } else {
                None
            },
            None => None,
        }
    }

    /// An empty screen: no log yet, nothing selected, no prompt.
    pub fn new() -> (s: Self)
        ensures
            s.spec_selected() is None,
            s.spec_log().lines@.len() == 0,
            s.spec_commit_lines().len() == 0,
            s.spec_commits() == Map::<usize, LogCommit>::empty(),
            s.spec_prompt() is None,
    {
        CommitLogScreen { log: JjLogOutput::empty(), selected: None, describe_input: None }
    }

    /// The log shown.
    pub fn log(&self) -> (r: &JjLogOutput)
        ensures
            *r == self.spec_log(),
            r.commit_lines@ == self.spec_commit_lines(),
            r.commits_by_line@ == self.spec_commits(),
    {
        &self.log
    }

    /// The line selected, if any.
    pub fn selected(&self) -> (r: Option<usize>)
        ensures
            r == self.spec_selected(),
    {
        self.selected
    }

    /// The describe prompt, if open.
    pub fn describe_input(&self) -> (r: Option<&TextInput>)
        ensures
            match r {
                Some(i) => self.spec_prompt() == Some(i@),
                None => self.spec_prompt() is None,
            },
    {
        match &self.describe_input {
            Some(i) => Some(i),
            None => None,
        }
    }

    /// Shows a newly read log; when nothing was selected, selects its first
    /// commit line.
    pub fn set_log(&mut self, log: JjLogOutput)
        ensures
            final(self).spec_log() == log,
            final(self).spec_commit_lines() == log.commit_lines@,
            final(self).spec_commits() == log.commits_by_line@,
            final(self).spec_prompt() == old(self).spec_prompt(),
            final(self).spec_selected() == (if old(self).spec_selected() is None
                && log.commit_lines@.len() > 0 {
                Some(log.commit_lines@[0])
            } else {
                old(self).spec_selected()
            }),
    {
        self.log = log;
        if self.selected.is_none() && self.log.commit_lines.len() > 0 {
            self.selected = Some(self.log.commit_lines[0]);
        }
    }

    /// The selected commit, if the selection is on a header line.
    pub fn selected_commit(&self) -> (r: Option<&LogCommit>)
        ensures
            match r {
                Some(c) => self.spec_selected_commit() == Some(*c),
                None => self.spec_selected_commit() is None,
            },
    {
        match self.selected {
            Some(i) => self.log.commits_by_line.get(&i),
            None => None,
        }
    }

    /// Moves the selection to the next commit line after it (from line 0
    /// when nothing is selected); stays when there is none.
    pub fn select_next_commit(&mut self)
        ensures
            final(self).spec_selected() == match spec_next_commit_line(
                old(self).spec_commit_lines(),
                old(self).spec_selected().unwrap_or(0),
            ) {
                Some(l) => Some(l),
                None => old(self).spec_selected(),
            },
            final(self).spec_log() == old(self).spec_log(),
            final(self).spec_commit_lines() == old(self).spec_commit_lines(),
            final(self).spec_commits() == old(self).spec_commits(),
            final(self).spec_prompt() == old(self).spec_prompt(),
    {
        let current = match self.selected {
            Some(c) => c,
            None => 0,
        };
        if let Some(l) = next_line_after(&self.log.commit_lines, current) {
            self.selected = Some(l);
        }
    }

    /// Moves the selection to the last commit line before it (before line
    /// 0 when nothing is selected); stays when there is none.
    pub fn select_prev_commit(&mut self)
        ensures
            final(self).spec_selected() == match spec_prev_commit_line(
                old(self).spec_commit_lines(),
                old(self).spec_selected().unwrap_or(0),
            ) {
                Some(l) => Some(l),
                None => old(self).spec_selected(),
            },
            final(self).spec_log() == old(self).spec_log(),
            final(self).spec_commit_lines() == old(self).spec_commit_lines(),
            final(self).spec_commits() == old(self).spec_commits(),
            final(self).spec_prompt() == old(self).spec_prompt(),
    {
        let current = match self.selected {
            Some(c) => c,
            None => 0,
        };
        if let Some(l) = prev_line_before(&self.log.commit_lines, current) {
            self.selected = Some(l);
        }
    }

    /// Handles a key press: with the prompt open, the key goes to it;
    /// otherwise `q` quits, `j`/`k` (or the arrows) move between commits,
    /// `g`/`G` go to the first/last commit, Enter reviews the selected
    /// commit, `r` reloads, `d` opens the prompt to describe it and `n`
    /// creates a commit on top of it.
    pub fn handle_key_event(&mut self, key: KeyEvent) -> (r: CommitLogAction)
        ensures
            final(self).spec_log() == old(self).spec_log(),
            final(self).spec_commit_lines() == old(self).spec_commit_lines(),
            final(self).spec_commits() == old(self).spec_commits(),
            old(self).spec_prompt() matches Some(p) ==> {
                &&& final(self).spec_selected() == old(self).spec_selected()
                &&& key.code == KeyCode::Enter ==> final(self).spec_prompt() is None && match r {
                    CommitLogAction::Describe { change_id, message } => (old(self).spec_selected_commit() matches Some(c) && c.change_id == change_id
                        && message@ == p.content),
                    CommitLogAction::Outcome(ScreenOutcome::Continue) => old(self).spec_selected_commit() is None,
                    _ => false,
                }
                &&& key.code == KeyCode::Esc ==> final(self).spec_prompt() is None && (r matches CommitLogAction::Outcome(ScreenOutcome::Continue))
                &&& key.code != KeyCode::Enter && key.code != KeyCode::Esc ==> final(self).spec_prompt() == Some(spec_key_step(p, key)) && (r matches CommitLogAction::Outcome(ScreenOutcome::Continue))
            },
            old(self).spec_prompt() is None ==> match key.code {
                KeyCode::Char('q') => *final(self) == *old(self) && (r matches CommitLogAction::Outcome(ScreenOutcome::Quit)),
                KeyCode::Char('j') | KeyCode::Down => final(self).spec_prompt() is None
                    && final(self).spec_selected() == match spec_next_commit_line(
                    old(self).spec_commit_lines(),
                    old(self).spec_selected().unwrap_or(0),
                ) {
                    Some(l) => Some(l),
                    None => old(self).spec_selected(),
                } && (r matches CommitLogAction::Outcome(ScreenOutcome::Continue)),
                KeyCode::Char('k') | KeyCode::Up => final(self).spec_prompt() is None
                    && final(self).spec_selected() == match spec_prev_commit_line(
                    old(self).spec_commit_lines(),
                    old(self).spec_selected().unwrap_or(0),
                ) {
                    Some(l) => Some(l),
                    None => old(self).spec_selected(),
                } && (r matches CommitLogAction::Outcome(ScreenOutcome::Continue)),
                KeyCode::Char('g') => final(self).spec_prompt() is None && final(self).spec_selected()
                    == (if old(self).spec_commit_lines().len() > 0 {
                    Some(old(self).spec_commit_lines()[0])
                } else {
                    old(self).spec_selected()
                }) && (r matches CommitLogAction::Outcome(ScreenOutcome::Continue)),
                KeyCode::Char('G') => final(self).spec_prompt() is None && final(self).spec_selected()
                    == (if old(self).spec_commit_lines().len() > 0 {
                    Some(old(self).spec_commit_lines().last())
                } else {
                    old(self).spec_selected()
                }) && (r matches CommitLogAction::Outcome(ScreenOutcome::Continue)),
                KeyCode::Enter => *final(self) == *old(self) && match old(self).spec_selected_commit() {
                    Some(c) => (r matches CommitLogAction::Outcome(ScreenOutcome::EnterReview(j)) && j.change_id == c.change_id
                        && j.commit_id@ == c.commit_id@ && j.summary@ == c.summary@
                        && j.is_immutable == c.is_immutable && j.is_working_copy
                        == c.is_working_copy && j.description@.len() == 0
                        && j.author@.len() == 0 && j.email@.len() == 0
                        && j.timestamp@.len() == 0 && j.parents@.len() == 0),
                    None => (r matches CommitLogAction::Outcome(ScreenOutcome::Continue)),
                },
                KeyCode::Char('r') => *final(self) == *old(self) && r is Reload,
                KeyCode::Char('d') => final(self).spec_selected() == old(self).spec_selected()
                    && match old(self).spec_selected_commit() {
                    Some(c) => if c.is_immutable {
                        final(self).spec_prompt() is None && (r matches CommitLogAction::Outcome(ScreenOutcome::Error(m))
                            && m@ == immutable_describe_message())
                    } else {
                        (final(self).spec_prompt() matches Some(p) && p.prompt == "Describe: "@
                            && p.content == c.summary@ && p.cursor == c.summary@.len())
                            && (r matches CommitLogAction::Outcome(ScreenOutcome::Continue))
                    },
                    None => final(self).spec_prompt() is None && (r matches CommitLogAction::Outcome(ScreenOutcome::Continue)),
                },
                KeyCode::Char('n') => *final(self) == *old(self) && match old(self).spec_selected_commit() {
                    Some(c) => (r matches CommitLogAction::NewOnTop { change_id } && change_id
                        == c.change_id),
                    None => (r matches CommitLogAction::Outcome(ScreenOutcome::Continue)),
                },
                _ => *final(self) == *old(self) && (r matches CommitLogAction::Outcome(ScreenOutcome::Continue)),
            },
    {
        if self.describe_input.is_some() {
            let mut input = self.describe_input.take().unwrap();
            let outcome = input.handle_key_event(key);
            match outcome {
                TextInputOutcome::Continue => {
                    self.describe_input = Some(input);
                    return CommitLogAction::Outcome(ScreenOutcome::Continue);
                },
                TextInputOutcome::Cancel => {
                    return CommitLogAction::Outcome(ScreenOutcome::Continue);
                },
                TextInputOutcome::Confirm(message) => {
                    let change_id = match self.selected_commit() {
                        Some(c) => Some(c.change_id),
                        None => None,
                    };
                    return match change_id {
                        Some(change_id) => CommitLogAction::Describe { change_id, message },
                        None => CommitLogAction::Outcome(ScreenOutcome::Continue),
                    };
                },
            }
        }
        match key.code {
            KeyCode::Char('q') => CommitLogAction::Outcome(ScreenOutcome::Quit),
            KeyCode::Char('j') | KeyCode::Down => {
                self.select_next_commit();
                CommitLogAction::Outcome(ScreenOutcome::Continue)
            },
            KeyCode::Char('k') | KeyCode::Up => {
                self.select_prev_commit();
                CommitLogAction::Outcome(ScreenOutcome::Continue)
            },
            KeyCode::Char('g') => {
                if self.log.commit_lines.len() > 0 {
                    self.selected = Some(self.log.commit_lines[0]);
                }
                CommitLogAction::Outcome(ScreenOutcome::Continue)
            },
            KeyCode::Char('G') => {
                let n = self.log.commit_lines.len();
                if n > 0 {
                    self.selected = Some(self.log.commit_lines[n - 1]);
                }
                CommitLogAction::Outcome(ScreenOutcome::Continue)
            },
            KeyCode::Enter => match self.selected_commit() {
                Some(c) => CommitLogAction::Outcome(ScreenOutcome::EnterReview(c.to_jj_commit())),
                None => CommitLogAction::Outcome(ScreenOutcome::Continue),
            },
            KeyCode::Char('r') => CommitLogAction::Reload,
            KeyCode::Char('d') => {
                let prompt = match self.selected_commit() {
                    Some(c) => {
                        if c.is_immutable {
                            return CommitLogAction::Outcome(
                                ScreenOutcome::Error("Cannot describe an immutable commit".to_owned()),
                            );
                        }
                        Some(TextInput::new("Describe: ", c.summary.as_str()))
                    },
                    None => None,
                };
                if prompt.is_some() {
                    self.describe_input = prompt;
                }
                CommitLogAction::Outcome(ScreenOutcome::Continue)
            },
            KeyCode::Char('n') => match self.selected_commit() {
                Some(c) => CommitLogAction::NewOnTop { change_id: c.change_id },
                None => CommitLogAction::Outcome(ScreenOutcome::Continue),
            },
            _ => CommitLogAction::Outcome(ScreenOutcome::Continue),
        }
    }
}

} // verus!
