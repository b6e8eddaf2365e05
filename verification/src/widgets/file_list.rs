//! The list of changed files on the review screen.

use vstd::prelude::*;

use crate::models::pr::{FileChangeStatus, FileEntry};
use crate::style::{Color, Style, StyledSpan};
use crate::text::{push_decimal, push_str, spec_decimal, string_of};

verus! {

/// The files of a commit, and whether the list has the focus.
pub struct FileListWidget<'a> {
    pub files: &'a [FileEntry],
    pub is_focused: bool,
}

impl<'a> FileListWidget<'a> {
    pub fn new(files: &'a [FileEntry], is_focused: bool) -> (w: Self)
        ensures
            w.files@ == files@,
            w.is_focused == is_focused,
    {
        FileListWidget { files, is_focused }
    }
}

/// A style with only a foreground color.
pub open spec fn fg(c: Color) -> Style {
    Style { fg: Some(c), bg: None, add_modifier: 0, sub_modifier: 0 }
}

/// The letter and color of a file status.
pub open spec fn spec_status_mark(s: FileChangeStatus) -> (Seq<char>, Color) {
    match s {
        FileChangeStatus::Added => (" A"@, Color::Green),
        FileChangeStatus::Modified => (" M"@, Color::Yellow),
        FileChangeStatus::Deleted => (" D"@, Color::Red),
        FileChangeStatus::Renamed => (" R"@, Color::Blue),
        FileChangeStatus::Copied => (" C"@, Color::Cyan),
        FileChangeStatus::Typechange => (" T"@, Color::Magenta),
    }
}

/// The path shown for a file: the new one, else the old one, else
/// `<unknown>`.
pub open spec fn spec_shown_path(f: FileEntry) -> Seq<char> {
    match (f.new_path, f.old_path) {
        (Some(p), _) => p@,
        (None, Some(p)) => p@,
        (None, None) => "<unknown>"@,
    }
}

/// The line of a file in the list, as styled spans: a check mark when it
/// is reviewed, its path, its status letter, and its added and deleted line
/// counts when either is non-zero.
pub fn file_to_spans(file: &FileEntry) -> (r: Vec<StyledSpan>)
    ensures
        r@.len() == 4,
        r@[0].content@ == (if file.is_reviewed { "✓ "@ } else { "  "@ }),
        r@[0].style == (if file.is_reviewed { fg(Color::Green) } else { Style { fg: None, bg: None, add_modifier: 0, sub_modifier: 0 } }),
        r@[1].content@ == spec_shown_path(*file) && r@[1].style == fg(Color::White),
        r@[2].content@ == spec_status_mark(file.status).0 && r@[2].style == fg(spec_status_mark(file.status).1),
        r@[3].content@ == (if file.additions > 0 || file.deletions > 0 {
            " +"@ + spec_decimal(file.additions as nat) + " -"@ + spec_decimal(file.deletions as nat)
        } else {
            Seq::empty()
        }),
        r@[3].style == (if file.additions > 0 || file.deletions > 0 { fg(Color::DarkGray) } else { Style { fg: None, bg: None, add_modifier: 0, sub_modifier: 0 } }),
{
    let plain = Style::new();
    let indicator = if file.is_reviewed {
        StyledSpan { content: "✓ ".to_owned(), style: plain.fg(Color::Green) }
    } else {
        StyledSpan { content: "  ".to_owned(), style: plain }
    };
    let path = match (&file.new_path, &file.old_path) {
        (Some(p), _) => p.clone(),
        (None, Some(p)) => p.clone(),
        (None, None) => "<unknown>".to_owned(),
    };
    let (letter, color) = match file.status {
        FileChangeStatus::Added => (" A", Color::Green),
        FileChangeStatus::Modified => (" M", Color::Yellow),
        FileChangeStatus::Deleted => (" D", Color::Red),
        FileChangeStatus::Renamed => (" R", Color::Blue),
        FileChangeStatus::Copied => (" C", Color::Cyan),
        FileChangeStatus::Typechange => (" T", Color::Magenta),
    };
    let stats = if file.additions > 0 || file.deletions > 0 {
        let mut buf: Vec<char> = Vec::new();
        push_str(&mut buf, " +");
        push_decimal(&mut buf, file.additions as u64);
        push_str(&mut buf, " -");
        push_decimal(&mut buf, file.deletions as u64);
        proof {
            assert(buf@ =~= " +"@ + spec_decimal(file.additions as nat) + " -"@ + spec_decimal(
                file.deletions as nat,
            ));
        }
        StyledSpan { content: string_of(&buf), style: plain.fg(Color::DarkGray) }
    } else {
        StyledSpan { content: String::new(), style: plain }
    };
    let mut out: Vec<StyledSpan> = Vec::new();
    out.push(indicator);
    out.push(StyledSpan { content: path, style: plain.fg(Color::White) });
    out.push(StyledSpan { content: letter.to_owned(), style: plain.fg(color) });
    out.push(stats);
    out
}

} // verus!
