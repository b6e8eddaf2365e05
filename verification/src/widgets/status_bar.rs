//! The status bar listing key bindings.

use vstd::prelude::*;

use crate::ansi::spans_view;
use crate::style::{spec_default_style, Color, Style, StyledSpan, BOLD};
use crate::text::{push_str, string_of};

verus! {

/// A key and what it does.
pub struct Binding {
    pub key: &'static str,
    pub description: &'static str,
}

impl Binding {
    pub fn new(key: &'static str, description: &'static str) -> (b: Self)
        ensures
            b.key@ == key@,
            b.description@ == description@,
    {
        Binding { key, description }
    }
}

/// A binding by its key and description.
pub open spec fn binding_view(b: Binding) -> (Seq<char>, Seq<char>) {
    (b.key@, b.description@)
}

/// The style of a key in the status bar.
pub open spec fn key_style() -> Style {
    spec_default_style().spec_fg(Color::White).spec_bg(Color::Rgb(60, 60, 60)).spec_add_modifier(
        BOLD,
    )
}

/// The spans of the status bar: each key on a gray background, then a space
/// and its description in gray; bindings apart by two spaces.
pub open spec fn spec_status_spans(bindings: Seq<(Seq<char>, Seq<char>)>) -> Seq<
    (Seq<char>, Style),
>
    decreases bindings.len(),
{
    if bindings.len() == 0 {
        Seq::empty()
    } else {
        let b = bindings.last();
        let sep = if bindings.len() > 1 {
            seq![("  "@, spec_default_style())]
        } else {
            Seq::empty()
        };
        spec_status_spans(bindings.drop_last()) + sep + seq![
            (b.0, key_style()),
            (" "@ + b.1, spec_default_style().spec_fg(Color::Gray)),
        ]
    }
}

/// A list of key bindings to show.
pub struct StatusBarWidget<'a> {
    pub bindings: &'a [Binding],
}

impl<'a> StatusBarWidget<'a> {
    pub fn new(bindings: &'a [Binding]) -> (w: Self)
        ensures
            w.bindings@.len() == bindings@.len(),
            forall|i: int| 0 <= i < bindings@.len() ==> w.bindings@[i] == bindings@[i],
    {
        StatusBarWidget { bindings }
    }

    /// The line to draw.
    pub fn line(&self) -> (r: Vec<StyledSpan>)
        ensures
            spans_view(r@) == spec_status_spans(
                self.bindings@.map_values(|b: Binding| binding_view(b)),
            ),
    {
        let ghost bs = self.bindings@.map_values(|b: Binding| binding_view(b));
        let mut out: Vec<StyledSpan> = Vec::new();
        let mut i: usize = 0;
        while i < self.bindings.len()
            invariant
                i <= self.bindings@.len(),
                bs == self.bindings@.map_values(|b: Binding| binding_view(b)),
                spans_view(out@) == spec_status_spans(bs.take(i as int)),
            decreases self.bindings.len() - i,
        {
            let ghost before = spans_view(out@);
            let b = &self.bindings[i];
            if i > 0 {
                out.push(StyledSpan { content: "  ".to_owned(), style: Style::new() });
            }
            out.push(
                StyledSpan {
                    content: b.key.to_owned(),
                    style: Style::new().fg(Color::White).bg(Color::Rgb(60, 60, 60)).add_modifier(
                        BOLD,
                    ),
                },
            );
            let mut desc: Vec<char> = Vec::new();
            push_str(&mut desc, " ");
            push_str(&mut desc, b.description);
            out.push(StyledSpan { content: string_of(&desc), style: Style::new().fg(Color::Gray) });
            proof {
                let t = bs.take(i + 1);
                assert(t.drop_last() =~= bs.take(i as int));
                assert(t.last() == binding_view(*b));
                assert(spans_view(out@) =~= spec_status_spans(t));
            }
            i = i + 1;
        }
        proof {
            assert(bs.take(i as int) =~= bs);
        }
        out
    }
}

} // verus!
