//! From a walk to the rows of the tree.

use crate::collect::{collect_entries, collected};
use crate::entry::{depths, depths_of, Entry};
use crate::layout::{prefixes, row_prefix};
use crate::line::{compose_line, decimal, decimal_text, display_name, display_text, line_text};
use crate::options::Options;
use crate::stamp::{stamp, stamp_text};
use crate::style::{paint, painted_fits, style_for, style_of};
use vstd::prelude::*;

verus! {

/// Why a walk could not be rendered.
#[derive(Clone, Copy, Debug, PartialEq, Eq, Structural)]
pub enum RenderError {
    /// The modification time of the entry at `index` cannot be written as a
    /// date.
    TimestampOutOfRange { index: usize },
}

/// What a failure reads like: which entry it was, counted from 0.
pub open spec fn message_text(error: RenderError) -> Seq<char> {
    match error {
        RenderError::TimestampOutOfRange { index } => "modification time of entry "@
            + decimal_text(index as nat) + " is out of range"@,
    }
}

impl RenderError {
    /// Describes the failure for the user.
    pub fn message(&self) -> (text: String)
        ensures
            text@ == message_text(*self),
    {
        match self {
            RenderError::TimestampOutOfRange { index } => {
                let mut text = String::from_str("modification time of entry ");
                text.append(decimal(*index as u64).as_str());
                text.append(" is out of range");
                text
            },
        }
    }
}

/// Row `i` of a walk, given the styled name and the time text of its entry.
pub open spec fn row_text(
    entries: Seq<Entry>,
    i: int,
    painted: Seq<char>,
    written: Seq<char>,
) -> Seq<char> {
    line_text(
        row_prefix(depths_of(entries), i),
        display_text(painted, entries[i].kind, entries[i].link_target),
        entries[i].size,
        written,
    )
}

/// Whether `line` is row `i` of a walk: the row of its entry for some styled
/// name that fits the entry's style, and for the text of its time.
pub open spec fn is_row(line: Seq<char>, entries: Seq<Entry>, i: int, styled: bool) -> bool {
    exists|painted: Seq<char>|
        painted_fits(painted, entries[i].name@, style_of(entries[i].kind, styled)) && line
            == #[trigger] row_text(entries, i, painted, stamp_text(entries[i].modified_at)->0)
}

/// Whether the time of every entry before position `n` can be written.
pub open spec fn stamps_exist(entries: Seq<Entry>, n: int) -> bool {
    forall|k: int| 0 <= k < n ==> stamp_text((#[trigger] entries[k]).modified_at) is Some
}

/// Puts the rows of a walk together from the styled names and the time
/// texts of its entries.
pub fn assemble(entries: &Vec<Entry>, painted: &Vec<String>, written: &Vec<String>) -> (lines: Vec<
    String,
>)
    requires
        painted.len() == entries.len(),
        written.len() == entries.len(),
    ensures
        lines.len() == entries.len(),
        forall|i: int|
            0 <= i < entries.len() ==> (#[trigger] lines[i])@ == row_text(
                entries@,
                i,
                painted[i]@,
                written[i]@,
            ),
{
    let levels = depths(entries);
    let shapes = prefixes(&levels);
    let mut lines: Vec<String> = Vec::new();
    let mut i: usize = 0;
    while i < entries.len()
        invariant
            i <= entries.len(),
            painted.len() == entries.len(),
            written.len() == entries.len(),
            shapes.len() == entries.len(),
            levels@ == depths_of(entries@),
            forall|k: int|
                0 <= k < entries.len() ==> (#[trigger] shapes[k])@ == row_prefix(levels@, k),
            lines.len() == i,
            forall|k: int|
                0 <= k < i ==> (#[trigger] lines[k])@ == row_text(
                    entries@,
                    k,
                    painted[k]@,
                    written[k]@,
                ),
        decreases entries.len() - i,
    {
        let entry = &entries[i];
        let display = display_name(painted[i].as_str(), entry.kind, &entry.link_target);
        lines.push(
            compose_line(shapes[i].as_str(), display.as_str(), entry.size, written[i].as_str()),
        );
        i += 1;
    }
    lines
}

/// Renders a walk: one row per entry, in the order of the walk. It fails
/// only on a modification time that cannot be written, and names the first
/// entry with such a time.
pub fn render(entries: &Vec<Entry>, styled: bool) -> (result: Result<Vec<String>, RenderError>)
    ensures
        match result {
            Ok(lines) => {
                &&& stamps_exist(entries@, entries.len() as int)
                &&& lines.len() == entries.len()
                &&& forall|i: int|
                    0 <= i < entries.len() ==> is_row((#[trigger] lines[i])@, entries@, i, styled)
            },
            Err(RenderError::TimestampOutOfRange { index }) => {
                &&& index < entries.len()
                &&& stamp_text(entries[index as int].modified_at) is None
                &&& stamps_exist(entries@, index as int)
            },
        },
{
    let mut painted: Vec<String> = Vec::new();
    let mut written: Vec<String> = Vec::new();
    let mut i: usize = 0;
    while i < entries.len()
        invariant
            i <= entries.len(),
            painted.len() == i,
            written.len() == i,
            stamps_exist(entries@, i as int),
            forall|k: int|
                0 <= k < i ==> painted_fits(
                    (#[trigger] painted[k])@,
                    entries[k].name@,
                    style_of(entries[k].kind, styled),
                ),
            forall|k: int|
                0 <= k < i ==> stamp_text(entries[k].modified_at) == Some((#[trigger] written[k])@),
        decreases entries.len() - i,
    {
        let entry = &entries[i];
        match stamp(&entry.modified_at) {
            Some(text) => written.push(text),
            None => {
                return Err(RenderError::TimestampOutOfRange { index: i });
            },
        }
        painted.push(paint(entry.name.as_str(), style_for(entry.kind, styled)));
        i += 1;
    }
    let lines = assemble(entries, &painted, &written);
    assert forall|k: int| 0 <= k < entries.len() implies is_row(
        (#[trigger] lines[k])@,
        entries@,
        k,
        styled,
    ) by {
        assert(lines[k]@ == row_text(
            entries@,
            k,
            painted[k]@,
            stamp_text(entries[k].modified_at)->0,
        ));
    }
    Ok(lines)
}

/// Renders what is shown of a walk under the given settings: the entries
/// that the hidden-entry policy and the depth limit retain, laid out among
/// themselves alone.
pub fn render_tree(walked: &Vec<Entry>, options: &Options) -> (result: Result<
    Vec<String>,
    RenderError,
>)
    ensures
        ({
            let shown = collected(walked@, walked.len() as int, options.all, options.level);
            match result {
                Ok(lines) => {
                    &&& stamps_exist(shown, shown.len() as int)
                    &&& lines.len() == shown.len()
                    &&& forall|i: int|
                        0 <= i < shown.len() ==> is_row(
                            (#[trigger] lines[i])@,
                            shown,
                            i,
                            !options.no_color,
                        )
                },
                Err(RenderError::TimestampOutOfRange { index }) => {
                    &&& index < shown.len()
                    &&& stamp_text(shown[index as int].modified_at) is None
                    &&& stamps_exist(shown, index as int)
                },
            }
        }),
{
    let shown = collect_entries(walked, options.all, options.level);
    render(&shown, options.styled())
}

} // verus!
