//! What holds of the rows, whatever the walk.

use crate::collect::{collected, cut_walk};
use crate::collect_laws::{lemma_limit_shows_the_cut_tree, lemma_shown_entries_pass};
use crate::entry::{depths_of, Entry};
use crate::layout::{is_last_at, row_prefix};
use crate::line::{display_text, suffix_text};
use crate::render::{is_row, row_text};
use crate::stamp::stamp_text;
use crate::style::{escape_char, painted_fits, style_of, wraps};
use vstd::prelude::*;

verus! {

/// With styling switched off a row is fixed to the last character: it shows
/// the name as it is.
pub proof fn lemma_unstyled_row(entries: Seq<Entry>, i: int, line: Seq<char>)
    requires
        0 <= i < entries.len(),
    ensures
        is_row(line, entries, i, false) <==> line == row_text(
            entries,
            i,
            entries[i].name@,
            stamp_text(entries[i].modified_at)->0,
        ),
{
    let plain = row_text(entries, i, entries[i].name@, stamp_text(entries[i].modified_at)->0);
    let name = entries[i].name@;
    if line == plain {
        assert(name =~= Seq::<char>::empty() + name + Seq::<char>::empty());
    }
}

/// Styling touches the displayed name only. The row of an entry with styling
/// on and its row with styling off begin with the same prefix, guide columns
/// and connector alike, and end with the same size and time; what lies
/// between is the displayed name, styled in the one and bare in the other.
/// The styled name is the bare one with something before and after it, if the
/// name holds no escape character of its own.
pub proof fn lemma_styling_keeps_structure(
    entries: Seq<Entry>,
    i: int,
    styled_line: Seq<char>,
    plain_line: Seq<char>,
)
    requires
        0 <= i < entries.len(),
        is_row(styled_line, entries, i, true),
        is_row(plain_line, entries, i, false),
    ensures
        ({
            let prefix = row_prefix(depths_of(entries), i);
            let suffix = suffix_text(entries[i].size, stamp_text(entries[i].modified_at)->0);
            let bare = display_text(entries[i].name@, entries[i].kind, entries[i].link_target);
            &&& prefix.len() + suffix.len() <= styled_line.len()
            &&& styled_line.take(prefix.len() as int) == prefix
            &&& styled_line.skip(styled_line.len() - suffix.len()) == suffix
            &&& exists|painted: Seq<char>|
                styled_line.subrange(prefix.len() as int, styled_line.len() - suffix.len())
                    == #[trigger] display_text(painted, entries[i].kind, entries[i].link_target)
                    && (!entries[i].name@.contains(escape_char()) ==> wraps(
                    painted,
                    entries[i].name@,
                ))
            &&& plain_line == prefix + bare + suffix
            &&& plain_line.take(prefix.len() as int) == prefix
            &&& plain_line.skip(plain_line.len() - suffix.len()) == suffix
            &&& plain_line.subrange(prefix.len() as int, plain_line.len() - suffix.len()) == bare
        }),
{
    let prefix = row_prefix(depths_of(entries), i);
    let written = stamp_text(entries[i].modified_at)->0;
    let suffix = suffix_text(entries[i].size, written);
    let bare = display_text(entries[i].name@, entries[i].kind, entries[i].link_target);
    let painted = choose|painted: Seq<char>|
        painted_fits(painted, entries[i].name@, style_of(entries[i].kind, true)) && styled_line
            == #[trigger] row_text(entries, i, painted, written);
    let shown = display_text(painted, entries[i].kind, entries[i].link_target);
    lemma_unstyled_row(entries, i, plain_line);
    lemma_row_parts(prefix, shown, suffix);
    lemma_row_parts(prefix, bare, suffix);
}

/// A row falls apart into its three parts again.
proof fn lemma_row_parts(prefix: Seq<char>, display: Seq<char>, suffix: Seq<char>)
    ensures
        ({
            let line = prefix + display + suffix;
            &&& line.len() == prefix.len() + display.len() + suffix.len()
            &&& line.take(prefix.len() as int) == prefix
            &&& line.skip(line.len() - suffix.len()) == suffix
            &&& line.subrange(prefix.len() as int, line.len() - suffix.len()) == display
        }),
{
    let line = prefix + display + suffix;
    assert(line.take(prefix.len() as int) =~= prefix);
    assert(line.skip(line.len() - suffix.len()) =~= suffix);
    assert(line.subrange(prefix.len() as int, line.len() - suffix.len()) =~= display);
}

/// Under a depth limit the rows are those of the tree cut at the limit: each
/// row is laid out, and each entry judged the last of its branch or not, as
/// if nothing lay below the limit.
pub proof fn lemma_limit_rows_are_rows_of_the_cut_tree(
    walked: Seq<Entry>,
    include_hidden: bool,
    limit: usize,
    styled: bool,
)
    ensures
        ({
            let shown = collected(walked, walked.len() as int, include_hidden, Some(limit));
            let cut = cut_walk(walked, walked.len() as int, limit);
            let of_cut = collected(cut, cut.len() as int, include_hidden, None);
            &&& shown.len() == of_cut.len()
            &&& forall|i: int| #![trigger shown[i]] 0 <= i < shown.len() ==> shown[i].depth <= limit
            &&& forall|i: int|
                0 <= i < shown.len() ==> is_last_at(depths_of(shown), i) == is_last_at(
                    depths_of(of_cut),
                    i,
                ) && #[trigger] row_prefix(depths_of(shown), i) == row_prefix(depths_of(of_cut), i)
            &&& forall|i: int, line: Seq<char>|
                0 <= i < shown.len() ==> (#[trigger] is_row(line, shown, i, styled) <==> is_row(
                    line,
                    of_cut,
                    i,
                    styled,
                ))
        }),
{
    lemma_limit_shows_the_cut_tree(walked, include_hidden, limit);
    lemma_shown_entries_pass(walked, walked.len() as int, include_hidden, Some(limit));
}

} // verus!
