//! What holds of the shape of the tree, whatever the depths.

use crate::layout::{
    connector_text, depth_span, flag_at, flag_of, flags_after, guides_text, is_last_at, is_preorder,
    only_shallower_follow, recorded, row_prefix,
};
use vstd::prelude::*;

verus! {

/// The recorded flags never reach beyond the deepest entry seen so far, and
/// each of them is the lookahead result of the entry seen most recently at its
/// depth.
pub proof fn lemma_flags_after(depths: Seq<usize>, n: int)
    requires
        0 <= n <= depths.len(),
    ensures
        flags_after(depths, n).len() == depth_span(depths, n),
        forall|a: int| flag_of(flags_after(depths, n), a) == flag_at(depths, n, a),
    decreases n,
{
    if n > 0 {
        lemma_flags_after(depths, n - 1);
        let before = flags_after(depths, n - 1);
        assert forall|a: int| flag_of(flags_after(depths, n), a) == flag_at(depths, n, a) by {
            assert(flag_of(before, a) == flag_at(depths, n - 1, a));
        }
    }
}

/// The flags only grow: recording one more entry never shortens them.
pub proof fn lemma_flags_grow(depths: Seq<usize>, n: int)
    requires
        0 <= n < depths.len(),
    ensures
        flags_after(depths, n).len() <= flags_after(depths, n + 1).len(),
        depths[n] < flags_after(depths, n + 1).len(),
{
}

/// An entry that only shallower entries follow closes its branch by the
/// lookahead rule too.
pub proof fn lemma_only_shallower_follow_implies_last(depths: Seq<usize>, i: int)
    requires
        0 <= i < depths.len(),
    ensures
        only_shallower_follow(depths, i) ==> is_last_at(depths, i),
{
}

/// The lookahead rule and the reading over all later entries agree on an
/// entry, as long as no entry after the next one climbs back to the entry's
/// depth once the next one has receded below it.
pub proof fn lemma_last_agrees_with_all_later(depths: Seq<usize>, i: int)
    requires
        0 <= i < depths.len(),
        i + 1 < depths.len() && depths[i + 1] < depths[i] ==> forall|j: int|
            i + 1 < j < depths.len() ==> depths[j] < depths[i],
    ensures
        is_last_at(depths, i) <==> only_shallower_follow(depths, i),
{
}

/// The root row is drawn flush left: it has no guide column and no connector,
/// so in particular no tee.
pub proof fn lemma_root_row_is_bare(depths: Seq<usize>, i: int)
    requires
        0 <= i < depths.len(),
        depths[i] == 0,
    ensures
        row_prefix(depths, i) == Seq::<char>::empty(),
{
}

/// Below the root every row ends its prefix with a connector: the corner if
/// the entry closes its branch, the tee if not.
pub proof fn lemma_row_prefix_ends_with_connector(depths: Seq<usize>, i: int)
    requires
        0 <= i < depths.len(),
        depths[i] > 0,
    ensures
        row_prefix(depths, i) == guides_text(flags_after(depths, i + 1), 1, depths[i] as int)
            + connector_text(depths[i], is_last_at(depths, i)),
        guides_text(flags_after(depths, i + 1), 1, depths[i] as int) == guides_text(
            flags_after(depths, i),
            1,
            depths[i] as int,
        ),
{
    lemma_guides_ignore_deeper(
        flags_after(depths, i),
        depths[i] as int,
        is_last_at(depths, i),
        depths[i] as int,
    );
}

/// Recording a flag for `depth` leaves the guide columns of the shallower
/// depths as they were.
pub proof fn lemma_guides_ignore_deeper(flags: Seq<bool>, depth: int, last: bool, to: int)
    requires
        0 <= depth,
        to <= depth,
    ensures
        guides_text(recorded(flags, depth, last), 1, to) == guides_text(flags, 1, to),
    decreases to,
{
    if to > 1 {
        lemma_guides_ignore_deeper(flags, depth, last, to - 1);
    }
}

/// In a pre-order walk no depth is ever skipped: when an entry is recorded,
/// its flag overwrites an earlier one or is appended right behind the last.
pub proof fn lemma_preorder_appends_or_overwrites(depths: Seq<usize>, n: int)
    requires
        is_preorder(depths),
        0 <= n < depths.len(),
    ensures
        depths[n] <= flags_after(depths, n).len(),
        flags_after(depths, n + 1).len() <= flags_after(depths, n).len() + 1,
{
}

/// Every guide column and every connector is four characters wide, so the
/// prefix of a row is four characters for each level of its depth.
pub proof fn lemma_row_prefix_len(depths: Seq<usize>, i: int)
    requires
        0 <= i < depths.len(),
    ensures
        row_prefix(depths, i).len() == 4 * depths[i],
{
    reveal_strlit("└── ");
    reveal_strlit("├── ");
    if depths[i] > 0 {
        lemma_guides_len(flags_after(depths, i + 1), depths[i] as int);
    }
}

/// The guide columns of the depths from 1 up to `to` are four characters
/// each.
pub proof fn lemma_guides_len(flags: Seq<bool>, to: int)
    requires
        1 <= to,
    ensures
        guides_text(flags, 1, to).len() == 4 * (to - 1),
    decreases to,
{
    reveal_strlit("    ");
    reveal_strlit("│   ");
    if to > 1 {
        lemma_guides_len(flags, to - 1);
    }
}

} // verus!
