//! What holds of the entries that are shown, whatever the walk.

use crate::collect::{admitted, collected, cut_off_by, cut_walk, pruned, retained, within_limit};
use crate::entry::{depths_of, Entry};
use crate::layout::is_preorder;
use vstd::prelude::*;

verus! {

/// No more entries are shown than were walked.
pub proof fn lemma_collected_len(
    walked: Seq<Entry>,
    n: int,
    include_hidden: bool,
    max_depth: Option<usize>,
)
    requires
        0 <= n <= walked.len(),
    ensures
        collected(walked, n, include_hidden, max_depth).len() <= n,
    decreases n,
{
    if n > 0 {
        lemma_collected_len(walked, n - 1, include_hidden, max_depth);
    }
}

/// Every entry that is shown passes the hidden-entry policy and lies within
/// the depth limit: under a limit, nothing deeper ever appears.
pub proof fn lemma_shown_entries_pass(
    walked: Seq<Entry>,
    n: int,
    include_hidden: bool,
    max_depth: Option<usize>,
)
    requires
        0 <= n <= walked.len(),
    ensures
        forall|k: int|
            0 <= k < collected(walked, n, include_hidden, max_depth).len() ==> {
                let entry = #[trigger] collected(walked, n, include_hidden, max_depth)[k];
                admitted(entry.depth, entry.name@, include_hidden) && within_limit(
                    entry.depth,
                    max_depth,
                )
            },
    decreases n,
{
    if n > 0 {
        lemma_shown_entries_pass(walked, n - 1, include_hidden, max_depth);
        if retained(walked, n - 1, include_hidden, max_depth) {
            assert(!cut_off_by(walked, n - 1, n - 1, include_hidden));
        }
    }
}

/// The entries are shown in the order of the walk: an entry that is retained
/// stands at the position that the number of entries shown before it gives.
pub proof fn lemma_shown_entry_position(
    walked: Seq<Entry>,
    n: int,
    i: int,
    include_hidden: bool,
    max_depth: Option<usize>,
)
    requires
        0 <= i < n <= walked.len(),
        retained(walked, i, include_hidden, max_depth),
    ensures
        collected(walked, i, include_hidden, max_depth).len() < collected(
            walked,
            n,
            include_hidden,
            max_depth,
        ).len(),
        collected(walked, n, include_hidden, max_depth)[collected(
            walked,
            i,
            include_hidden,
            max_depth,
        ).len() as int] == walked[i],
    decreases n,
{
    if n > i + 1 {
        lemma_shown_entry_position(walked, n - 1, i, include_hidden, max_depth);
    }
}

/// The root of the walk is shown whatever its name and whatever the limit.
pub proof fn lemma_root_is_shown(
    walked: Seq<Entry>,
    include_hidden: bool,
    max_depth: Option<usize>,
)
    requires
        walked.len() > 0,
        walked[0].depth == 0,
    ensures
        collected(walked, walked.len() as int, include_hidden, max_depth).len() > 0,
        collected(walked, walked.len() as int, include_hidden, max_depth)[0] == walked[0],
{
    assert forall|j: int| !#[trigger] cut_off_by(walked, j, 0, include_hidden) by {}
    lemma_shown_entry_position(walked, walked.len() as int, 0, include_hidden, max_depth);
}

/// With hidden entries included and no depth limit the walk is shown whole.
pub proof fn lemma_unfiltered_walk_is_shown_whole(walked: Seq<Entry>, n: int)
    requires
        0 <= n <= walked.len(),
    ensures
        collected(walked, n, true, None) == walked.take(n),
    decreases n,
{
    if n > 0 {
        lemma_unfiltered_walk_is_shown_whole(walked, n - 1);
        let i = n - 1;
        assert forall|j: int| !#[trigger] cut_off_by(walked, j, i, true) by {}
    }
}

/// Walking on only adds to what is shown: what the first `n` entries show
/// begins with what the first `m` of them show.
pub proof fn lemma_collected_prefix(
    walked: Seq<Entry>,
    m: int,
    n: int,
    include_hidden: bool,
    max_depth: Option<usize>,
)
    requires
        0 <= m <= n <= walked.len(),
    ensures
        collected(walked, m, include_hidden, max_depth).len() <= collected(
            walked,
            n,
            include_hidden,
            max_depth,
        ).len(),
        collected(walked, n, include_hidden, max_depth).take(
            collected(walked, m, include_hidden, max_depth).len() as int,
        ) == collected(walked, m, include_hidden, max_depth),
    decreases n,
{
    if n > m {
        lemma_collected_prefix(walked, m, n - 1, include_hidden, max_depth);
    }
}

/// Where an entry of the cut walk stood in the walk.
proof fn lemma_cut_origin(walked: Seq<Entry>, n: int, limit: usize, at: int) -> (i: int)
    requires
        0 <= n <= walked.len(),
        0 <= at < cut_walk(walked, n, limit).len(),
    ensures
        0 <= i < n,
        walked[i].depth <= limit,
        cut_walk(walked, i, limit).len() == at,
    decreases n,
{
    if at < cut_walk(walked, n - 1, limit).len() {
        lemma_cut_origin(walked, n - 1, limit, at)
    } else {
        n - 1
    }
}

/// Where two entries of the walk stand in the cut walk tells which of them
/// was walked first.
proof fn lemma_cut_order(walked: Seq<Entry>, i: int, k: int, limit: usize)
    requires
        0 <= i < walked.len(),
        0 <= k <= walked.len(),
        walked[i].depth <= limit,
    ensures
        k <= i <==> cut_walk(walked, k, limit).len() <= cut_walk(walked, i, limit).len(),
{
    if k <= i {
        lemma_collected_prefix(walked, k, i, true, Some(limit));
    } else {
        lemma_collected_prefix(walked, i + 1, k, true, Some(limit));
    }
}

/// An entry within the limit is cut off in the walk exactly if it is cut
/// off in the cut walk.
proof fn lemma_pruned_in_cut_walk(walked: Seq<Entry>, n: int, include_hidden: bool, limit: usize)
    requires
        0 <= n < walked.len(),
        walked[n].depth <= limit,
    ensures
        pruned(walked, n, include_hidden) == pruned(
            cut_walk(walked, walked.len() as int, limit),
            cut_walk(walked, n, limit).len() as int,
            include_hidden,
        ),
{
    let len = walked.len() as int;
    let cut = cut_walk(walked, len, limit);
    let at = cut_walk(walked, n, limit).len() as int;
    lemma_shown_entry_position(walked, len, n, true, Some(limit));
    if pruned(walked, n, include_hidden) {
        let j = choose|j: int| cut_off_by(walked, j, n, include_hidden);
        let from = cut_walk(walked, j, limit).len() as int;
        lemma_shown_entry_position(walked, len, j, true, Some(limit));
        lemma_cut_order(walked, n, j, limit);
        assert forall|q: int| from < q <= at implies (#[trigger] cut[q]).depth > cut[from].depth by {
            let k = lemma_cut_origin(walked, len, limit, q);
            lemma_shown_entry_position(walked, len, k, true, Some(limit));
            lemma_cut_order(walked, j, k, limit);
            lemma_cut_order(walked, n, k, limit);
        }
        assert(cut_off_by(cut, from, at, include_hidden));
    }
    if pruned(cut, at, include_hidden) {
        let from = choose|from: int| cut_off_by(cut, from, at, include_hidden);
        let j = lemma_cut_origin(walked, len, limit, from);
        lemma_shown_entry_position(walked, len, j, true, Some(limit));
        lemma_cut_order(walked, n, j, limit);
        assert forall|k: int| j < k <= n implies (#[trigger] walked[k]).depth > walked[j].depth by {
            if walked[k].depth <= limit {
                lemma_shown_entry_position(walked, len, k, true, Some(limit));
                lemma_cut_order(walked, j, k, limit);
                lemma_cut_order(walked, n, k, limit);
            }
        }
        assert(cut_off_by(walked, j, n, include_hidden));
    }
}

/// What the first `n` entries show under a limit is what the cut walk shows
/// up to the same point without one.
proof fn lemma_limit_step(walked: Seq<Entry>, n: int, include_hidden: bool, limit: usize)
    requires
        0 <= n <= walked.len(),
    ensures
        collected(walked, n, include_hidden, Some(limit)) == collected(
            cut_walk(walked, walked.len() as int, limit),
            cut_walk(walked, n, limit).len() as int,
            include_hidden,
            None,
        ),
    decreases n,
{
    if n > 0 {
        let len = walked.len() as int;
        lemma_limit_step(walked, n - 1, include_hidden, limit);
        if walked[n - 1].depth <= limit {
            lemma_pruned_in_cut_walk(walked, n - 1, include_hidden, limit);
            lemma_shown_entry_position(walked, len, n - 1, true, Some(limit));
        }
    }
}

/// A depth limit shows the tree as if nothing lay below the limit: what a
/// walk shows under the limit is what the walk of the cut tree shows without
/// one. So the rows of the entries that stay are laid out among themselves,
/// not among what the limit took away.
pub proof fn lemma_limit_shows_the_cut_tree(walked: Seq<Entry>, include_hidden: bool, limit: usize)
    ensures
        collected(walked, walked.len() as int, include_hidden, Some(limit)) == collected(
            cut_walk(walked, walked.len() as int, limit),
            cut_walk(walked, walked.len() as int, limit).len() as int,
            include_hidden,
            None,
        ),
{
    lemma_limit_step(walked, walked.len() as int, include_hidden, limit);
}

/// The entry that a later entry of a pre-order walk hangs below: the latest
/// one before it that is shallower. It is one level up, and everything
/// between the two is at least as deep as the later entry.
proof fn lemma_parent(walked: Seq<Entry>, i: int, from: int) -> (parent: int)
    requires
        is_preorder(depths_of(walked)),
        0 <= from < i < walked.len(),
        forall|k: int| from < k < i ==> (#[trigger] walked[k]).depth >= walked[i].depth,
    ensures
        0 <= parent < i,
        walked[parent].depth + 1 == walked[i].depth,
        forall|k: int| parent < k < i ==> (#[trigger] walked[k]).depth >= walked[i].depth,
    decreases from,
{
    let depths = depths_of(walked);
    assert(depths[i] == walked[i].depth);
    assert(depths[from + 1] == walked[from + 1].depth);
    if walked[from].depth < walked[i].depth {
        from
    } else {
        lemma_parent(walked, i, from - 1)
    }
}

/// The entry shown last among the first `n` of a walk.
proof fn lemma_last_shown(
    walked: Seq<Entry>,
    n: int,
    include_hidden: bool,
    max_depth: Option<usize>,
) -> (at: int)
    requires
        0 <= n <= walked.len(),
        collected(walked, n, include_hidden, max_depth).len() > 0,
    ensures
        0 <= at < n,
        retained(walked, at, include_hidden, max_depth),
        collected(walked, n, include_hidden, max_depth).last() == walked[at],
        forall|k: int| at < k < n ==> !retained(walked, k, include_hidden, max_depth),
    decreases n,
{
    if retained(walked, n - 1, include_hidden, max_depth) {
        n - 1
    } else {
        lemma_last_shown(walked, n - 1, include_hidden, max_depth)
    }
}

/// An entry is shown only below an entry that is shown.
proof fn lemma_parent_is_shown(
    walked: Seq<Entry>,
    i: int,
    parent: int,
    include_hidden: bool,
    max_depth: Option<usize>,
)
    requires
        0 <= parent < i < walked.len(),
        walked[parent].depth < walked[i].depth,
        forall|k: int| parent < k < i ==> (#[trigger] walked[k]).depth >= walked[i].depth,
        retained(walked, i, include_hidden, max_depth),
    ensures
        retained(walked, parent, include_hidden, max_depth),
{
    if pruned(walked, parent, include_hidden) {
        let j = choose|j: int| cut_off_by(walked, j, parent, include_hidden);
        assert(cut_off_by(walked, j, i, include_hidden));
    }
}

/// What a pre-order walk shows is a pre-order walk again: the hidden-entry
/// policy takes whole subtrees away and the depth limit whole levels, so
/// what stays starts at the root and never descends by more than one level
/// at a time.
pub proof fn lemma_shown_walk_is_preorder(
    walked: Seq<Entry>,
    n: int,
    include_hidden: bool,
    max_depth: Option<usize>,
)
    requires
        is_preorder(depths_of(walked)),
        0 <= n <= walked.len(),
    ensures
        is_preorder(depths_of(collected(walked, n, include_hidden, max_depth))),
    decreases n,
{
    if n > 0 {
        let i = n - 1;
        let before = collected(walked, i, include_hidden, max_depth);
        let shown = collected(walked, n, include_hidden, max_depth);
        lemma_shown_walk_is_preorder(walked, i, include_hidden, max_depth);
        if retained(walked, i, include_hidden, max_depth) {
            if i > 0 {
                let parent = lemma_parent(walked, i, i - 1);
                lemma_parent_is_shown(walked, i, parent, include_hidden, max_depth);
                lemma_shown_entry_position(walked, i, parent, include_hidden, max_depth);
                lemma_last_shown(walked, i, include_hidden, max_depth);
                assert(before.last().depth + 1 >= walked[i].depth);
            }
            assert forall|k: int| 0 < k < shown.len() implies 0 < #[trigger] depths_of(shown)[k]
                <= depths_of(shown)[k - 1] + 1 by {
                if k < before.len() {
                    assert(depths_of(before)[k] == depths_of(shown)[k]);
                }
            }
        }
    }
}

} // verus!
