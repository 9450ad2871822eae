//! Which entries of a walk are shown: the hidden-entry policy and the depth
//! limit.
//!
//! A walker can be handed [`admits`] to keep it from descending into what is
//! not shown. [`collect_entries`] applies the same policy, and the depth limit,
//! to a walk that is already in hand.

use crate::entry::Entry;
use vstd::prelude::*;

verus! {

/// A name is hidden if it begins with a dot.
pub open spec fn is_hidden_name(name: Seq<char>) -> bool {
    name.len() > 0 && name[0] == '.'
}

/// The hidden-entry policy for one entry: the root is always admitted, a
/// hidden name below it only on request.
pub open spec fn admitted(depth: usize, name: Seq<char>, include_hidden: bool) -> bool {
    depth == 0 || include_hidden || !is_hidden_name(name)
}

/// The depth limit for one entry: without a limit every depth is within it,
/// with one every depth up to and including the limit.
pub open spec fn within_limit(depth: usize, max_depth: Option<usize>) -> bool {
    match max_depth {
        Some(limit) => depth <= limit,
        None => true,
    }
}

/// Whether entry `i` is entry `j` itself or lies in the subtree below it: no
/// entry after `j` up to and including `i` has come back up to the depth of
/// `j`.
pub open spec fn lies_under(walked: Seq<Entry>, j: int, i: int) -> bool {
    &&& 0 <= j <= i < walked.len()
    &&& forall|k: int| j < k <= i ==> (#[trigger] walked[k]).depth > walked[j].depth
}

/// Whether the hidden-entry policy turns away entry `j`, and with it all that
/// lies below, which includes entry `i`.
pub open spec fn cut_off_by(walked: Seq<Entry>, j: int, i: int, include_hidden: bool) -> bool {
    lies_under(walked, j, i) && !admitted(walked[j].depth, walked[j].name@, include_hidden)
}

/// Whether entry `i` is left out by the hidden-entry policy: it is turned
/// away itself, or lies below an entry that is.
pub open spec fn pruned(walked: Seq<Entry>, i: int, include_hidden: bool) -> bool {
    exists|j: int| cut_off_by(walked, j, i, include_hidden)
}

/// Whether entry `i` of a walk is shown.
pub open spec fn retained(
    walked: Seq<Entry>,
    i: int,
    include_hidden: bool,
    max_depth: Option<usize>,
) -> bool {
    !pruned(walked, i, include_hidden) && within_limit(walked[i].depth, max_depth)
}

/// The entries among the first `n` of a walk that are shown, in the order of
/// the walk.
pub open spec fn collected(
    walked: Seq<Entry>,
    n: int,
    include_hidden: bool,
    max_depth: Option<usize>,
) -> Seq<Entry>
    decreases n,
{
    if n <= 0 {
        Seq::empty()
    } else if retained(walked, n - 1, include_hidden, max_depth) {
        collected(walked, n - 1, include_hidden, max_depth).push(walked[n - 1])
    } else {
        collected(walked, n - 1, include_hidden, max_depth)
    }
}

/// The walk of the tree cut off below `limit`: the first `n` entries without
/// those that lie deeper.
pub open spec fn cut_walk(walked: Seq<Entry>, n: int, limit: usize) -> Seq<Entry> {
    collected(walked, n, true, Some(limit))
}

/// Whether a name is hidden.
pub fn is_hidden(name: &str) -> (hidden: bool)
    ensures
        hidden == is_hidden_name(name@),
{
    !name.is_empty() && name.get_char(0) == '.'
}

/// The predicate to hand to a walker: an entry that it does not admit is
/// neither shown nor descended into.
pub fn admits(depth: usize, name: &str, include_hidden: bool) -> (shown: bool)
    ensures
        shown == admitted(depth, name@, include_hidden),
{
    depth == 0 || include_hidden || !is_hidden(name)
}

/// Whether a depth is within the configured limit.
pub fn within_depth(depth: usize, max_depth: Option<usize>) -> (within: bool)
    ensures
        within == within_limit(depth, max_depth),
{
    match max_depth {
        Some(limit) => depth <= limit,
        None => true,
    }
}

/// Whether entry `j`, before position `i`, was turned away and nothing from
/// it up to position `i` has left its subtree.
spec fn open_cut(walked: Seq<Entry>, j: int, i: int, include_hidden: bool) -> bool {
    &&& 0 <= j < i <= walked.len()
    &&& !admitted(walked[j].depth, walked[j].name@, include_hidden)
    &&& forall|k: int| j < k < i ==> (#[trigger] walked[k]).depth > walked[j].depth
}

/// What the loop of [`collect_entries`] knows at position `i`: `skip_below`
/// is the depth of the outermost cut that is still open, if any is.
spec fn tracks_cuts(
    walked: Seq<Entry>,
    i: int,
    include_hidden: bool,
    skip_below: Option<usize>,
) -> bool {
    match skip_below {
        Some(depth) => {
            &&& exists|j: int| #[trigger]
                open_cut(walked, j, i, include_hidden) && walked[j].depth == depth
            &&& forall|j: int| #[trigger]
                open_cut(walked, j, i, include_hidden) ==> walked[j].depth >= depth
        },
        None => forall|j: int| !#[trigger] open_cut(walked, j, i, include_hidden),
    }
}

/// Selects the entries of a walk that are shown. The walk is in depth-first
/// pre-order; an entry that the hidden-entry policy turns away takes all that
/// lies below it along, and the depth limit then drops what is deeper.
pub fn collect_entries(walked: &Vec<Entry>, include_hidden: bool, max_depth: Option<usize>) -> (kept:
    Vec<Entry>)
    ensures
        kept@ == collected(walked@, walked.len() as int, include_hidden, max_depth),
{
    let mut kept: Vec<Entry> = Vec::new();
    let mut skip_below: Option<usize> = None;
    let mut i: usize = 0;
    while i < walked.len()
        invariant
            i <= walked.len(),
            kept@ == collected(walked@, i as int, include_hidden, max_depth),
            tracks_cuts(walked@, i as int, include_hidden, skip_below),
        decreases walked.len() - i,
    {
        let entry = &walked[i];
        let below_cut = match skip_below {
            Some(depth) => entry.depth > depth,
            None => false,
        };
        if below_cut {
            proof {
                let j = choose|j: int| #[trigger]
                    open_cut(walked@, j, i as int, include_hidden) && walked@[j].depth
                        == skip_below->0;
                assert(cut_off_by(walked@, j, i as int, include_hidden));
                assert(open_cut(walked@, j, i + 1, include_hidden));
                assert forall|q: int| #[trigger]
                    open_cut(walked@, q, i + 1, include_hidden) implies walked@[q].depth
                    >= skip_below->0 by {
                    if q < i {
                        assert(open_cut(walked@, q, i as int, include_hidden));
                    }
                }
            }
        } else {
            proof {
                assert forall|q: int| #[trigger]
                    open_cut(walked@, q, i as int, include_hidden) implies walked@[q].depth
                    >= entry.depth by {}
            }
            if admits(entry.depth, entry.name.as_str(), include_hidden) {
                proof {
                    assert forall|q: int| !cut_off_by(walked@, q, i as int, include_hidden) by {
                        if cut_off_by(walked@, q, i as int, include_hidden) {
                            assert(open_cut(walked@, q, i as int, include_hidden));
                        }
                    }
                    assert forall|q: int| !#[trigger]
                        open_cut(walked@, q, i + 1, include_hidden) by {
                        if open_cut(walked@, q, i + 1, include_hidden) {
                            assert(open_cut(walked@, q, i as int, include_hidden));
                        }
                    }
                }
                skip_below = None;
                if within_depth(entry.depth, max_depth) {
                    kept.push(entry.clone());
                }
            } else {
                proof {
                    assert(cut_off_by(walked@, i as int, i as int, include_hidden));
                    assert(open_cut(walked@, i as int, i + 1, include_hidden));
                    assert forall|q: int| #[trigger]
                        open_cut(walked@, q, i + 1, include_hidden) implies walked@[q].depth
                        >= entry.depth by {
                        if q < i {
                            assert(open_cut(walked@, q, i as int, include_hidden));
                        }
                    }
                }
                skip_below = Some(entry.depth);
            }
        }
        i += 1;
    }
    kept
}

} // verus!
