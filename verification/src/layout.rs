//! The shape of the tree: last-entry detection, the per-depth flags and the
//! prefix drawn in front of every name.
//!
//! The root is drawn bare: an entry at depth 0 has no prefix at all, and the
//! guide columns of a deeper entry start with depth 1.

use vstd::prelude::*;

verus! {

/// Whether the entry at position `i` closes its branch: it ends the walk, or
/// the entry after it lies at a strictly shallower depth.
pub open spec fn is_last_at(depths: Seq<usize>, i: int) -> bool {
    i + 1 >= depths.len() || depths[i + 1] < depths[i]
}

/// The flag read for depth `a`. A depth that no flag was recorded for reads
/// as `false`: the vertical guide continues.
pub open spec fn flag_of(flags: Seq<bool>, a: int) -> bool {
    0 <= a < flags.len() && flags[a]
}

/// The flags after `last` was recorded for `depth`: the flag at `depth` is
/// `last`, every other flag is kept, and the sequence has grown just far
/// enough to hold index `depth`.
pub open spec fn recorded(flags: Seq<bool>, depth: int, last: bool) -> Seq<bool> {
    Seq::new(
        if depth < flags.len() {
            flags.len()
        } else {
            (depth + 1) as nat
        },
        |a: int|
            if a == depth {
                last
            } else {
                flag_of(flags, a)
            },
    )
}

/// The flags once the first `n` entries of a walk have been recorded, each
/// with the result of the lookahead rule.
pub open spec fn flags_after(depths: Seq<usize>, n: int) -> Seq<bool>
    decreases n,
{
    if n <= 0 {
        Seq::empty()
    } else {
        recorded(flags_after(depths, n - 1), depths[n - 1] as int, is_last_at(depths, n - 1))
    }
}

/// The guide column of one ancestor depth: blank once that branch is closed,
/// a vertical bar while an entry still follows at that depth.
pub open spec fn guide_text(closed: bool) -> Seq<char> {
    if closed {
        "    "@
    } else {
        "│   "@
    }
}

/// The connector in front of the name: none for the root, a corner for an
/// entry that closes its branch, a tee for any other.
pub open spec fn connector_text(depth: usize, last: bool) -> Seq<char> {
    if depth == 0 {
        Seq::empty()
    } else if last {
        "└── "@
    } else {
        "├── "@
    }
}

/// The tee connector.
pub open spec fn tee_text() -> Seq<char> {
    "├── "@
}

/// The guide columns for the ancestor depths `from`, `from + 1`, and so on up
/// to but not including `to`.
pub open spec fn guides_text(flags: Seq<bool>, from: int, to: int) -> Seq<char>
    decreases to - from,
{
    if to <= from {
        Seq::empty()
    } else {
        guides_text(flags, from, to - 1) + guide_text(flag_of(flags, to - 1))
    }
}

/// The whole prefix of an entry at `depth`: nothing for the root, otherwise
/// the guide columns of depths 1 up to `depth`, then the connector.
pub open spec fn prefix_text(flags: Seq<bool>, depth: usize, last: bool) -> Seq<char> {
    if depth == 0 {
        Seq::empty()
    } else {
        guides_text(flags, 1, depth as int) + connector_text(depth, last)
    }
}

/// The prefix of row `i` of a walk with these depths.
pub open spec fn row_prefix(depths: Seq<usize>, i: int) -> Seq<char> {
    prefix_text(flags_after(depths, i + 1), depths[i], is_last_at(depths, i))
}

/// The flag that the first `n` entries of a walk leave for depth `a`: the
/// lookahead result of the latest of them at that depth, `false` if none of
/// them lies there.
pub open spec fn flag_at(depths: Seq<usize>, n: int, a: int) -> bool
    decreases n,
{
    if n <= 0 {
        false
    } else if depths[n - 1] == a {
        is_last_at(depths, n - 1)
    } else {
        flag_at(depths, n - 1, a)
    }
}

/// The number of depths that the first `n` entries of a walk span: one more
/// than the greatest depth among them, 0 for no entry.
pub open spec fn depth_span(depths: Seq<usize>, n: int) -> int
    decreases n,
{
    if n <= 0 {
        0
    } else if depths[n - 1] < depth_span(depths, n - 1) {
        depth_span(depths, n - 1)
    } else {
        depths[n - 1] + 1
    }
}

/// Whether every entry after position `i` lies at a strictly shallower depth
/// than entry `i` (trivially so for the final entry).
pub open spec fn only_shallower_follow(depths: Seq<usize>, i: int) -> bool {
    forall|j: int| i < j < depths.len() ==> depths[j] < depths[i]
}

/// Whether the depths are those of a depth-first pre-order walk: it starts at
/// the root, stays below it, and never descends by more than one level at a
/// time.
pub open spec fn is_preorder(depths: Seq<usize>) -> bool {
    &&& depths.len() > 0 ==> depths[0] == 0
    &&& forall|i: int| 0 < i < depths.len() ==> 0 < #[trigger] depths[i] <= depths[i - 1] + 1
}

/// Decides by a lookahead of one entry whether entry `i` closes its branch.
pub fn is_last(depths: &Vec<usize>, i: usize) -> (last: bool)
    requires
        i < depths.len(),
    ensures
        last == is_last_at(depths@, i as int),
{
    if i + 1 >= depths.len() {
        true
    } else {
        depths[i + 1] < depths[i]
    }
}

/// The text of one guide column.
pub fn guide(closed: bool) -> (text: &'static str)
    ensures
        text@ == guide_text(closed),
{
    if closed {
        "    "
    } else {
        "│   "
    }
}

/// The text of the connector. The root never gets a tee: it gets nothing.
pub fn connector(depth: usize, last: bool) -> (text: &'static str)
    ensures
        text@ == connector_text(depth, last),
        depth == 0 ==> text@.len() == 0 && text@ != tee_text(),
{
    proof {
        reveal_strlit("");
        reveal_strlit("├── ");
    }
    if depth == 0 {
        ""
    } else if last {
        "└── "
    } else {
        "├── "
    }
}

/// One flag per depth: whether the entry seen most recently at that depth
/// closed its branch.
pub struct RenderState {
    pub last_at_depth: Vec<bool>,
}

impl View for RenderState {
    type V = Seq<bool>;

    open spec fn view(&self) -> Seq<bool> {
        self.last_at_depth@
    }
}

impl RenderState {
    /// The state at the start of a pass: no depth has been seen.
    pub fn new() -> (state: RenderState)
        ensures
            state@ == Seq::<bool>::empty(),
    {
        RenderState { last_at_depth: Vec::new() }
    }

    /// Records `last` for `depth`, over the flag of an earlier entry at that
    /// depth if there is one. Depths skipped on the way get `false`.
    pub fn record(&mut self, depth: usize, last: bool)
        ensures
            final(self)@ == recorded(old(self)@, depth as int, last),
    {
        while self.last_at_depth.len() < depth
            invariant
                old(self)@.len() <= self@.len(),
                self@.len() <= depth || self@.len() == old(self)@.len(),
                forall|a: int| 0 <= a < self@.len() ==> self@[a] == flag_of(old(self)@, a),
            decreases depth - self.last_at_depth.len(),
        {
            self.last_at_depth.push(false);
        }
        if self.last_at_depth.len() == depth {
            self.last_at_depth.push(last);
        } else {
            self.last_at_depth[depth] = last;
        }
    }

    /// Whether the branch at `depth` is closed, as far as recorded.
    pub fn closed_at(&self, depth: usize) -> (closed: bool)
        ensures
            closed == flag_of(self@, depth as int),
    {
        depth < self.last_at_depth.len() && self.last_at_depth[depth]
    }

    /// Builds the prefix of an entry at `depth` from the recorded flags.
    pub fn prefix(&self, depth: usize, last: bool) -> (text: String)
        ensures
            text@ == prefix_text(self@, depth, last),
    {
        let mut text = String::new();
        if depth > 0 {
            let mut a: usize = 1;
            while a < depth
                invariant
                    1 <= a <= depth,
                    text@ == guides_text(self@, 1, a as int),
                decreases depth - a,
            {
                text.append(guide(self.closed_at(a)));
                a += 1;
            }
            text.append(connector(depth, last));
        }
        text
    }
}

/// The prefixes of all rows of a walk, from the depths of its entries alone.
pub fn prefixes(depths: &Vec<usize>) -> (rows: Vec<String>)
    ensures
        rows.len() == depths.len(),
        forall|i: int| 0 <= i < depths.len() ==> (#[trigger] rows[i])@ == row_prefix(depths@, i),
{
    let mut rows: Vec<String> = Vec::new();
    let mut state = RenderState::new();
    let mut i: usize = 0;
    while i < depths.len()
        invariant
            i <= depths.len(),
            rows.len() == i,
            state@ == flags_after(depths@, i as int),
            forall|k: int| 0 <= k < i ==> (#[trigger] rows[k])@ == row_prefix(depths@, k),
        decreases depths.len() - i,
    {
        let last = is_last(depths, i);
        state.record(depths[i], last);
        rows.push(state.prefix(depths[i], last));
        i += 1;
    }
    rows
}

} // verus!
