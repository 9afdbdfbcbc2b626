//! What to show when an item is selected: the rows, which collection item
//! each row stands for, and which upcoming images to decode ahead of time.
use vstd::prelude::*;

verus! {

/// How many upcoming images are decoded ahead of the selection.
pub const PREFETCH_COUNT: usize = 2;

/// Rows of the view for a selection: row `r` shows collection item `rows[r]`,
/// so the vector is also the map from row index to collection index.
pub struct ViewPlan {
    pub rows: Vec<usize>,
    pub prefetch: Vec<usize>,
}

/// The selected item first, then its similar items in stored order.
pub open spec fn row_order(selected: usize, similars: Seq<usize>) -> Seq<usize> {
    seq![selected] + similars
}

/// Item `j` is worth decoding ahead: it lies after the selection, is an image,
/// and is not already among the rows.
pub open spec fn prefetch_candidate(
    selected: usize,
    similars: Seq<usize>,
    is_image: Seq<bool>,
    j: int,
) -> bool {
    selected < j < is_image.len() && !similars.contains(j as usize) && is_image[j]
}

/// The first `left` candidates at or after index `from`, in increasing order.
pub open spec fn prefetch_targets(
    selected: usize,
    similars: Seq<usize>,
    is_image: Seq<bool>,
    from: int,
    left: nat,
) -> Seq<usize>
    decreases is_image.len() - from, left,
{
    if left == 0 || from >= is_image.len() || from < 0 {
        Seq::empty()
    } else if prefetch_candidate(selected, similars, is_image, from) {
        seq![from as usize] + prefetch_targets(selected, similars, is_image, from + 1, (left - 1) as nat)
    } else {
        prefetch_targets(selected, similars, is_image, from + 1, left)
    }
}

/// Whether `v` holds `x`.
pub fn contains_index(v: &Vec<usize>, x: usize) -> (r: bool)
    ensures
        r == v@.contains(x),
{
    let mut i: usize = 0;
    while i < v.len()
        invariant
            i <= v@.len(),
            forall|j: int| 0 <= j < i ==> v@[j] != x,
        decreases v@.len() - i,
    {
        if v[i] == x {
            return true;
        }
        i += 1;
    }
    false
}

/// Plans the view for the item at `selected` of a collection whose items are
/// images where `is_image` says so, given that item's similar items.
pub fn plan_view(selected: usize, similars: &Vec<usize>, is_image: &Vec<bool>) -> (r: ViewPlan)
    requires
        selected < is_image@.len(),
    ensures
        r.rows@ == row_order(selected, similars@),
        r.prefetch@ == prefetch_targets(
            selected,
            similars@,
            is_image@,
            selected + 1,
            PREFETCH_COUNT as nat,
        ),
{
    let mut rows: Vec<usize> = Vec::new();
    rows.push(selected);
    let mut k: usize = 0;
    while k < similars.len()
        invariant
            k <= similars@.len(),
            rows@ == seq![selected] + similars@.subrange(0, k as int),
        decreases similars@.len() - k,
    {
        rows.push(similars[k]);
        k += 1;
        assert(rows@ =~= seq![selected] + similars@.subrange(0, k as int));
    }
    assert(similars@.subrange(0, similars@.len() as int) =~= similars@);

    let ghost goal = prefetch_targets(
        selected,
        similars@,
        is_image@,
        selected + 1,
        PREFETCH_COUNT as nat,
    );
    let mut prefetch: Vec<usize> = Vec::new();
    let n = is_image.len();
    let mut prefetch_index: usize = selected + 1;
    let mut prefetches: usize = PREFETCH_COUNT;
    while prefetches > 0 && prefetch_index < n
        invariant
            n == is_image@.len(),
            selected < prefetch_index <= is_image@.len(),
            prefetches <= PREFETCH_COUNT,
            prefetch@ + prefetch_targets(
                selected,
                similars@,
                is_image@,
                prefetch_index as int,
                prefetches as nat,
            ) == goal,
        decreases is_image@.len() - prefetch_index,
    {
        if !contains_index(similars, prefetch_index) && is_image[prefetch_index] {
            prefetch.push(prefetch_index);
            prefetches -= 1;
            assert(prefetch@ + prefetch_targets(
                selected,
                similars@,
                is_image@,
                prefetch_index + 1,
                prefetches as nat,
            ) =~= goal);
        }
        prefetch_index += 1;
    }
    assert(prefetch@ =~= prefetch@ + Seq::<usize>::empty());
    ViewPlan { rows, prefetch }
}

/// Flips the take-over decision of the item shown in `row`; returns the new
/// decision.
pub fn toggle_take_over(rows: &Vec<usize>, row: usize, take_over: &mut Vec<bool>) -> (r: bool)
    requires
        row < rows@.len(),
        rows@[row as int] < old(take_over)@.len(),
    ensures
        r == !old(take_over)@[rows@[row as int] as int],
        final(take_over)@ == old(take_over)@.update(rows@[row as int] as int, r),
{
    let index = rows[row];
    let flipped = !take_over[index];
    take_over.set(index, flipped);
    flipped
}

/// A named range of days; an item whose day lies in it belongs to the event.
pub struct EventRange {
    pub name: String,
    pub first_day: i64,
    pub last_day: i64,
}

pub open spec fn in_event(e: EventRange, day: i64) -> bool {
    e.first_day <= day <= e.last_day
}

/// Index of the first event whose range holds `day`, if any.
pub fn find_event(events: &Vec<EventRange>, day: i64) -> (r: Option<usize>)
    ensures
        match r {
            Some(i) => i < events@.len() && in_event(events@[i as int], day) && forall|j: int|
                0 <= j < i ==> !in_event(#[trigger] events@[j], day),
            None => forall|j: int| 0 <= j < events@.len() ==> !in_event(#[trigger] events@[j], day),
        },
{
    let mut i: usize = 0;
    while i < events.len()
        invariant
            i <= events@.len(),
            forall|j: int| 0 <= j < i ==> !in_event(#[trigger] events@[j], day),
        decreases events@.len() - i,
    {
        if events[i].first_day <= day && day <= events[i].last_day {
            return Some(i);
        }
        i += 1;
    }
    None
}

} // verus!
