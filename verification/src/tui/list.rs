//! Selection and scrolling for the lists of the interface: the messages
//! (stacked vertically, each as tall as its lines) and the completion
//! candidates (side by side, one column apart).
use vstd::prelude::*;

verus! {

/// The selected item of a list and the first item drawn.
#[derive(Debug)]
pub struct ListState {
    /// First item to render.
    offset: usize,
    selected: Option<usize>,
}

/// Sum of `sizes[from..to]`.
pub open spec fn sum_sizes(sizes: Seq<usize>, from: int, to: int) -> int
    decreases to - from,
{
    if to <= from {
        0
    } else {
        sum_sizes(sizes, from, to - 1) + sizes[to - 1]
    }
}

/// The extent that the items `from..to` take when laid out one after another
/// with `gap` cells between neighbours.
pub open spec fn window(sizes: Seq<usize>, gap: nat, from: int, to: int) -> int {
    if to <= from {
        0
    } else {
        sum_sizes(sizes, from, to) + gap * (to - from - 1)
    }
}

/// The end of the run of items that must fit when the list starts at `offset`:
/// up to and including the selected item, or only the first item once the
/// offset has passed the selection.
pub open spec fn selection_end(len: nat, selected: nat, offset: int) -> int {
    if offset <= selected {
        selected + 1int
    } else if offset + 1 <= len {
        offset + 1
    } else {
        len as int
    }
}

/// Starting the list at `offset` shows the run up to the selected item in `extent`.
pub open spec fn fits(sizes: Seq<usize>, gap: nat, extent: nat, selected: nat, offset: int) -> bool {
    window(sizes, gap, offset, selection_end(sizes.len(), selected, offset)) <= extent
}

/// The list from `offset` to its end is shorter than `extent`, so an earlier
/// start would use more of the screen.
pub open spec fn room_above(sizes: Seq<usize>, gap: nat, extent: nat, offset: int) -> bool {
    window(sizes, gap, offset, sizes.len() as int) < extent && offset > 0
}

/// What scrolling a list of items of the given sizes into an extent does to
/// the state `(offset, selected)`, given as the state after: a selection past
/// the end moves to the last item; the offset first comes back to the
/// selection, then moves back while the rest of the list leaves room, then
/// forward until the run up to the selection fits.
pub open spec fn scrolled(
    sizes: Seq<usize>,
    gap: nat,
    extent: nat,
    offset: nat,
    selected: Option<nat>,
    new_offset: nat,
    new_selected: Option<nat>,
) -> bool {
    match selected {
        None => new_offset == 0 && new_selected is None,
        Some(s) => {
            let sel = clamped_selection(sizes.len(), s);
            &&& new_selected == Some(sel)
            &&& scrolls_to(sizes, gap, extent, sel, scroll_start(offset, sel), new_offset)
        },
    }
}

/// From `start`, the offset moves back and then forward to `new_offset` when
/// scrolling to the selected item `sel`.
pub open spec fn scrolls_to(
    sizes: Seq<usize>,
    gap: nat,
    extent: nat,
    sel: nat,
    start: nat,
    new_offset: nat,
) -> bool {
    exists|back: nat| scroll_chain(sizes, gap, extent, sel, start, back, new_offset)
}

/// A selection past the end of a list of `len` items moves to its last item.
pub open spec fn clamped_selection(len: nat, selected: nat) -> nat {
    if selected >= len {
        (len - 1) as nat
    } else {
        selected
    }
}

/// Scrolling starts from the offset, or from the selection when the offset is past it.
pub open spec fn scroll_start(offset: nat, selected: nat) -> nat {
    if offset < selected {
        offset
    } else {
        selected
    }
}

/// The two moves of the offset when scrolling to the selected item `sel` from
/// `start`: back to `back`, the first offset at or before `start` without room
/// above, then forward to `new_offset`, the first offset from `back` on at
/// which the run up to the selection fits.
pub open spec fn scroll_chain(
    sizes: Seq<usize>,
    gap: nat,
    extent: nat,
    sel: nat,
    start: nat,
    back: nat,
    new_offset: nat,
) -> bool {
    &&& back <= start
    &&& !room_above(sizes, gap, extent, back as int)
    &&& (forall|q: int| back < q <= start ==> room_above(sizes, gap, extent, q))
    &&& back <= new_offset <= sizes.len()
    &&& fits(sizes, gap, extent, sel, new_offset as int)
    &&& (forall|q: int| back <= q < new_offset ==> !fits(sizes, gap, extent, sel, q))
}

/// The positions, from the start of the extent, of the items drawn from
/// `offset` on: each item follows the previous one and a gap, and drawing
/// stops at the end of the list or once the extent is used up.
pub open spec fn laid_out(sizes: Seq<usize>, gap: nat, extent: nat, offset: nat, positions: Seq<usize>) -> bool {
    let end = offset + positions.len();
    &&& end <= sizes.len()
    &&& forall|j: int|
        0 <= j < positions.len() ==> #[trigger] positions[j] == window(sizes, gap, offset as int, offset + j)
            + (if j > 0 {
            gap as int
        } else {
            0
        }) && positions[j] < extent
    &&& (end == sizes.len() || window(sizes, gap, offset as int, end as int) + (if end > offset {
        gap as int
    } else {
        0
    }) >= extent)
}

proof fn lemma_sum_split(sizes: Seq<usize>, a: int, b: int, c: int)
    requires
        a <= b <= c,
    ensures
        sum_sizes(sizes, a, c) == sum_sizes(sizes, a, b) + sum_sizes(sizes, b, c),
    decreases c - b,
{
    if b < c {
        lemma_sum_split(sizes, a, b, c - 1);
    }
}

proof fn lemma_sum_nonneg(sizes: Seq<usize>, a: int, b: int)
    ensures
        sum_sizes(sizes, a, b) >= 0,
    decreases b - a,
{
    if a < b {
        lemma_sum_nonneg(sizes, a, b - 1);
    }
}

proof fn lemma_sum_mono(sizes: Seq<usize>, a: int, b: int, c: int)
    requires
        a <= b <= c,
    ensures
        sum_sizes(sizes, a, b) <= sum_sizes(sizes, a, c),
{
    lemma_sum_split(sizes, a, b, c);
    lemma_sum_nonneg(sizes, b, c);
}

/// The extent of the items `from..to`, computed; the caller guarantees that the
/// whole list fits in a `usize`.
fn window_exec(sizes: &Vec<usize>, gap: usize, from: usize, to: usize) -> (res: usize)
    requires
        from <= to <= sizes.len(),
        window(sizes@, gap as nat, 0, sizes.len() as int) <= usize::MAX,
    ensures
        res == window(sizes@, gap as nat, from as int, to as int),
{
    if from == to {
        return 0;
    }
    proof {
        lemma_window_bound(sizes@, gap as nat, from as int, to as int);
    }
    let mut total: usize = 0;
    let mut i: usize = from;
    while i < to
        invariant
            from <= i <= to <= sizes.len(),
            from < to,
            total == sum_sizes(sizes@, from as int, i as int),
            sum_sizes(sizes@, from as int, to as int) + gap * (to - from - 1) <= usize::MAX,
        decreases to - i,
    {
        proof {
            lemma_sum_mono(sizes@, from as int, i + 1, to as int);
            assert(gap * (to - from - 1) >= 0) by (nonlinear_arith)
                requires
                    to - from - 1 >= 0,
            ;
        }
        total = total + sizes[i];
        i = i + 1;
    }
    proof {
        assert(gap * (to - from - 1) <= usize::MAX - total) by (nonlinear_arith)
            requires
                total + gap * (to - from - 1) <= usize::MAX,
        ;
    }
    let spaces = gap * (to - from - 1);
    total + spaces
}

proof fn lemma_window_bound(sizes: Seq<usize>, gap: nat, from: int, to: int)
    requires
        0 <= from <= to <= sizes.len(),
    ensures
        window(sizes, gap, from, to) <= window(sizes, gap, 0, sizes.len() as int),
{
    if from < to {
        let n = sizes.len() as int;
        lemma_sum_split(sizes, 0, from, n);
        lemma_sum_split(sizes, from, to, n);
        lemma_sum_nonneg(sizes, 0, from);
        lemma_sum_nonneg(sizes, to, n);
        assert(sum_sizes(sizes, from, to) <= sum_sizes(sizes, 0, n));
        assert(gap * (to - from - 1) <= gap * (n - 0 - 1)) by (nonlinear_arith)
            requires
                to - from - 1 <= n - 0 - 1,
                to - from - 1 >= 0,
        ;
        assert(window(sizes, gap, 0, n) == sum_sizes(sizes, 0, n) + gap * (n - 0 - 1));
        assert(window(sizes, gap, from, to) == sum_sizes(sizes, from, to) + gap * (to - from - 1));
    } else {
        let n = sizes.len() as int;
        lemma_sum_nonneg(sizes, 0, n);
        if n > 0 {
            assert(gap * (n - 0 - 1) >= 0) by (nonlinear_arith)
                requires
                    n - 0 - 1 >= 0,
            ;
        }
    }
}

impl ListState {
    /// A state with the given first drawn item and selection.
    pub fn new(offset: usize, selected: Option<usize>) -> (res: Self)
        ensures
            res.offset() == offset,
            res.selected_spec() == selected,
    {
        ListState { offset, selected }
    }

    /// The selected item, in specifications.
    pub closed spec fn selected_spec(&self) -> Option<usize> {
        self.selected
    }

    /// The first drawn item, in specifications.
    pub closed spec fn offset_spec(&self) -> usize {
        self.offset
    }

    /// The selected item.
    #[verifier::when_used_as_spec(selected_spec)]
    pub fn selected(&self) -> (res: Option<usize>)
        ensures
            res == self.selected_spec(),
    {
        self.selected
    }

    /// Selects the item after the selected one, or the first item.
    pub fn select_next(&mut self)
        requires
            old(self).selected_spec() != Some(usize::MAX),
        ensures
            final(self).selected_spec() == Some(
                match old(self).selected_spec() {
                    Some(i) => (i + 1) as usize,
                    None => 0usize,
                },
            ),
            final(self).offset_spec() == old(self).offset_spec(),
    {
        self.selected = Some(
            match self.selected {
                Some(i) => i + 1,
                None => 0,
            },
        );
    }

    /// Selects the item before the selected one, staying on the first.
    pub fn select_previous(&mut self)
        ensures
            final(self).selected_spec() == match old(self).selected_spec() {
                Some(i) => Some(if i == 0 {
                    0usize
                } else {
                    (i - 1) as usize
                }),
                None => None,
            },
            final(self).offset_spec() == old(self).offset_spec(),
    {
        if let Some(selected) = self.selected {
            self.selected = Some(selected.saturating_sub(1));
        }
    }

    /// Selects the last item, whatever the length of the list turns out to be.
    pub fn select_last(&mut self)
        ensures
            final(self).selected_spec() == Some(usize::MAX),
            final(self).offset_spec() == old(self).offset_spec(),
    {
        self.selected = Some(usize::MAX);
    }

    /// Selects the given item, or nothing.
    pub fn select(&mut self, index: Option<usize>)
        ensures
            final(self).selected_spec() == index,
            final(self).offset_spec() == old(self).offset_spec(),
    {
        self.selected = index;
    }

    /// The first item drawn.
    #[verifier::when_used_as_spec(offset_spec)]
    pub fn offset(&self) -> (res: usize)
        ensures
            res == self.offset_spec(),
    {
        self.offset
    }

    /// Scrolls the list so that the selected item shows: items have the given
    /// sizes along the list's direction, neighbours are `gap` cells apart, and
    /// `extent` cells are available.
    pub fn scroll(&mut self, sizes: &Vec<usize>, gap: usize, extent: usize)
        requires
            window(sizes@, gap as nat, 0, sizes.len() as int) <= usize::MAX,
            old(self).selected_spec() is Some ==> sizes.len() > 0,
        ensures
            scrolled(
                sizes@,
                gap as nat,
                extent as nat,
                old(self).offset_spec() as nat,
                match old(self).selected_spec() {
                    Some(s) => Some(s as nat),
                    None => None,
                },
                final(self).offset_spec() as nat,
                match final(self).selected_spec() {
                    Some(s) => Some(s as nat),
                    None => None,
                },
            ),
    {
        let len = sizes.len();
        let ghost old_offset = self.offset;
        if let Some(s) = self.selected {
            let mut selected = s;
            if selected >= len {
                selected = len - 1;
                self.selected = Some(selected);
            }
            let start = if self.offset < selected {
                self.offset
            } else {
                selected
            };
            let ghost g = gap as nat;
            let ghost e = extent as nat;
            let mut offset = start;
            while window_exec(sizes, gap, offset, len) < extent && offset > 0
                invariant
                    offset <= start,
                    start <= selected < len == sizes.len(),
                    window(sizes@, gap as nat, 0, sizes.len() as int) <= usize::MAX,
                    forall|q: int| offset < q <= start ==> room_above(sizes@, g, e, q),
                    g == gap,
                    e == extent,
                decreases offset,
            {
                offset = offset - 1;
            }
            let ghost back = offset as nat;
            loop
                invariant_except_break
                    back <= offset <= len == sizes.len(),
                    back <= start,
                    start <= selected < len,
                    window(sizes@, gap as nat, 0, sizes.len() as int) <= usize::MAX,
                    forall|q: int| back <= q < offset ==> !fits(sizes@, g, e, selected as nat, q),
                    g == gap,
                    e == extent,
                ensures
                    back <= offset <= len == sizes.len(),
                    forall|q: int| back <= q < offset ==> !fits(sizes@, g, e, selected as nat, q),
                    fits(sizes@, g, e, selected as nat, offset as int),
                decreases len - offset,
            {
                let end = if offset <= selected {
                    selected + 1
                } else if offset < len {
                    offset + 1
                } else {
                    len
                };
                assert(end == selection_end(len as nat, selected as nat, offset as int));
                if window_exec(sizes, gap, offset, end) > extent {
                    proof {
                        if offset >= len {
                            assert(end == len);
                        }
                    }
                    offset = offset + 1;
                } else {
                    break;
                }
            }
            self.offset = offset;
            proof {
                assert(!room_above(sizes@, g, e, back as int));
                let sel_n = clamped_selection(sizes@.len(), s as nat);
                assert(sel_n == selected as nat);
                assert(scroll_start(old_offset as nat, sel_n) == start as nat);
                assert(scroll_chain(sizes@, g, e, sel_n, scroll_start(old_offset as nat, sel_n), back, offset as nat));
            }
        } else {
            self.offset = 0;
        }
    }

    /// The positions of the items that get drawn, from the first drawn item on:
    /// each follows the previous one and the gap, until the list ends or the
    /// extent is used up.
    pub fn visible_positions(&self, sizes: &Vec<usize>, gap: usize, extent: usize) -> (res: Vec<usize>)
        requires
            window(sizes@, gap as nat, 0, sizes.len() as int) + gap <= usize::MAX,
            self.offset_spec() <= sizes.len(),
        ensures
            laid_out(sizes@, gap as nat, extent as nat, self.offset_spec() as nat, res@),
    {
        let offset = self.offset;
        let mut res: Vec<usize> = Vec::new();
        let mut used: usize = 0;
        let mut i: usize = offset;
        while i < sizes.len()
            invariant
                offset <= i <= sizes.len(),
                res.len() == i - offset,
                window(sizes@, gap as nat, 0, sizes.len() as int) + gap <= usize::MAX,
                used == window(sizes@, gap as nat, offset as int, i as int) + (if i > offset {
                    gap as int
                } else {
                    0
                }),
                forall|j: int|
                    0 <= j < res.len() ==> #[trigger] res@[j] == window(
                        sizes@,
                        gap as nat,
                        offset as int,
                        offset + j,
                    ) + (if j > 0 {
                        gap as int
                    } else {
                        0
                    }) && res@[j] < extent,
            ensures
                offset <= i <= sizes.len(),
                res.len() == i - offset,
                i == sizes.len() || used >= extent,
                used == window(sizes@, gap as nat, offset as int, i as int) + (if i > offset {
                    gap as int
                } else {
                    0
                }),
                forall|j: int|
                    0 <= j < res.len() ==> #[trigger] res@[j] == window(
                        sizes@,
                        gap as nat,
                        offset as int,
                        offset + j,
                    ) + (if j > 0 {
                        gap as int
                    } else {
                        0
                    }) && res@[j] < extent,
            decreases sizes.len() - i,
        {
            if used >= extent {
                break;
            }
            res.push(used);
            proof {
                lemma_window_step(sizes@, gap as nat, offset as int, i as int);
                lemma_window_bound(sizes@, gap as nat, offset as int, i + 1);
            }
            used = used + sizes[i] + gap;
            i = i + 1;
        }
        res
    }
}

proof fn lemma_window_step(sizes: Seq<usize>, gap: nat, from: int, i: int)
    requires
        0 <= from <= i < sizes.len(),
    ensures
        window(sizes, gap, from, i + 1) + gap == window(sizes, gap, from, i) + (if i > from {
            gap as int
        } else {
            0
        }) + sizes[i] + gap,
{
    assert(sum_sizes(sizes, from, i + 1) == sum_sizes(sizes, from, i) + sizes[i]);
    if i > from {
        assert(gap * (i + 1 - from - 1) == gap * (i - from - 1) + gap) by (nonlinear_arith);
        assert(window(sizes, gap, from, i + 1) == sum_sizes(sizes, from, i + 1) + gap * (i + 1 - from - 1));
        assert(window(sizes, gap, from, i) == sum_sizes(sizes, from, i) + gap * (i - from - 1));
    } else {
        assert(sum_sizes(sizes, from, i) == 0);
        assert(window(sizes, gap, from, i + 1) == sum_sizes(sizes, from, i + 1) + gap * 0) ;
        assert(gap * 0 == 0) by (nonlinear_arith);
    }
}

impl Default for ListState {
    fn default() -> (res: Self)
        ensures
            res.offset_spec() == 0,
            res.selected_spec() is None,
    {
        ListState { offset: 0, selected: None }
    }
}

/// After scrolling, a selected item that is no larger than the extent is drawn
/// in full: the list starts at or before it, and everything from the start up
/// to it fits.
pub proof fn law_selected_item_visible(
    sizes: Seq<usize>,
    gap: nat,
    extent: nat,
    offset: nat,
    selected: nat,
    new_offset: nat,
    new_selected: Option<nat>,
)
    requires
        scrolled(sizes, gap, extent, offset, Some(selected), new_offset, new_selected),
        sizes.len() > 0,
        selected < sizes.len(),
        sizes[selected as int] <= extent,
    ensures
        new_selected == Some(selected),
        new_offset <= selected,
        window(sizes, gap, new_offset as int, selected + 1int) <= extent,
{
    let start = scroll_start(offset, selected);
    assert(clamped_selection(sizes.len(), selected) == selected);
    let back = choose|back: nat| scroll_chain(sizes, gap, extent, selected, start, back, new_offset);
    assert(sum_sizes(sizes, selected as int, selected as int) == 0);
    assert(sum_sizes(sizes, selected as int, selected + 1int) == sizes[selected as int]);
    assert(gap * (selected + 1int - selected - 1) == 0) by (nonlinear_arith);
    assert(window(sizes, gap, selected as int, selected + 1int) == sizes[selected as int]);
    assert(selection_end(sizes.len(), selected, selected as int) == selected + 1int);
    assert(fits(sizes, gap, extent, selected, selected as int));
}

/// A selection past the end of a non-empty list lands on its last item.
pub proof fn law_selection_clamped(
    sizes: Seq<usize>,
    gap: nat,
    extent: nat,
    offset: nat,
    selected: nat,
    new_offset: nat,
    new_selected: Option<nat>,
)
    requires
        scrolled(sizes, gap, extent, offset, Some(selected), new_offset, new_selected),
        sizes.len() > 0,
        selected >= sizes.len(),
    ensures
        new_selected == Some((sizes.len() - 1) as nat),
{
}

/// Without a selection the list is drawn from its first item.
pub proof fn law_no_selection_starts_at_top(
    sizes: Seq<usize>,
    gap: nat,
    extent: nat,
    offset: nat,
    new_offset: nat,
    new_selected: Option<nat>,
)
    requires
        scrolled(sizes, gap, extent, offset, None, new_offset, new_selected),
    ensures
        new_offset == 0,
        new_selected is None,
{
}

} // verus!
