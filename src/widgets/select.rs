//! The selection list: entries narrowed by a filter, a selected position, and paging.
use vstd::prelude::*;

use crate::catalog::{entry_views, labels_of, Entry, EntryView};
use crate::input::{is_ctrl, is_ctrl_key, ButtonState, InputEvent, Key};
use crate::text::{contains, str_contains};

verus! {

/// How many entries one page of the list shows.
pub const PAGE_SIZE: usize = 7;

/// A step through the list.
#[derive(Clone, Copy, Debug, PartialEq, Eq, Structural)]
pub enum Direction {
    Up,
    Down,
}

/// The selection list.
pub struct Select {
    entries: Vec<Entry>,
    /// Only entries whose label contains this text are listed; `None` lists them all.
    entry_filter: Option<String>,
    /// The positions in `entries` of the listed entries, in order.
    filtered_entry_indices: Vec<usize>,
    /// The selected position within `filtered_entry_indices`.
    selected_entry: usize,
    ctrl_pressed: bool,
}

/// The state of a selection list.
pub struct SelectView {
    pub entries: Seq<EntryView>,
    pub filter: Option<Seq<char>>,
    pub indices: Seq<usize>,
    pub selected: usize,
    pub ctrl: bool,
}

impl View for Select {
    type V = SelectView;

    closed spec fn view(&self) -> SelectView {
        SelectView {
            entries: entry_views(self.entries@),
            filter: filter_view(self.entry_filter),
            indices: self.filtered_entry_indices@,
            selected: self.selected_entry,
            ctrl: self.ctrl_pressed,
        }
    }
}

pub open spec fn filter_view(f: Option<String>) -> Option<Seq<char>> {
    match f {
        Some(s) => Some(s@),
        None => None,
    }
}

/// Whether a label is listed under `filter`.
pub open spec fn keeps(label: Seq<char>, filter: Option<Seq<char>>) -> bool {
    match filter {
        Some(s) => contains(label, s),
        None => true,
    }
}

/// The positions below `n` whose label is listed under `filter`, in increasing order.
pub open spec fn matching_upto(labels: Seq<Seq<char>>, filter: Option<Seq<char>>, n: nat) -> Seq<
    usize,
>
    decreases n,
{
    if n == 0 {
        Seq::empty()
    } else {
        let prev = matching_upto(labels, filter, (n - 1) as nat);
        if keeps(labels[n - 1], filter) {
            prev.push((n - 1) as usize)
        } else {
            prev
        }
    }
}

/// The positions of the entries listed under `filter`, in catalog order.
pub open spec fn matching(entries: Seq<EntryView>, filter: Option<Seq<char>>) -> Seq<usize> {
    matching_upto(labels_of(entries), filter, entries.len())
}

/// The listed positions agree with the filter, and the selection lies among them
/// (it is 0 when nothing is listed).
pub open spec fn select_consistent(v: SelectView) -> bool {
    &&& v.indices == matching(v.entries, v.filter)
    &&& if v.indices.len() > 0 {
        v.selected < v.indices.len()
    } else {
        v.selected == 0
    }
}

/// The state after setting the filter to `f`: the selection goes back to the first
/// position exactly when the filter's value changes.
pub open spec fn with_filter(v: SelectView, f: Option<Seq<char>>) -> SelectView {
    SelectView {
        entries: v.entries,
        filter: f,
        indices: matching(v.entries, f),
        selected: if f == v.filter {
            v.selected
        } else {
            0
        },
        ctrl: v.ctrl,
    }
}

/// The state after one step: clamped at both ends, no wrapping.
pub open spec fn moved(v: SelectView, d: Direction) -> SelectView {
    if v.indices.len() == 0 {
        v
    } else if d == Direction::Up {
        if v.selected > 0 {
            SelectView { selected: (v.selected - 1) as usize, ..v }
        } else {
            v
        }
    } else {
        if v.selected + 1 < v.indices.len() {
            SelectView { selected: (v.selected + 1) as usize, ..v }
        } else {
            v
        }
    }
}

/// The catalog position of the selected entry, or `None` when nothing is listed.
pub open spec fn activation(v: SelectView) -> Option<usize> {
    if v.indices.len() > 0 {
        Some(v.indices[v.selected as int])
    } else {
        None
    }
}

/// Whether `ev` presses `k`.
pub open spec fn pressed(ev: InputEvent, k: Key) -> bool {
    ev == InputEvent::Button(k, ButtonState::Press)
}

/// How one event changes the list: Up or Ctrl-P steps up, Down or Ctrl-N steps down.
pub open spec fn select_step(v: SelectView, ev: InputEvent) -> SelectView {
    match ev {
        InputEvent::Button(key, state) => {
            if key == Key::Return && state == ButtonState::Press {
                v
            } else if is_ctrl_key(key) {
                SelectView { ctrl: state == ButtonState::Press, ..v }
            } else if state == ButtonState::Press {
                if key == Key::Up || (key == Key::P && v.ctrl) {
                    moved(v, Direction::Up)
                } else if key == Key::Down || (key == Key::N && v.ctrl) {
                    moved(v, Direction::Down)
                } else {
                    v
                }
            } else {
                v
            }
        },
        _ => v,
    }
}

/// What one event activates: the selected entry, on a Return press.
pub open spec fn select_action(v: SelectView, ev: InputEvent) -> Option<usize> {
    if pressed(ev, Key::Return) {
        activation(v)
    } else {
        None
    }
}

/// The first position of the page that holds position `selected`.
pub open spec fn page_start(selected: int) -> int {
    (selected / PAGE_SIZE as int) * PAGE_SIZE as int
}

/// The listed positions shown on the page of the selection.
pub open spec fn page_of(v: SelectView) -> Seq<usize> {
    let start = page_start(v.selected as int);
    let end = if start + PAGE_SIZE < v.indices.len() {
        start + PAGE_SIZE
    } else {
        v.indices.len() as int
    };
    v.indices.subrange(start, end)
}

/// The visible page of the list.
pub struct PageWindow {
    /// The position, within the listed entries, of the page's first row.
    pub start: usize,
    /// The catalog positions of the page's rows.
    pub indices: Vec<usize>,
    /// The row of the selection within the page.
    pub highlighted: usize,
}

fn same_filter(a: &Option<String>, b: &Option<String>) -> (r: bool)
    ensures
        r == (filter_view(*a) == filter_view(*b)),
{
    match (a, b) {
        (Some(x), Some(y)) => x.eq(y),
        (None, None) => true,
        _ => false,
    }
}

/// The catalog positions of the entries whose label contains the filter, in order.
fn compute_matching(entries: &Vec<Entry>, filter: &Option<String>) -> (r: Vec<usize>)
    ensures
        r@ == matching(entry_views(entries@), filter_view(*filter)),
{
    let ghost labels = labels_of(entry_views(entries@));
    let mut r: Vec<usize> = Vec::new();
    let mut i: usize = 0;
    while i < entries.len()
        invariant
            i <= entries.len(),
            labels == labels_of(entry_views(entries@)),
            r@ == matching_upto(labels, filter_view(*filter), i as nat),
        decreases entries.len() - i,
    {
        assert(labels[i as int] == entries@[i as int].label@);
        let keep = match filter {
            Some(s) => str_contains(entries[i].label.as_str(), s.as_str()),
            None => true,
        };
        if keep {
            r.push(i);
        }
        i += 1;
    }
    r
}

impl Select {
    pub open spec fn wf(&self) -> bool {
        select_consistent(self@)
    }

    /// A list of `entries`, unfiltered, with the first entry selected.
    pub fn new(entries: Vec<Entry>) -> (r: Self)
        ensures
            r.wf(),
            r@.entries == entry_views(entries@),
            r@.filter is None,
            r@.selected == 0,
            !r@.ctrl,
    {
        let filtered_entry_indices = compute_matching(&entries, &None);
        Select {
            entries,
            entry_filter: None,
            filtered_entry_indices,
            selected_entry: 0,
            ctrl_pressed: false,
        }
    }

    /// The entries, in catalog order.
    pub fn entries(&self) -> (r: &Vec<Entry>)
        ensures
            entry_views(r@) == self@.entries,
    {
        &self.entries
    }

    /// The catalog positions of the listed entries, in order.
    pub fn filtered_indices(&self) -> (r: &Vec<usize>)
        ensures
            r@ == self@.indices,
    {
        &self.filtered_entry_indices
    }

    /// The selected position among the listed entries.
    pub fn selected_entry(&self) -> (r: usize)
        ensures
            r == self@.selected,
    {
        self.selected_entry
    }

    /// Sets the filter. The listed entries become those whose label contains it (all of
    /// them for `None`); the selection returns to the first position when the value changes
    /// and stays where it was otherwise.
    pub fn update_entry_filter(&mut self, entry_filter: Option<String>)
        requires
            old(self).wf(),
        ensures
            final(self).wf(),
            final(self)@ == with_filter(old(self)@, filter_view(entry_filter)),
    {
        if !same_filter(&self.entry_filter, &entry_filter) {
            self.selected_entry = 0;
            self.filtered_entry_indices = compute_matching(&self.entries, &entry_filter);
            self.entry_filter = entry_filter;
        }
    }

    /// Moves the selection one step, stopping at either end.
    pub fn move_selection(&mut self, direction: Direction)
        requires
            old(self).wf(),
        ensures
            final(self).wf(),
            final(self)@ == moved(old(self)@, direction),
    {
        let n = self.filtered_entry_indices.len();
        if n == 0 {
            return;
        }
        match direction {
            Direction::Up => {
                if self.selected_entry > 0 {
                    self.selected_entry = self.selected_entry - 1;
                }
            },
            Direction::Down => {
                if self.selected_entry < n - 1 {
                    self.selected_entry = self.selected_entry + 1;
                }
            },
        }
    }

    /// The catalog position of the selected entry, or `None` when nothing is listed.
    pub fn activate(&self) -> (r: Option<usize>)
        requires
            self.wf(),
        ensures
            r == activation(self@),
            r matches Some(i) ==> i < self@.entries.len(),
    {
        let total = self.entries.len();
        proof {
            lemma_matching_bounded(labels_of(self@.entries), self@.filter, total as nat);
        }
        if self.filtered_entry_indices.len() == 0 {
            None
        } else {
            Some(self.filtered_entry_indices[self.selected_entry])
        }
    }

    /// Applies one input event; returns the catalog position of the entry that a Return
    /// press activates.
    pub fn handle_event(&mut self, ev: &InputEvent) -> (r: Option<usize>)
        requires
            old(self).wf(),
        ensures
            final(self).wf(),
            final(self)@ == select_step(old(self)@, *ev),
            r == select_action(old(self)@, *ev),
            r matches Some(i) ==> i < old(self)@.entries.len(),
    {
        match ev {
            InputEvent::Button(key, state) => {
                let press = *state == ButtonState::Press;
                if *key == Key::Return && press {
                    self.activate()
                } else if is_ctrl(*key) {
                    self.ctrl_pressed = press;
                    None
                } else if press {
                    if *key == Key::Up || (*key == Key::P && self.ctrl_pressed) {
                        self.move_selection(Direction::Up);
                    } else if *key == Key::Down || (*key == Key::N && self.ctrl_pressed) {
                        self.move_selection(Direction::Down);
                    }
                    None
                } else {
                    None
                }
            },
            _ => None,
        }
    }

    /// The page of the list that holds the selection: up to `PAGE_SIZE` rows starting at a
    /// multiple of `PAGE_SIZE`, and the selection's row within it.
    pub fn visible_window(&self) -> (r: PageWindow)
        requires
            self.wf(),
        ensures
            r.start == page_start(self@.selected as int),
            r.indices@ == page_of(self@),
            r.highlighted == self@.selected - r.start,
    {
        let sel = self.selected_entry;
        let start = (sel / PAGE_SIZE) * PAGE_SIZE;
        assert(start <= sel) by (nonlinear_arith)
            requires
                start == (sel / 7) * 7,
        ;
        let n = self.filtered_entry_indices.len();
        let end = if start < n && n - start > PAGE_SIZE {
            start + PAGE_SIZE
        } else {
            n
        };
        let mut indices: Vec<usize> = Vec::new();
        let mut k: usize = start;
        while k < end
            invariant
                start <= k <= end,
                end <= n,
                n == self.filtered_entry_indices.len(),
                indices@ == self.filtered_entry_indices@.subrange(start as int, k as int),
            decreases end - k,
        {
            indices.push(self.filtered_entry_indices[k]);
            k += 1;
        }
        PageWindow { start, indices, highlighted: sel - start }
    }
}

/// Every listed position is below `n`.
proof fn lemma_matching_bounded(labels: Seq<Seq<char>>, filter: Option<Seq<char>>, n: nat)
    requires
        n <= usize::MAX,
    ensures
        forall|k: int|
            0 <= k < matching_upto(labels, filter, n).len() ==> matching_upto(labels, filter, n)[k]
                < n,
    decreases n,
{
    if n > 0 {
        lemma_matching_bounded(labels, filter, (n - 1) as nat);
        let prev = matching_upto(labels, filter, (n - 1) as nat);
        let m = matching_upto(labels, filter, n);
        assert forall|k: int| 0 <= k < m.len() implies m[k] < n by {
            if k < prev.len() {
                assert(m[k] == prev[k]);
            }
        }
    }
}

} // verus!

verus! {

proof fn lemma_matching_exact(labels: Seq<Seq<char>>, filter: Option<Seq<char>>, n: nat)
    requires
        n <= usize::MAX,
        n <= labels.len(),
    ensures
        forall|k: int|
            0 <= k < matching_upto(labels, filter, n).len() ==> {
                let i = #[trigger] matching_upto(labels, filter, n)[k];
                i < n && keeps(labels[i as int], filter)
            },
        forall|i: int|
            0 <= i < n && keeps(#[trigger] labels[i], filter) ==> matching_upto(
                labels,
                filter,
                n,
            ).contains(i as usize),
        forall|k1: int, k2: int|
            0 <= k1 < k2 < matching_upto(labels, filter, n).len() ==> #[trigger] matching_upto(
                labels,
                filter,
                n,
            )[k1] < #[trigger] matching_upto(labels, filter, n)[k2],
    decreases n,
{
    if n > 0 {
        lemma_matching_exact(labels, filter, (n - 1) as nat);
        let prev = matching_upto(labels, filter, (n - 1) as nat);
        let m = matching_upto(labels, filter, n);
        assert forall|k: int| 0 <= k < m.len() implies {
            let i = #[trigger] m[k];
            i < n && keeps(labels[i as int], filter)
        } by {
            if k < prev.len() {
                assert(m[k] == prev[k]);
            }
        }
        assert forall|i: int| 0 <= i < n && keeps(#[trigger] labels[i], filter) implies m.contains(
            i as usize,
        ) by {
            if i < n - 1 {
                let k = choose|k: int| 0 <= k < prev.len() && prev[k] == i as usize;
                assert(m[k] == prev[k]);
            } else {
                assert(m[m.len() - 1] == i as usize);
            }
        }
        assert forall|k1: int, k2: int| 0 <= k1 < k2 < m.len() implies #[trigger] m[k1] < #[trigger] m[k2] by {
            assert(m[k1] == prev[k1]);
            if k2 < prev.len() {
                assert(m[k2] == prev[k2]);
            }
        }
    }
}

/// After the filter is set to `s`, the listed positions are exactly those whose label
/// contains `s`, each once, in catalog order.
pub proof fn lemma_filter_lists_exactly(v: SelectView, s: Seq<char>)
    requires
        v.entries.len() <= usize::MAX,
    ensures
        ({
            let listed = with_filter(v, Some(s)).indices;
            &&& forall|k: int|
                0 <= k < listed.len() ==> #[trigger] listed[k] < v.entries.len() && contains(
                    v.entries[listed[k] as int].label,
                    s,
                )
            &&& forall|i: int|
                0 <= i < v.entries.len() && contains(#[trigger] v.entries[i].label, s)
                    ==> listed.contains(i as usize)
            &&& forall|k1: int, k2: int|
                0 <= k1 < k2 < listed.len() ==> #[trigger] listed[k1] < #[trigger] listed[k2]
        }),
{
    let labels = labels_of(v.entries);
    lemma_matching_exact(labels, Some(s), v.entries.len());
    let listed = with_filter(v, Some(s)).indices;
    assert forall|k: int| 0 <= k < listed.len() implies #[trigger] listed[k] < v.entries.len()
        && contains(v.entries[listed[k] as int].label, s) by {
        assert(labels[listed[k] as int] == v.entries[listed[k] as int].label);
    }
    assert forall|i: int| 0 <= i < v.entries.len() && contains(#[trigger] v.entries[i].label, s)
        implies listed.contains(i as usize) by {
        assert(labels[i] == v.entries[i].label);
    }
}

/// Setting the same filter twice changes nothing the second time; in particular the
/// selection stays where the first call left it.
pub proof fn lemma_filter_idempotent(v: SelectView, f: Option<Seq<char>>)
    ensures
        with_filter(with_filter(v, f), f) == with_filter(v, f),
{
}

/// The state after `n` steps in direction `d`.
pub open spec fn moved_times(v: SelectView, d: Direction, n: nat) -> SelectView
    decreases n,
{
    if n == 0 {
        v
    } else {
        moved(moved_times(v, d, (n - 1) as nat), d)
    }
}

proof fn lemma_moved_down_times(v: SelectView, n: nat)
    requires
        0 < v.indices.len() <= usize::MAX,
        v.selected == 0,
    ensures
        moved_times(v, Direction::Down, n).indices == v.indices,
        moved_times(v, Direction::Down, n).selected == if n < v.indices.len() {
            n
        } else {
            (v.indices.len() - 1) as nat
        },
    decreases n,
{
    if n > 0 {
        lemma_moved_down_times(v, (n - 1) as nat);
    }
}

/// Stepping down from the first position at least as many times as there are listed
/// entries stops at the last one: the selection is clamped, it does not wrap.
pub proof fn lemma_down_clamps_at_last(v: SelectView, n: nat)
    requires
        0 < v.indices.len() <= usize::MAX,
        v.selected == 0,
        n >= v.indices.len(),
    ensures
        moved_times(v, Direction::Down, n).selected == v.indices.len() - 1,
{
    lemma_moved_down_times(v, n);
}

} // verus!
