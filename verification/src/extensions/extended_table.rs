use vstd::prelude::*;

use crate::extensions::sorting::{in_column_order, lemma_ordered_items, FocusKey, SortableByFocus};
use crate::extensions::{flipped, CellContent, CellStyle, SortOrder};

verus! {

/// The selection of a table widget: the selected row and the first row shown.
#[derive(Debug, Clone, Copy, PartialEq, Eq, Structural)]
pub struct TableState {
    pub offset: usize,
    pub selected: Option<usize>,
}

impl TableState {
    pub fn new() -> (res: TableState)
        ensures
            res == (TableState { offset: 0, selected: None }),
    {
        TableState { offset: 0, selected: None }
    }

    pub fn selected(&self) -> (res: Option<usize>)
        ensures
            res == self.selected,
    {
        self.selected
    }

    /// Selects a row; deselecting also scrolls back to the top.
    pub fn select(&mut self, index: Option<usize>)
        ensures
            final(self).selected == index,
            final(self).offset == (if index is None {
                0
            } else {
                old(self).offset
            }),
    {
        self.selected = index;
        if index.is_none() {
            self.offset = 0;
        }
    }
}

/// The width rule of a table column.
#[derive(Debug, Clone, Copy, PartialEq, Eq, Structural)]
pub enum Constraint {
    Percentage(u16),
    Ratio(u32, u32),
    Length(u16),
    Max(u16),
    Min(u16),
}

/// The width that a column claims for itself: its minimum, or nothing.
pub open spec fn min_width(c: Constraint) -> int {
    match c {
        Constraint::Min(u) => u as int,
        _ => 0,
    }
}

/// The sum of the minimum widths of the first `n` columns.
pub open spec fn fixed_width(cs: Seq<Constraint>, n: int) -> int
    decreases n,
{
    if n <= 0 {
        0
    } else {
        fixed_width(cs, n - 1) + min_width(cs[n - 1])
    }
}

/// How many columns from `start` on still fit when `acc` of `max_size` is
/// taken: each takes its minimum and one padding; the first column without a
/// minimum ends the run.
pub open spec fn dynamic_count(cs: Seq<Constraint>, start: int, acc: int, max_size: int) -> nat
    decreases cs.len() - start,
{
    if start < 0 || start >= cs.len() {
        0
    } else {
        match cs[start] {
            Constraint::Min(u) => if acc + u + 1 <= max_size {
                1 + dynamic_count(cs, start + 1, acc + u + 1, max_size)
            } else {
                0
            },
            _ => 0,
        }
    }
}

/// The widths summed while columns are laid out from `start` on stay within
/// the range of a `u16`.
pub open spec fn dynamic_fits(cs: Seq<Constraint>, start: int, acc: int, max_size: int) -> bool
    decreases cs.len() - start,
{
    if start < 0 || start >= cs.len() {
        true
    } else {
        match cs[start] {
            Constraint::Min(u) => acc + u + 1 <= u16::MAX && (acc + u + 1 <= max_size
                ==> dynamic_fits(cs, start + 1, acc + u + 1, max_size)),
            _ => true,
        }
    }
}

/// The width taken by padding and the fixed columns.
pub open spec fn initial_width(cs: Seq<Constraint>, fixed_count: int) -> int {
    2 + fixed_width(cs, if fixed_count < cs.len() { fixed_count } else { cs.len() as int })
}

/// The number of leading columns that are always rendered.
pub open spec fn fixed_shown(len: int, fixed_count: int) -> int {
    if fixed_count < len {
        fixed_count
    } else {
        len
    }
}

/// The texts of a sequence of strings.
pub open spec fn texts(v: Seq<String>) -> Seq<Seq<char>> {
    v.map_values(|s: String| s@)
}

/// The mark that follows the header of the column the table is sorted by.
pub open spec fn sort_mark(order: SortOrder) -> Seq<char> {
    match order {
        SortOrder::Ascending => " \u{25B2}"@,
        SortOrder::Descending => " \u{25BC}"@,
    }
}

/// A copy of a list of strings.
pub fn clone_strings(v: &Vec<String>) -> (res: Vec<String>)
    ensures
        texts(res@) == texts(v@),
{
    let mut res: Vec<String> = Vec::new();
    let mut i: usize = 0;
    while i < v.len()
        invariant
            i <= v.len(),
            res.len() == i,
            forall|k: int| 0 <= k < i ==> (#[trigger] res@[k])@ == v@[k]@,
        decreases v.len() - i,
    {
        res.push(v[i].clone());
        i = i + 1;
    }
    assert(texts(res@) =~= texts(v@));
    res
}

/// A table whose columns can be scrolled sideways, selected and sorted by.
#[derive(Debug)]
pub struct ExtendedTable<S: SortableByFocus> {
    pub table_state: TableState,
    pub content: S,
    /// The header strings of the table in order
    pub headers: Vec<String>,
    /// The headers as shown, with the sorting mark
    pub modified_headers: Vec<String>,
    /// Constraints of the columns
    pub constraints: Vec<Constraint>,
    /// Total number of columns able to be rendered
    pub rendered: usize,
    /// Always render this number of columns starting from index 0
    pub fixed_count: usize,
    /// First column to be rendered after the fixed ones
    pub first_rendered_index: usize,
    /// Selected table column
    pub selected: usize,
    /// The column the table is sorted by
    pub sorted_by: usize,
    /// Sort order
    pub sort_order: SortOrder,
}

impl<S: SortableByFocus> ExtendedTable<S> {
    /// A table with the given headers and column constraints, with nothing
    /// selected and no content.
    pub fn new(headers: Vec<String>, constraints: Vec<Constraint>, fixed_count: usize) -> (res: Self)
        ensures
            texts(res.headers@) == texts(headers@),
            texts(res.modified_headers@) == texts(headers@),
            res.constraints@ == constraints@,
            res.fixed_count == fixed_count,
            res.rendered == 0,
            res.first_rendered_index == fixed_count,
            res.selected == 0,
            res.sorted_by == 0,
            res.sort_order == SortOrder::Ascending,
            res.table_state == (TableState { offset: 0, selected: None }),
            res.content.items().len() == 0,
    {
        let modified_headers = clone_strings(&headers);
        ExtendedTable {
            table_state: TableState::new(),
            content: S::empty(),
            headers,
            modified_headers,
            constraints,
            rendered: 0,
            fixed_count,
            first_rendered_index: fixed_count,
            selected: 0,
            sorted_by: 0,
            sort_order: SortOrder::Ascending,
        }
    }

    pub fn sorted_by(&self) -> (res: usize)
        ensures
            res == self.sorted_by,
    {
        self.sorted_by
    }

    pub fn sort_order(&self) -> (res: &SortOrder)
        ensures
            *res == self.sort_order,
    {
        &self.sort_order
    }

    pub fn selected(&self) -> (res: usize)
        ensures
            res == self.selected,
    {
        self.selected
    }

    pub fn rendered(&self) -> (res: usize)
        ensures
            res == self.rendered,
    {
        self.rendered
    }

    pub fn fixed(&self) -> (res: usize)
        ensures
            res == self.fixed_count,
    {
        self.fixed_count
    }

    pub fn first_rendered_index(&self) -> (res: usize)
        ensures
            res == self.first_rendered_index,
    {
        self.first_rendered_index
    }

    pub fn set_first_rendered_index(&mut self, first_rendered_index: usize)
        ensures
            *final(self) == (ExtendedTable { first_rendered_index, ..*old(self) }),
    {
        self.first_rendered_index = first_rendered_index;
    }

    pub fn set_rendered(&mut self, rendered: usize)
        ensures
            *final(self) == (ExtendedTable { rendered, ..*old(self) }),
    {
        self.rendered = rendered;
    }

    pub fn set_fixed(&mut self, fixed: usize)
        ensures
            *final(self) == (ExtendedTable { fixed_count: fixed, ..*old(self) }),
    {
        self.fixed_count = fixed;
    }

    pub fn set_sort_order(&mut self, sort_order: SortOrder)
        ensures
            *final(self) == (ExtendedTable { sort_order, ..*old(self) }),
    {
        self.sort_order = sort_order;
    }

    pub fn set_sorted_by(&mut self, sorted_by: usize)
        ensures
            *final(self) == (ExtendedTable { sorted_by, ..*old(self) }),
    {
        self.sorted_by = sorted_by;
    }

    /// The index of the last column rendered.
    pub open spec fn last_render_index(&self) -> int {
        self.first_rendered_index + (self.rendered - self.fixed_count) - 1
    }

    /// `next` does not leave the range of `usize`.
    pub open spec fn can_move_right(&self) -> bool {
        &&& self.rendered >= self.fixed_count
        &&& self.last_render_index() >= 0
        &&& self.first_rendered_index + (self.rendered - self.fixed_count) <= usize::MAX
        &&& self.first_rendered_index < usize::MAX
        &&& self.selected < usize::MAX
    }

    /// Whether `next` stays within the range of `usize`.
    pub fn check_move_right(&self) -> (res: bool)
        ensures
            res == self.can_move_right(),
    {
        if self.rendered < self.fixed_count {
            return false;
        }
        let span = self.rendered - self.fixed_count;
        if self.first_rendered_index > usize::MAX - span {
            return false;
        }
        let end = self.first_rendered_index + span;
        end >= 1 && self.first_rendered_index < usize::MAX && self.selected < usize::MAX
    }

    /// The selection after a move to the right.
    pub open spec fn next_selected(&self) -> int {
        if self.selected + 1 < self.headers@.len() {
            self.selected + 1
        } else {
            self.selected as int
        }
    }

    /// The table after moving the column selection one to the right.
    pub open spec fn after_next(&self) -> Self {
        let sel = self.next_selected();
        ExtendedTable {
            selected: sel as usize,
            first_rendered_index: if sel >= self.last_render_index() && self.first_rendered_index
                != self.last_render_index() && self.rendered != self.headers@.len() {
                (self.first_rendered_index + 1) as usize
            } else {
                self.first_rendered_index
            },
            ..*self
        }
    }

    /// Moves the column selection one to the right, scrolling when the
    /// selection reaches the last rendered column.
    pub fn next(&mut self)
        requires
            old(self).can_move_right(),
        ensures
            *final(self) == old(self).after_next(),
    {
        let last_render_index = self.first_rendered_index + (self.rendered - self.fixed_count) - 1;
        let next_index = self.selected + 1;
        if next_index < self.headers.len() {
            self.selected = next_index;
        }
        if self.selected >= last_render_index && self.first_rendered_index != last_render_index
            && self.rendered != self.headers.len() {
            self.first_rendered_index = self.first_rendered_index + 1;
        }
    }

    /// `previous` does not leave the range of `usize`.
    pub open spec fn can_move_left(&self) -> bool {
        self.first_rendered_index >= 1
    }

    /// Whether `previous` stays within the range of `usize`.
    pub fn check_move_left(&self) -> (res: bool)
        ensures
            res == self.can_move_left(),
    {
        self.first_rendered_index >= 1
    }

    /// The selection after a move to the left.
    pub open spec fn previous_selected(&self) -> int {
        if self.selected != 0 && self.selected != self.headers@.len() {
            self.selected - 1
        } else {
            self.selected as int
        }
    }

    /// The table after moving the column selection one to the left.
    pub open spec fn after_previous(&self) -> Self {
        let sel = self.previous_selected();
        ExtendedTable {
            selected: sel as usize,
            first_rendered_index: if sel == self.first_rendered_index - 1 && self.first_rendered_index
                != self.fixed_count && self.rendered != self.headers@.len() {
                (self.first_rendered_index - 1) as usize
            } else {
                self.first_rendered_index
            },
            ..*self
        }
    }

    /// Moves the column selection one to the left, scrolling back when the
    /// selection reaches the column before the first rendered one.
    pub fn previous(&mut self)
        requires
            old(self).can_move_left(),
        ensures
            *final(self) == old(self).after_previous(),
    {
        if self.selected != 0 && self.selected != self.headers.len() {
            self.selected = self.selected - 1;
        }
        if self.selected == self.first_rendered_index - 1 && self.first_rendered_index
            != self.fixed_count && self.rendered != self.headers.len() {
            self.first_rendered_index = self.first_rendered_index - 1;
        }
    }

    /// `new` is this table with the header of the sorted column marked.
    pub open spec fn highlighted(&self, new: &Self) -> bool {
        &&& texts(new.modified_headers@) == self.highlighted_headers()
        &&& *new == (ExtendedTable { modified_headers: new.modified_headers, ..*self })
    }

    /// `new` is this table sorted by its selected column, in the order
    /// opposite to the one it had.
    pub open spec fn sort_toggled(&self, new: &Self, delta_toggle: bool) -> bool {
        let flipped = ExtendedTable {
            sort_order: match self.sort_order {
                SortOrder::Ascending => SortOrder::Descending,
                SortOrder::Descending => SortOrder::Ascending,
            },
            sorted_by: self.selected,
            ..*self
        };
        &&& new.content.items() == flipped.sorted_content(delta_toggle)
        &&& new.same_layout(&flipped)
    }

    /// Sorts by the selected column, in the order opposite to the current one.
    pub fn toggle_sort(&mut self, delta_toggle: bool)
        ensures
            old(self).sort_toggled(&*final(self), delta_toggle),
    {
        let selected = self.selected();
        let sort_order = self.sort_order().switch();
        self.set_sort_order(sort_order);
        self.set_sorted_by(selected);
        self.sort_content(delta_toggle);
    }

    /// Everything but the content is as in `other`.
    pub open spec fn same_layout(&self, other: &Self) -> bool {
        &&& self.table_state == other.table_state
        &&& self.headers == other.headers
        &&& self.modified_headers == other.modified_headers
        &&& self.constraints == other.constraints
        &&& self.rendered == other.rendered
        &&& self.fixed_count == other.fixed_count
        &&& self.first_rendered_index == other.first_rendered_index
        &&& self.selected == other.selected
        &&& self.sorted_by == other.sorted_by
        &&& self.sort_order == other.sort_order
    }

    /// The content as `sort_content` leaves it.
    pub open spec fn sorted_content(&self, delta_toggle: bool) -> Seq<S::Item> {
        match self.sort_order {
            SortOrder::Ascending => self.content.sorted_items(self.sorted_by, delta_toggle),
            SortOrder::Descending => self.content.sorted_items(
                self.sorted_by,
                delta_toggle,
            ).reverse(),
        }
    }

    /// Sorts the content by the column `sorted_by`, in the table's order.
    pub fn sort_content(&mut self, delta_toggle: bool)
        ensures
            final(self).content.items() == old(self).sorted_content(delta_toggle),
            final(self).table_state == old(self).table_state,
            final(self).headers == old(self).headers,
            final(self).modified_headers == old(self).modified_headers,
            final(self).constraints == old(self).constraints,
            final(self).rendered == old(self).rendered,
            final(self).fixed_count == old(self).fixed_count,
            final(self).first_rendered_index == old(self).first_rendered_index,
            final(self).selected == old(self).selected,
            final(self).sorted_by == old(self).sorted_by,
            final(self).sort_order == old(self).sort_order,
    {
        self.content.sort_by_focus(self.sorted_by, delta_toggle);
        if let SortOrder::Descending = self.sort_order {
            self.content.rev();
        }
    }

    /// The headers as shown: the header of the sorted column carries the mark
    /// of the order.
    pub open spec fn highlighted_headers(&self) -> Seq<Seq<char>> {
        let h = texts(self.headers@);
        if self.sorted_by < h.len() {
            h.update(self.sorted_by as int, h[self.sorted_by as int] + sort_mark(self.sort_order))
        } else {
            h
        }
    }

    /// Marks the header of the column the table is sorted by.
    pub fn highlight_sorting(&mut self)
        ensures
            texts(final(self).modified_headers@) == old(self).highlighted_headers(),
            final(self).content == old(self).content,
            final(self).table_state == old(self).table_state,
            final(self).headers == old(self).headers,
            final(self).constraints == old(self).constraints,
            final(self).rendered == old(self).rendered,
            final(self).fixed_count == old(self).fixed_count,
            final(self).first_rendered_index == old(self).first_rendered_index,
            final(self).selected == old(self).selected,
            final(self).sorted_by == old(self).sorted_by,
            final(self).sort_order == old(self).sort_order,
    {
        let mut headers = clone_strings(&self.headers);
        if self.sorted_by < headers.len() {
            let mut v = headers[self.sorted_by].clone();
            match self.sort_order {
                SortOrder::Ascending => v.append(" \u{25B2}"),
                SortOrder::Descending => v.append(" \u{25BC}"),
            }
            let ghost old_headers = headers@;
            headers[self.sorted_by] = v;
            assert(texts(headers@) =~= self.highlighted_headers());
        }
        self.modified_headers = headers;
    }

    /// The constraints of the columns that fit into `max_size`: the fixed
    /// columns, then the scrolled ones while their minimum widths fit.
    pub open spec fn renderable(&self, max_size: u16) -> Seq<Constraint> {
        let cs = self.constraints@;
        let start = self.first_rendered_index as int;
        let n = dynamic_count(cs, start, initial_width(cs, self.fixed_count as int), max_size as int);
        cs.take(fixed_shown(cs.len() as int, self.fixed_count as int)) + (if start < cs.len() {
            cs.subrange(start, start + n)
        } else {
            Seq::empty()
        })
    }

    /// The columns that fit are the fixed ones followed by as many of the
    /// scrolled ones, from the first one rendered on, as fit beside them: each
    /// of these has a minimum width, together they fit within `max_size`
    /// with one padding each, and the next column has no minimum or would
    /// not fit.
    pub proof fn lemma_renderable_columns_fit(&self, max_size: u16)
        ensures
            ({
                let cs = self.constraints@;
                let f = fixed_shown(cs.len() as int, self.fixed_count as int);
                let start = self.first_rendered_index as int;
                let n = self.renderable(max_size).len() - f;
                let w = initial_width(cs, self.fixed_count as int);
                &&& self.renderable(max_size).take(f) == cs.take(f)
                &&& n >= 0 && (n == 0 || start + n <= cs.len())
                &&& forall|i: int| 0 <= i < n ==> #[trigger] self.renderable(max_size)[f + i] == cs[start + i]
                    && cs[start + i] is Min
                &&& n == 0 || w + padded_width(cs, start, n) <= max_size
                &&& start < cs.len() && start + n < cs.len() && cs[start + n] is Min
                    ==> w + padded_width(cs, start, n) + min_width(cs[start + n]) + 1 > max_size
            }),
    {
        let cs = self.constraints@;
        let start = self.first_rendered_index as int;
        let w = initial_width(cs, self.fixed_count as int);
        lemma_dynamic_count_fits(cs, start, w, max_size as int);
        let f = fixed_shown(cs.len() as int, self.fixed_count as int);
        let r = self.renderable(max_size);
        assert(r.take(f) =~= cs.take(f));
        if start >= cs.len() {
            assert(dynamic_count(cs, start, w, max_size as int) == 0);
        }
        assert forall|i: int| 0 <= i < r.len() - f implies #[trigger] r[f + i] == cs[start + i] && cs[start + i] is Min by {
        }
    }

    /// Laying out the columns stays within the range of a `u16`.
    pub open spec fn layout_fits(&self, max_size: u16) -> bool {
        let cs = self.constraints@;
        &&& initial_width(cs, self.fixed_count as int) <= u16::MAX
        &&& dynamic_fits(cs, self.first_rendered_index as int, initial_width(cs, self.fixed_count as int), max_size as int)
    }

    /// Whether laying out the columns within `max_size` stays within the
    /// range of a `u16`.
    pub fn check_layout(&self, max_size: u16) -> (res: bool)
        ensures
            res == self.layout_fits(max_size),
    {
        let ghost cs = self.constraints@;
        let fixed = if self.fixed_count < self.constraints.len() {
            self.fixed_count
        } else {
            self.constraints.len()
        };
        let mut acc: u32 = 2;
        let mut i: usize = 0;
        while i < fixed
            invariant
                i <= fixed,
                fixed == fixed_shown(cs.len() as int, self.fixed_count as int),
                cs == self.constraints@,
                acc == 2 + fixed_width(cs, i as int),
                acc <= u16::MAX,
            decreases fixed - i,
        {
            if let Constraint::Min(u) = self.constraints[i] {
                acc = acc + u as u32;
            }
            if acc > 65535 {
                proof {
                    lemma_fixed_width_monotone(cs, (i + 1) as int, fixed as int);
                }
                return false;
            }
            i = i + 1;
        }
        assert(acc == initial_width(cs, self.fixed_count as int));
        let ghost acc0 = acc as int;
        let ghost ms = max_size as int;
        let mut j: usize = self.first_rendered_index;
        loop
            invariant
                cs == self.constraints@,
                acc0 == initial_width(cs, self.fixed_count as int),
                acc0 <= u16::MAX,
                acc <= u16::MAX,
                ms == max_size as int,
                j >= self.first_rendered_index,
                dynamic_fits(cs, self.first_rendered_index as int, acc0, ms) == dynamic_fits(cs, j as int, acc as int, ms),
            decreases cs.len() - j,
        {
            if j >= self.constraints.len() {
                assert(dynamic_fits(cs, j as int, acc as int, ms));
                return true;
            }
            let c = self.constraints[j];
            assert(c == cs[j as int]);
            match c {
                Constraint::Min(u) => {
                    let next = acc + u as u32 + 1;
                    if next > 65535 {
                        assert(!dynamic_fits(cs, j as int, acc as int, ms));
                        return false;
                    }
                    if next <= max_size as u32 {
                        assert(dynamic_fits(cs, j as int, acc as int, ms) == dynamic_fits(cs, j + 1, next as int, ms));
                        acc = next;
                        j = j + 1;
                    } else {
                        assert(dynamic_fits(cs, j as int, acc as int, ms));
                        return true;
                    }
                },
                _ => {
                    assert(dynamic_fits(cs, j as int, acc as int, ms));
                    return true;
                },
            }
        }
    }

    /// The constraints of the columns that can be rendered within `max_size`.
    pub fn renderable_constraints(&self, max_size: u16) -> (res: Vec<Constraint>)
        requires
            self.layout_fits(max_size),
        ensures
            res@ == self.renderable(max_size),
    {
        let ghost cs = self.constraints@;
        let fixed = if self.fixed_count < self.constraints.len() {
            self.fixed_count
        } else {
            self.constraints.len()
        };
        let mut to_render: Vec<Constraint> = Vec::new();
        let mut acc: u32 = 2;
        let mut i: usize = 0;
        proof {
            lemma_fixed_width_monotone(cs, 0, fixed as int);
        }
        while i < fixed
            invariant
                i <= fixed,
                fixed == fixed_shown(cs.len() as int, self.fixed_count as int),
                cs == self.constraints@,
                to_render@ == cs.take(i as int),
                acc == 2 + fixed_width(cs, i as int),
                acc <= 2 + fixed_width(cs, fixed as int),
                2 + fixed_width(cs, fixed as int) <= u16::MAX,
                self.layout_fits(max_size),
            decreases fixed - i,
        {
            proof {
                lemma_fixed_width_monotone(cs, (i + 1) as int, fixed as int);
            }
            let c = self.constraints[i];
            if let Constraint::Min(u) = c {
                acc = acc + u as u32;
            }
            to_render.push(c);
            assert(to_render@ =~= cs.take(i + 1));
            i = i + 1;
        }
        let ghost acc0 = acc as int;
        let ghost start = self.first_rendered_index as int;
        let mut taken: Vec<Constraint> = Vec::new();
        if self.first_rendered_index < self.constraints.len() {
            let mut j: usize = self.first_rendered_index;
            let ghost mut run_acc: int = acc0;
            loop
                invariant
                    cs == self.constraints@,
                    start == self.first_rendered_index,
                    start <= j <= cs.len(),
                    taken@ == cs.subrange(start, j as int),
                    acc == run_acc,
                    run_acc <= u16::MAX,
                    dynamic_count(cs, start, acc0, max_size as int) == (j - start) + dynamic_count(cs, j as int, run_acc, max_size as int),
                    dynamic_fits(cs, j as int, run_acc, max_size as int),
                ensures
                    taken@ == cs.subrange(start, start + dynamic_count(cs, start, acc0, max_size as int)),
                decreases cs.len() - j,
            {
                if j >= self.constraints.len() {
                    break;
                }
                match self.constraints[j] {
                    Constraint::Min(u) => {
                        let next = acc + u as u32 + 1;
                        if next <= max_size as u32 {
                            taken.push(self.constraints[j]);
                            acc = next;
                            proof {
                                run_acc = next as int;
                            }
                            assert(taken@ =~= cs.subrange(start, j + 1));
                            j = j + 1;
                        } else {
                            break;
                        }
                    },
                    _ => {
                        break;
                    },
                }
            }
        }
        let ghost fixed_part = to_render@;
        let mut k: usize = 0;
        while k < taken.len()
            invariant
                k <= taken.len(),
                to_render@ == fixed_part + taken@.take(k as int),
            decreases taken.len() - k,
        {
            to_render.push(taken[k]);
            assert(to_render@ =~= fixed_part + taken@.take(k + 1));
            k = k + 1;
        }
        assert(taken@.take(taken.len() as int) =~= taken@);
        to_render
    }

    /// The indices of the columns shown out of `count`: the fixed ones, then
    /// those from the first rendered index on.
    pub open spec fn shown_columns(&self, count: int) -> Seq<int> {
        Seq::new(fixed_shown(count, self.fixed_count as int) as nat, |i: int| i) + (if self.first_rendered_index < count {
            Seq::new((count - self.first_rendered_index) as nat, |i: int| i + self.first_rendered_index)
        } else {
            Seq::empty()
        })
    }

    /// Every shown column is a column of the row.
    pub proof fn lemma_shown_columns_in_range(&self, count: int)
        requires
            count >= 0,
        ensures
            forall|i: int| 0 <= i < self.shown_columns(count).len() ==> 0 <= #[trigger] self.shown_columns(count)[i] < count,
    {
        let f = fixed_shown(count, self.fixed_count as int);
        let head = Seq::new(f as nat, |i: int| i);
        let tail = if self.first_rendered_index < count {
            Seq::new((count - self.first_rendered_index) as nat, |i: int| i + self.first_rendered_index)
        } else {
            Seq::<int>::empty()
        };
        assert forall|i: int| 0 <= i < self.shown_columns(count).len() implies 0 <= #[trigger] self.shown_columns(count)[i] < count by {
            assert(self.shown_columns(count) == head + tail);
            if i < head.len() {
                assert(self.shown_columns(count)[i] == head[i]);
                assert(f <= count);
            } else {
                assert(self.shown_columns(count)[i] == tail[i - head.len()]);
            }
        }
    }

    /// The indices of the shown columns out of `count`.
    pub fn shown_column_indices(&self, count: usize) -> (res: Vec<usize>)
        ensures
            res@.len() == self.shown_columns(count as int).len(),
            forall|k: int| 0 <= k < res@.len() ==> res@[k] as int == #[trigger] self.shown_columns(count as int)[k],
    {
        let ghost f = fixed_shown(count as int, self.fixed_count as int);
        let ghost head = Seq::new(f as nat, |i: int| i);
        let ghost tail = if self.first_rendered_index < count {
            Seq::new((count - self.first_rendered_index) as nat, |i: int| i + self.first_rendered_index)
        } else {
            Seq::<int>::empty()
        };
        let ghost cols = self.shown_columns(count as int);
        assert(cols == head + tail);
        let fixed = if self.fixed_count < count { self.fixed_count } else { count };
        let mut res: Vec<usize> = Vec::new();
        let mut i: usize = 0;
        while i < fixed
            invariant
                i <= fixed,
                fixed == f,
                cols == head + tail,
                head == Seq::new(f as nat, |i: int| i),
                res@.len() == i,
                forall|k: int| 0 <= k < i ==> res@[k] as int == cols[k],
            decreases fixed - i,
        {
            assert(cols[i as int] == head[i as int]);
            res.push(i);
            i = i + 1;
        }
        let mut j: usize = self.first_rendered_index;
        while j < count
            invariant
                fixed == f,
                cols == head + tail,
                head == Seq::new(f as nat, |i: int| i),
                tail == (if self.first_rendered_index < count {
                    Seq::new((count - self.first_rendered_index) as nat, |i: int| i + self.first_rendered_index)
                } else {
                    Seq::<int>::empty()
                }),
                self.first_rendered_index <= j,
                j <= count || j == self.first_rendered_index,
                res@.len() == fixed + (j - self.first_rendered_index),
                forall|k: int| 0 <= k < res@.len() ==> res@[k] as int == cols[k],
            decreases count - j,
        {
            let ghost k = res@.len() as int;
            assert(cols[k] == tail[k - f]);
            res.push(j);
            j = j + 1;
        }
        res
    }

    /// The headers shown, each with whether its column is selected.
    pub fn renderable_headers(&self) -> (res: Vec<(String, bool)>)
        ensures
            res@.len() == self.shown_columns(self.modified_headers@.len() as int).len(),
            forall|i: int| 0 <= i < res@.len() ==> {
                let c = #[trigger] self.shown_columns(self.modified_headers@.len() as int)[i];
                &&& res@[i].0@ == self.modified_headers@[c]@
                &&& res@[i].1 == (c == self.selected)
            },
    {
        let cols = self.shown_column_indices(self.modified_headers.len());
        let ghost colv = self.shown_columns(self.modified_headers@.len() as int);
        let mut res: Vec<(String, bool)> = Vec::new();
        let mut i: usize = 0;
        while i < cols.len()
            invariant
                i <= cols.len(),
                cols@.len() == colv.len(),
                forall|k: int| 0 <= k < cols@.len() ==> cols@[k] as int == #[trigger] colv[k],
                colv == self.shown_columns(self.modified_headers@.len() as int),
                res@.len() == i,
                forall|k: int| 0 <= k < i ==> {
                    let c = #[trigger] colv[k];
                    &&& res@[k].0@ == self.modified_headers@[c]@
                    &&& res@[k].1 == (c == self.selected)
                },
            decreases cols.len() - i,
        {
            let c = cols[i];
            assert(colv[i as int] == c as int);
            proof {
                self.lemma_shown_columns_in_range(self.modified_headers@.len() as int);
            }
            res.push((self.modified_headers[c].clone(), c == self.selected));
            i = i + 1;
        }
        res
    }

    /// The cells of a row that are shown; the selected column is not dimmed.
    pub fn renderable_row(&self, row: &Vec<(CellContent, CellStyle)>) -> (res: Vec<(CellContent, CellStyle)>)
        ensures
            res@.len() == self.shown_columns(row@.len() as int).len(),
            forall|i: int| 0 <= i < res@.len() ==> {
                let c = #[trigger] self.shown_columns(row@.len() as int)[i];
                &&& res@[i].0@ == row@[c].0@
                &&& res@[i].1 == (if c == self.selected {
                    CellStyle { dim: false, ..row@[c].1 }
                } else {
                    row@[c].1
                })
            },
    {
        let cols = self.shown_column_indices(row.len());
        let ghost colv = self.shown_columns(row@.len() as int);
        let mut res: Vec<(CellContent, CellStyle)> = Vec::new();
        let mut i: usize = 0;
        while i < cols.len()
            invariant
                i <= cols.len(),
                cols@.len() == colv.len(),
                forall|k: int| 0 <= k < cols@.len() ==> cols@[k] as int == #[trigger] colv[k],
                colv == self.shown_columns(row@.len() as int),
                res@.len() == i,
                forall|k: int| 0 <= k < i ==> {
                    let c = #[trigger] colv[k];
                    &&& res@[k].0@ == row@[c].0@
                    &&& res@[k].1 == (if c == self.selected {
                        CellStyle { dim: false, ..row@[c].1 }
                    } else {
                        row@[c].1
                    })
                },
            decreases cols.len() - i,
        {
            let c = cols[i];
            assert(colv[i as int] == c as int);
            proof {
                self.lemma_shown_columns_in_range(row@.len() as int);
            }
            let cell = &row[c];
            let style = if c == self.selected {
                CellStyle { dim: false, ..cell.1 }
            } else {
                cell.1
            };
            res.push((clone_cell(&cell.0), style));
            i = i + 1;
        }
        res
    }
}

/// A copy of a cell's content.
pub fn clone_cell(c: &CellContent) -> (res: CellContent)
    ensures
        res@ == c@,
{
    match c {
        CellContent::Text(s) => CellContent::Text(s.clone()),
        CellContent::Duration(d) => CellContent::Duration(*d),
    }
}

/// The width of `n` columns from `start` on, each its minimum and one
/// padding.
pub open spec fn padded_width(cs: Seq<Constraint>, start: int, n: int) -> int
    decreases n,
{
    if n <= 0 {
        0
    } else {
        min_width(cs[start]) + 1 + padded_width(cs, start + 1, n - 1)
    }
}

/// The columns counted from `start` on have minimum widths, fit beside
/// `acc` within `max_size`, and are as many as fit: the column after them
/// has no minimum or would not fit.
proof fn lemma_dynamic_count_fits(cs: Seq<Constraint>, start: int, acc: int, max_size: int)
    requires
        0 <= start,
    ensures
        ({
            let n = dynamic_count(cs, start, acc, max_size) as int;
            &&& start + n <= cs.len() || n == 0
            &&& forall|i: int| start <= i < start + n ==> (#[trigger] cs[i]) is Min
            &&& n == 0 || acc + padded_width(cs, start, n) <= max_size
            &&& (start + n < cs.len() && cs[start + n] is Min) ==> acc + padded_width(cs, start, n)
                + min_width(cs[start + n]) + 1 > max_size
        }),
    decreases cs.len() - start,
{
    if start < cs.len() {
        match cs[start] {
            Constraint::Min(u) => {
                if acc + u + 1 <= max_size {
                    lemma_dynamic_count_fits(cs, start + 1, acc + u + 1, max_size);
                    let m = dynamic_count(cs, start + 1, acc + u + 1, max_size) as int;
                    assert(padded_width(cs, start, m + 1) == u + 1 + padded_width(cs, start + 1, m));
                }
            },
            _ => {},
        }
    }
}

/// The fixed width grows with the number of columns counted.
pub proof fn lemma_fixed_width_monotone(cs: Seq<Constraint>, a: int, b: int)
    requires
        a <= b,
        b <= cs.len(),
    ensures
        fixed_width(cs, a) <= fixed_width(cs, b),
    decreases b - a,
{
    if a < b {
        lemma_fixed_width_monotone(cs, a, b - 1);
        if b >= 1 {
            assert(min_width(cs[b - 1]) >= 0);
        }
    }
}

/// The sort key orders a table by its selected column, in the order opposite
/// to the one it had, keeps every row, and marks that column as the one
/// sorted by.
pub proof fn lemma_sort_key_orders_rows<X: FocusKey>(t: ExtendedTable<Vec<X>>, new: ExtendedTable<Vec<X>>, delta_toggle: bool)
    requires
        t.sort_toggled(&new, delta_toggle),
        t.selected < X::key_columns(),
    ensures
        new.sorted_by == t.selected,
        new.sort_order == flipped(t.sort_order),
        in_column_order(new.content@, t.selected, flipped(t.sort_order), delta_toggle),
        new.content@.to_multiset() == t.content@.to_multiset(),
{
    lemma_ordered_items(t.content@, t.selected, flipped(t.sort_order), delta_toggle);
}

} // verus!
