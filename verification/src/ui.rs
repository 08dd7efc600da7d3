//! The file-table state: file list, selection set, search query and
//! filter set, with the three selection gestures and filter recomputation.

use vstd::prelude::*;
use crate::names::{file_name_seq, make_file_list};
use crate::selection::{
    idx_set, insert_range, insert_sorted, lemma_sorted_bounds, range_incl, remove_sorted,
    sorted_strict, vec_contains,
};
use crate::text::{matches_query, name_matches};

verus! {

/// The whole in-memory state of the file table.
pub struct App {
    file_list: Vec<String>,
    selected_file: Vec<usize>,
    query: String,
    filter: Vec<usize>,
}

impl App {
    /// The file names, as character sequences.
    pub closed spec fn files(&self) -> Seq<Seq<char>> {
        self.file_list@.map_values(|s: String| s@)
    }

    /// The set of selected row indices.
    pub closed spec fn selection(&self) -> Set<usize> {
        idx_set(self.selected_file@)
    }

    /// The current search query.
    pub closed spec fn query_view(&self) -> Seq<char> {
        self.query@
    }

    /// The set of row indices matching the current query.
    pub closed spec fn filter_set(&self) -> Set<usize> {
        idx_set(self.filter@)
    }

    /// The smallest selected index (meaningful only when the selection is
    /// non-empty; see `lemma_selection_bounds`).
    pub closed spec fn sel_min(&self) -> usize {
        self.selected_file@[0]
    }

    /// The largest selected index.
    pub closed spec fn sel_max(&self) -> usize {
        self.selected_file@[self.selected_file@.len() - 1]
    }

    /// What the filter must hold for a given file list and query: nothing
    /// for the empty (inactive) query, otherwise exactly the matching rows.
    pub open spec fn filter_spec(files: Seq<Seq<char>>, q: Seq<char>) -> Set<usize> {
        if q.len() == 0 {
            Set::empty()
        } else {
            Set::new(|i: usize| i < files.len() && matches_query(files[i as int], q))
        }
    }

    /// Internal invariant: both index vectors are strictly increasing,
    /// selected indices are in range, and the filter set is exactly what
    /// the current query demands.
    pub closed spec fn wf(&self) -> bool {
        &&& sorted_strict(self.selected_file@)
        &&& forall|k: int|
            0 <= k < self.selected_file@.len()
                ==> #[trigger] self.selected_file@[k] < self.file_list@.len()
        &&& sorted_strict(self.filter@)
        &&& idx_set(self.filter@) == Self::filter_spec(self.files(), self.query@)
    }

    /// A fresh table over the given file names: nothing selected, no query.
    pub fn new(file_list: Vec<String>) -> (r: App)
        ensures
            r.wf(),
            r.files() == file_list@.map_values(|s: String| s@),
            r.selection() == Set::<usize>::empty(),
            r.query_view() == Seq::<char>::empty(),
            r.filter_set() == Set::<usize>::empty(),
    {
        let r = App { file_list, selected_file: Vec::new(), query: String::new(), filter: Vec::new() };
        proof {
            assert(r.selection() =~= Set::<usize>::empty());
            assert(r.filter_set() =~= Set::<usize>::empty());
            assert(r.filter_set() =~= Self::filter_spec(r.files(), r.query@));
        }
        r
    }

    /// How many files the table lists.
    pub fn file_count(&self) -> (r: usize)
        ensures
            r == self.files().len(),
    {
        self.file_list.len()
    }

    /// The name of row `i`.
    pub fn file_name(&self, i: usize) -> (r: &String)
        requires
            i < self.files().len(),
        ensures
            r@ == self.files()[i as int],
    {
        &self.file_list[i]
    }

    /// Whether row `i` is selected.
    pub fn is_selected(&self, i: usize) -> (r: bool)
        ensures
            r == self.selection().contains(i),
    {
        vec_contains(&self.selected_file, i)
    }

    /// Whether nothing is selected.
    pub fn selection_is_empty(&self) -> (r: bool)
        ensures
            r == (self.selection() == Set::<usize>::empty()),
    {
        if self.selected_file.len() == 0 {
            proof {
                assert(self.selection() =~= Set::<usize>::empty());
            }
            true
        } else {
            proof {
                assert(self.selected_file@.contains(self.selected_file@[0]));
                assert(self.selection().contains(self.selected_file@[0]));
            }
            false
        }
    }

    /// The selected indices, ascending.
    pub fn selected_indices(&self) -> (r: &Vec<usize>)
        requires
            self.wf(),
        ensures
            sorted_strict(r@),
            idx_set(r@) == self.selection(),
    {
        &self.selected_file
    }

    /// The matching indices, ascending.
    pub fn filter_indices(&self) -> (r: &Vec<usize>)
        requires
            self.wf(),
        ensures
            sorted_strict(r@),
            idx_set(r@) == self.filter_set(),
    {
        &self.filter
    }

    /// The current query text.
    pub fn query_text(&self) -> (r: &String)
        ensures
            r@ == self.query_view(),
    {
        &self.query
    }

    /// Whether a query is active (non-empty).
    pub fn filter_active(&self) -> (r: bool)
        ensures
            r == (self.query_view().len() > 0),
    {
        !self.query.as_str().is_empty()
    }

    /// Range-extend the selection towards row `i`: fill from `i` up to the
    /// current minimum, from the current maximum down to `i`, or every gap
    /// between minimum and maximum when `i` lies inside the bounds.
    pub fn shift_selected(&mut self, i: usize)
        requires
            old(self).wf(),
            old(self).selection() != Set::<usize>::empty(),
            i < old(self).files().len(),
        ensures
            final(self).wf(),
            final(self).files() == old(self).files(),
            final(self).query_view() == old(self).query_view(),
            final(self).filter_set() == old(self).filter_set(),
            ({
                let lo = old(self).sel_min();
                let hi = old(self).sel_max();
                if i < lo {
                    final(self).selection() == old(self).selection().union(
                        range_incl(i as int, lo as int),
                    )
                } else if i > hi {
                    final(self).selection() == old(self).selection().union(
                        range_incl(hi as int, i as int),
                    )
                } else {
                    final(self).selection() == range_incl(lo as int, hi as int)
                }
            }),
    {
        proof {
            if old(self).selected_file@.len() == 0 {
                assert(old(self).selection() =~= Set::<usize>::empty());
            }
            lemma_sorted_bounds(old(self).selected_file@);
        }
        // the exec length pins every index strictly below `usize::MAX`
        let n = self.file_list.len();
        let lo = self.selected_file[0];
        let hi = self.selected_file[self.selected_file.len() - 1];
        assert(lo < n && hi < n && i < n);
        if i < lo {
            insert_range(&mut self.selected_file, i, lo);
        } else if i > hi {
            insert_range(&mut self.selected_file, hi, i);
        } else {
            insert_range(&mut self.selected_file, lo, hi);
            proof {
                // every previously selected index lies between the bounds,
                // so the union collapses to the full range
                assert(self.selection() =~= range_incl(lo as int, hi as int));
            }
        }
        proof {
            assert forall|k: int| 0 <= k < self.selected_file@.len()
                implies #[trigger] self.selected_file@[k] < self.file_list@.len() by {
                assert(self.selection().contains(self.selected_file@[k]));
            }
        }
    }

    /// The checkbox gesture on row `i`: toggle membership; a shift-check
    /// additionally range-extends, which always leaves a dense range.
    pub fn checkbox_click(&mut self, i: usize, shift: bool)
        requires
            old(self).wf(),
            i < old(self).files().len(),
        ensures
            final(self).wf(),
            final(self).files() == old(self).files(),
            final(self).query_view() == old(self).query_view(),
            final(self).filter_set() == old(self).filter_set(),
            old(self).selection().contains(i) ==> final(self).selection() == old(
                self,
            ).selection().remove(i),
            !old(self).selection().contains(i) && !shift ==> final(self).selection() == old(
                self,
            ).selection().insert(i),
            !old(self).selection().contains(i) && shift && old(self).selection()
                == Set::<usize>::empty() ==> final(self).selection() == range_incl(i as int, i as int),
            !old(self).selection().contains(i) && shift && old(self).selection()
                != Set::<usize>::empty() ==> ({
                let lo = old(self).sel_min();
                let hi = old(self).sel_max();
                final(self).selection() == range_incl(
                    if i < lo { i as int } else { lo as int },
                    if i > hi { i as int } else { hi as int },
                )
            }),
    {
        if self.is_selected(i) {
            remove_sorted(&mut self.selected_file, i);
            proof {
                assert forall|k: int| 0 <= k < self.selected_file@.len()
                    implies #[trigger] self.selected_file@[k] < self.file_list@.len() by {
                    assert(self.selection().contains(self.selected_file@[k]));
                    assert(old(self).selection().contains(self.selected_file@[k]));
                }
            }
            return;
        }
        insert_sorted(&mut self.selected_file, i);
        proof {
            assert forall|k: int| 0 <= k < self.selected_file@.len()
                implies #[trigger] self.selected_file@[k] < self.file_list@.len() by {
                assert(self.selection().contains(self.selected_file@[k]));
            }
        }
        if !shift {
            return;
        }
        let ghost mid = *self;
        proof {
            assert(mid.selection().contains(i));
            assert(mid.selection() != Set::<usize>::empty());
            lemma_sorted_bounds(mid.selected_file@);
            if old(self).selection() == Set::<usize>::empty() {
                // the selection is now exactly {i}
                assert(mid.sel_min() == i && mid.sel_max() == i) by {
                    assert(mid.selection() =~= old(self).selection().insert(i));
                }
            } else {
                if old(self).selected_file@.len() == 0 {
                    assert(old(self).selection() =~= Set::<usize>::empty());
                }
                lemma_sorted_bounds(old(self).selected_file@);
                let lo = old(self).sel_min();
                let hi = old(self).sel_max();
                assert(mid.selection().contains(lo) && mid.selection().contains(hi));
                assert(mid.sel_min() == if i < lo { i } else { lo }) by {
                    assert(mid.selection().contains(mid.sel_min()));
                }
                assert(mid.sel_max() == if i > hi { i } else { hi }) by {
                    assert(mid.selection().contains(mid.sel_max()));
                }
            }
        }
        self.shift_selected(i);
        proof {
            let a = mid.sel_min();
            let b = mid.sel_max();
            assert(a <= i <= b);
            assert(self.selection() == range_incl(a as int, b as int));
        }
    }

    /// The label gesture on row `i`: a plain click selects only `i`; a
    /// shift-click range-extends a non-empty selection and leaves an empty
    /// one untouched.
    pub fn label_click(&mut self, i: usize, shift: bool)
        requires
            old(self).wf(),
            i < old(self).files().len(),
        ensures
            final(self).wf(),
            final(self).files() == old(self).files(),
            final(self).query_view() == old(self).query_view(),
            final(self).filter_set() == old(self).filter_set(),
            !shift ==> final(self).selection() == Set::<usize>::empty().insert(i),
            shift && old(self).selection() == Set::<usize>::empty() ==> final(self).selection() == old(
                self,
            ).selection(),
            shift && old(self).selection() != Set::<usize>::empty() ==> ({
                let lo = old(self).sel_min();
                let hi = old(self).sel_max();
                if i < lo {
                    final(self).selection() == old(self).selection().union(
                        range_incl(i as int, lo as int),
                    )
                } else if i > hi {
                    final(self).selection() == old(self).selection().union(
                        range_incl(hi as int, i as int),
                    )
                } else {
                    final(self).selection() == range_incl(lo as int, hi as int)
                }
            }),
    {
        if shift {
            if !self.selection_is_empty() {
                self.shift_selected(i);
            }
        } else {
            self.selected_file = Vec::new();
            insert_sorted(&mut self.selected_file, i);
            proof {
                assert(self.selection() =~= Set::<usize>::empty().insert(i));
                assert forall|k: int| 0 <= k < self.selected_file@.len()
                    implies #[trigger] self.selected_file@[k] < self.file_list@.len() by {
                    assert(self.selection().contains(self.selected_file@[k]));
                }
            }
        }
    }

    /// The clear-all control: deselect everything.
    pub fn clear_selection(&mut self)
        requires
            old(self).wf(),
        ensures
            final(self).wf(),
            final(self).files() == old(self).files(),
            final(self).query_view() == old(self).query_view(),
            final(self).filter_set() == old(self).filter_set(),
            final(self).selection() == Set::<usize>::empty(),
    {
        self.selected_file = Vec::new();
        proof {
            assert(self.selection() =~= Set::<usize>::empty());
        }
    }

    /// Rebuild the filter vector from the current file list and query.
    fn recompute_filter(&mut self)
        ensures
            final(self).file_list == old(self).file_list,
            final(self).selected_file == old(self).selected_file,
            final(self).query == old(self).query,
            sorted_strict(final(self).filter@),
            idx_set(final(self).filter@) == Self::filter_spec(
                old(self).files(),
                old(self).query@,
            ),
    {
        let mut nf: Vec<usize> = Vec::new();
        if !self.query.as_str().is_empty() {
            let count = self.file_list.len();
            let mut idx: usize = 0;
            while idx < count
                invariant
                    count == self.file_list@.len(),
                    self.query@.len() > 0,
                    idx <= count,
                    forall|k: int| 0 <= k < nf@.len() ==> #[trigger] nf@[k] < idx,
                    sorted_strict(nf@),
                    forall|x: usize|
                        #[trigger] idx_set(nf@).contains(x) <==> x < idx && matches_query(
                            self.files()[x as int],
                            self.query@,
                        ),
                decreases count - idx,
            {
                let ghost prev = nf@;
                if name_matches(self.file_list[idx].as_str(), self.query.as_str()) {
                    nf.push(idx);
                    proof {
                        assert(forall|k: int| 0 <= k < prev.len() ==> nf@[k] == prev[k]);
                        assert(nf@[nf@.len() - 1] == idx);
                        assert forall|x: usize| #[trigger] idx_set(nf@).contains(x)
                            implies x < idx + 1 && matches_query(
                            self.files()[x as int],
                            self.query@,
                        ) by {
                            let k = choose|k: int| 0 <= k < nf@.len() && nf@[k] == x;
                            if k < nf@.len() - 1 {
                                assert(prev.contains(x));
                                assert(idx_set(prev).contains(x));
                            }
                        }
                        assert forall|x: usize|
                            x < idx + 1 && matches_query(self.files()[x as int], self.query@)
                            implies #[trigger] idx_set(nf@).contains(x) by {
                            if x < idx {
                                assert(idx_set(prev).contains(x));
                                let k = choose|k: int| 0 <= k < prev.len() && prev[k] == x;
                                assert(nf@[k] == x);
                            } else {
                                assert(nf@[nf@.len() - 1] == x);
                            }
                            assert(nf@.contains(x));
                        }
                    }
                }
                idx += 1;
            }
            proof {
                assert(idx_set(nf@) =~= Self::filter_spec(self.files(), self.query@));
            }
        } else {
            proof {
                assert(idx_set(nf@) =~= Self::filter_spec(self.files(), self.query@));
            }
        }
        self.filter = nf;
    }

    /// Change the query text; the filter is recomputed at once.
    pub fn set_query(&mut self, q: String)
        requires
            old(self).wf(),
        ensures
            final(self).wf(),
            final(self).files() == old(self).files(),
            final(self).selection() == old(self).selection(),
            final(self).query_view() == q@,
            final(self).filter_set() == Self::filter_spec(old(self).files(), q@),
    {
        self.query = q;
        self.recompute_filter();
    }

    /// The clear control of the search box: empty query, empty filter.
    pub fn clear_query(&mut self)
        requires
            old(self).wf(),
        ensures
            final(self).wf(),
            final(self).files() == old(self).files(),
            final(self).selection() == old(self).selection(),
            final(self).query_view() == Seq::<char>::empty(),
            final(self).filter_set() == Set::<usize>::empty(),
    {
        self.query = String::new();
        self.filter = Vec::new();
        proof {
            assert(self.filter_set() =~= Set::<usize>::empty());
            assert(self.filter_set() =~= Self::filter_spec(self.files(), self.query@));
        }
    }
}

impl Default for App {
    /// The placeholder table: one hundred synthesized file names, nothing
    /// selected, no query.
    fn default() -> (r: Self)
        ensures
            r.wf(),
            r.files().len() == 100,
            forall|k: int| 0 <= k < 100 ==> #[trigger] r.files()[k] == file_name_seq(k as nat),
            r.selection() == Set::<usize>::empty(),
            r.query_view() == Seq::<char>::empty(),
            r.filter_set() == Set::<usize>::empty(),
    {
        let list = make_file_list(100);
        let r = App::new(list);
        r
    }
}

/// For a non-empty well-formed selection, `sel_min` and `sel_max` are the
/// least and greatest selected indices: the bounds the range-extend
/// gesture fills towards.
pub proof fn lemma_selection_bounds(app: &App)
    requires
        app.wf(),
        app.selection() != Set::<usize>::empty(),
    ensures
        app.selection().contains(app.sel_min()),
        app.selection().contains(app.sel_max()),
        forall|x: usize|
            app.selection().contains(x) ==> app.sel_min() <= x <= app.sel_max(),
{
    if app.selected_file@.len() == 0 {
        assert(app.selection() =~= Set::<usize>::empty());
    }
    lemma_sorted_bounds(app.selected_file@);
}

/// The filter is a function of the file list and the query alone: two
/// well-formed states that agree on both hold the same filter set.
/// Recomputing with an unchanged query therefore yields the same set both
/// times.
pub proof fn lemma_filter_deterministic(a: &App, b: &App)
    requires
        a.wf(),
        b.wf(),
        a.files() == b.files(),
        a.query_view() == b.query_view(),
    ensures
        a.filter_set() == b.filter_set(),
{
}

} // verus!
