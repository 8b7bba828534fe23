//! Which columns of a table are shown, and in what order.
//!
//! A table's configuration is a list of column entries, each carrying an
//! id, a display name and a visibility flag. Reconciling a stored
//! configuration with the columns a table actually has keeps the stored
//! order, appends columns not seen before, and drops entries whose column
//! is gone. Persisting the configuration is the caller's business.

use vstd::prelude::*;

verus! {

/// One column entry: its id, display name, and whether it is shown.
#[derive(Debug, Clone, Hash, PartialEq, Eq)]
pub struct ColumnConfig {
    id: u64,
    name: String,
    visible: bool,
}

/// Mathematical image of a [`ColumnConfig`].
#[verifier::ext_equal]
pub struct ColumnConfigView {
    pub id: u64,
    pub name: Seq<char>,
    pub visible: bool,
}

impl View for ColumnConfig {
    type V = ColumnConfigView;

    closed spec fn view(&self) -> ColumnConfigView {
        ColumnConfigView { id: self.id, name: self.name@, visible: self.visible }
    }
}

impl ColumnConfig {
    /// A new, visible column entry.
    pub fn new(id: u64, name: String) -> (r: ColumnConfig)
        ensures
            r@ == (ColumnConfigView { id, name: name@, visible: true }),
    {
        ColumnConfig { id, name, visible: true }
    }

    pub fn new_with_visible(id: u64, name: String, visible: bool) -> (r: ColumnConfig)
        ensures
            r@ == (ColumnConfigView { id, name: name@, visible }),
    {
        ColumnConfig { id, name, visible }
    }

    pub fn id(&self) -> (r: u64)
        ensures
            r == self@.id,
    {
        self.id
    }

    pub fn name(&self) -> (r: &str)
        ensures
            r@ == self@.name,
    {
        self.name.as_str()
    }

    pub fn visible(&self) -> (r: bool)
        ensures
            r == self@.visible,
    {
        self.visible
    }

    /// Flips whether the column is shown.
    pub fn toggle_visible(&mut self)
        ensures
            final(self)@ == (ColumnConfigView { visible: !old(self)@.visible, ..old(self)@ }),
    {
        self.visible = !self.visible;
    }

    fn duplicate(&self) -> (r: ColumnConfig)
        ensures
            r@ == self@,
    {
        ColumnConfig { id: self.id, name: self.name.clone(), visible: self.visible }
    }
}

pub open spec fn view_cols(cols: Seq<ColumnConfig>) -> Seq<ColumnConfigView> {
    cols.map_values(|c: ColumnConfig| c@)
}

/// Whether some entry carries this id.
pub open spec fn has_id(cols: Seq<ColumnConfigView>, id: u64) -> bool {
    exists|i: int| 0 <= i < cols.len() && (#[trigger] cols[i]).id == id
}

/// Whether some entry carries this name.
pub open spec fn has_name(cols: Seq<ColumnConfigView>, name: Seq<char>) -> bool {
    exists|i: int| 0 <= i < cols.len() && (#[trigger] cols[i]).name == name
}

/// Appends, in order, each incoming entry whose name is not yet present.
pub open spec fn add_new(
    existing: Seq<ColumnConfigView>,
    incoming: Seq<ColumnConfigView>,
) -> Seq<ColumnConfigView>
    decreases incoming.len(),
{
    if incoming.len() == 0 {
        existing
    } else {
        let step = if has_name(existing, incoming[0].name) {
            existing
        } else {
            existing.push(incoming[0])
        };
        add_new(step, incoming.skip(1))
    }
}

/// Keeps, in order, the entries whose id the incoming columns still carry.
pub open spec fn keep_known(
    cols: Seq<ColumnConfigView>,
    incoming: Seq<ColumnConfigView>,
) -> Seq<ColumnConfigView>
    decreases cols.len(),
{
    if cols.len() == 0 {
        Seq::empty()
    } else {
        let rest = keep_known(cols.skip(1), incoming);
        if has_id(incoming, cols[0].id) {
            seq![cols[0]] + rest
        } else {
            rest
        }
    }
}

/// Reconciling stored entries with the incoming columns: unseen names are
/// appended at the end, then entries for vanished ids are dropped.
pub open spec fn spec_get_with_columns(
    existing: Seq<ColumnConfigView>,
    incoming: Seq<ColumnConfigView>,
) -> Seq<ColumnConfigView> {
    keep_known(add_new(existing, incoming), incoming)
}

/// Processing one more incoming entry at the end acts on the accumulated
/// result.
proof fn lemma_add_new_push(
    existing: Seq<ColumnConfigView>,
    incoming: Seq<ColumnConfigView>,
    c: ColumnConfigView,
)
    ensures
        add_new(existing, incoming.push(c)) == (if has_name(add_new(existing, incoming), c.name) {
            add_new(existing, incoming)
        } else {
            add_new(existing, incoming).push(c)
        }),
    decreases incoming.len(),
{
    let pushed = incoming.push(c);
    if incoming.len() == 0 {
        assert(pushed[0] == c);
        let step = if has_name(existing, c.name) {
            existing
        } else {
            existing.push(c)
        };
        assert(add_new(existing, pushed) == add_new(step, pushed.skip(1)));
        assert(pushed.skip(1) =~= incoming);
        assert(add_new(step, incoming) == step);
        assert(add_new(existing, incoming) == existing);
    } else {
        assert(pushed[0] == incoming[0]);
        let step = if has_name(existing, incoming[0].name) {
            existing
        } else {
            existing.push(incoming[0])
        };
        assert(add_new(existing, pushed) == add_new(step, pushed.skip(1)));
        assert(pushed.skip(1) =~= incoming.skip(1).push(c));
        lemma_add_new_push(step, incoming.skip(1), c);
        assert(add_new(existing, incoming) == add_new(step, incoming.skip(1)));
    }
}

/// The entries that are shown.
pub open spec fn spec_visible(cols: Seq<ColumnConfigView>) -> Seq<ColumnConfigView>
    decreases cols.len(),
{
    if cols.len() == 0 {
        Seq::empty()
    } else {
        let rest = spec_visible(cols.skip(1));
        if cols[0].visible {
            seq![cols[0]] + rest
        } else {
            rest
        }
    }
}

/// The names of the entries that are shown, in order.
pub open spec fn spec_visible_names(cols: Seq<ColumnConfigView>) -> Seq<Seq<char>>
    decreases cols.len(),
{
    if cols.len() == 0 {
        Seq::empty()
    } else {
        let rest = spec_visible_names(cols.skip(1));
        if cols[0].visible {
            seq![cols[0].name] + rest
        } else {
            rest
        }
    }
}

/// The ids of the entries that are shown, in order.
pub open spec fn spec_visible_ids(cols: Seq<ColumnConfigView>) -> Seq<u64>
    decreases cols.len(),
{
    if cols.len() == 0 {
        Seq::empty()
    } else {
        let rest = spec_visible_ids(cols.skip(1));
        if cols[0].visible {
            seq![cols[0].id] + rest
        } else {
            rest
        }
    }
}

/// The configuration of one table: its persistence id and its column
/// entries, in display order.
#[derive(Debug, Clone, PartialEq, Eq)]
pub struct TableConfig {
    id: u64,
    columns: Vec<ColumnConfig>,
}

/// Mathematical image of a [`TableConfig`].
#[verifier::ext_equal]
pub struct TableConfigView {
    pub id: u64,
    pub columns: Seq<ColumnConfigView>,
}

impl View for TableConfig {
    type V = TableConfigView;

    closed spec fn view(&self) -> TableConfigView {
        TableConfigView { id: self.id, columns: view_cols(self.columns@) }
    }
}

/// Whether some stored entry carries this name.
fn any_name(cols: &Vec<ColumnConfig>, name: &String) -> (r: bool)
    ensures
        r == has_name(view_cols(cols@), name@),
{
    let mut i: usize = 0;
    while i < cols.len()
        invariant
            i <= cols@.len(),
            forall|k: int| 0 <= k < i ==> (#[trigger] view_cols(cols@)[k]).name != name@,
        decreases cols@.len() - i,
    {
        if cols[i].name == *name {
            proof {
                assert(view_cols(cols@)[i as int].name == name@);
            }
            return true;
        }
        i = i + 1;
    }
    false
}

/// Whether some incoming column carries this id.
fn any_id(cols: &Vec<ColumnConfig>, id: u64) -> (r: bool)
    ensures
        r == has_id(view_cols(cols@), id),
{
    let mut i: usize = 0;
    while i < cols.len()
        invariant
            i <= cols@.len(),
            forall|k: int| 0 <= k < i ==> (#[trigger] view_cols(cols@)[k]).id != id,
        decreases cols@.len() - i,
    {
        if cols[i].id == id {
            proof {
                assert(view_cols(cols@)[i as int].id == id);
            }
            return true;
        }
        i = i + 1;
    }
    false
}

impl TableConfig {
    /// An empty configuration under the given persistence id.
    pub fn new(id: u64) -> (r: TableConfig)
        ensures
            r@.id == id,
            r@.columns == Seq::<ColumnConfigView>::empty(),
    {
        let r = TableConfig { id, columns: Vec::new() };
        proof {
            assert(r@.columns =~= Seq::<ColumnConfigView>::empty());
        }
        r
    }

    pub fn id(&self) -> (r: u64)
        ensures
            r == self@.id,
    {
        self.id
    }

    /// Reconciles this configuration with the columns the table has now:
    /// columns whose name was never seen are appended at the end, in
    /// their incoming order, and entries whose id no incoming column
    /// carries are dropped. Everything else keeps its stored order and
    /// visibility.
    pub fn get_with_columns(self, columns: Vec<ColumnConfig>) -> (r: TableConfig)
        ensures
            r@.id == self@.id,
            r@.columns == spec_get_with_columns(self@.columns, view_cols(columns@)),
    {
        let ghost existing = self@.columns;
        let ghost incoming = view_cols(columns@);
        let id = self.id;
        let mut cols = self.columns;
        let mut i: usize = 0;
        proof {
            assert(incoming.take(0) =~= Seq::<ColumnConfigView>::empty());
            assert(add_new(existing, incoming.take(0)) == existing);
        }
        while i < columns.len()
            invariant
                i <= columns@.len(),
                incoming == view_cols(columns@),
                view_cols(cols@) == add_new(existing, incoming.take(i as int)),
            decreases columns@.len() - i,
        {
            let ghost pre = view_cols(cols@);
            let name_known = any_name(&cols, &columns[i].name);
            if !name_known {
                let c = columns[i].duplicate();
                cols.push(c);
                proof {
                    assert(view_cols(cols@) =~= pre.push(incoming[i as int]));
                }
            }
            proof {
                assert(incoming[i as int].name == columns@[i as int].name@);
                assert(incoming.take(i + 1 as int) =~= incoming.take(i as int).push(
                    incoming[i as int],
                ));
                lemma_add_new_push(existing, incoming.take(i as int), incoming[i as int]);
            }
            i = i + 1;
        }
        proof {
            assert(incoming.take(columns@.len() as int) =~= incoming);
        }
        let ghost merged = view_cols(cols@);
        let mut kept: Vec<ColumnConfig> = Vec::new();
        let mut j: usize = 0;
        proof {
            assert(merged.skip(0) =~= merged);
            assert(view_cols(kept@) =~= Seq::<ColumnConfigView>::empty());
        }
        while j < cols.len()
            invariant
                j <= cols@.len(),
                merged == view_cols(cols@),
                incoming == view_cols(columns@),
                view_cols(kept@) + keep_known(merged.skip(j as int), incoming) == keep_known(
                    merged,
                    incoming,
                ),
            decreases cols@.len() - j,
        {
            let ghost pre_kept = view_cols(kept@);
            proof {
                assert(merged.skip(j as int)[0] == merged[j as int]);
                assert(merged.skip(j as int).skip(1) =~= merged.skip(j + 1 as int));
            }
            let keep = any_id(&columns, cols[j].id);
            if keep {
                let c = cols[j].duplicate();
                kept.push(c);
                proof {
                    assert(view_cols(kept@) =~= pre_kept.push(merged[j as int]));
                    assert(pre_kept.push(merged[j as int]) + keep_known(
                        merged.skip(j + 1 as int),
                        incoming,
                    ) =~= pre_kept + (seq![merged[j as int]] + keep_known(
                        merged.skip(j + 1 as int),
                        incoming,
                    )));
                }
            }
            j = j + 1;
        }
        proof {
            assert(merged.skip(cols@.len() as int).len() == 0);
            assert(view_cols(kept@) + keep_known(merged.skip(cols@.len() as int), incoming)
                =~= view_cols(kept@));
        }
        TableConfig { id, columns: kept }
    }

    /// The shown entries, in display order.
    pub fn visible_columns(&self) -> (r: Vec<ColumnConfig>)
        ensures
            view_cols(r@) == spec_visible(self@.columns),
    {
        let ghost all = view_cols(self.columns@);
        let mut out: Vec<ColumnConfig> = Vec::new();
        let mut i: usize = 0;
        proof {
            assert(all.skip(0) =~= all);
            assert(view_cols(out@) =~= Seq::<ColumnConfigView>::empty());
        }
        while i < self.columns.len()
            invariant
                i <= self.columns@.len(),
                all == view_cols(self.columns@),
                view_cols(out@) + spec_visible(all.skip(i as int)) == spec_visible(all),
            decreases self.columns@.len() - i,
        {
            let ghost pre = view_cols(out@);
            proof {
                assert(all.skip(i as int)[0] == all[i as int]);
                assert(all.skip(i as int).skip(1) =~= all.skip(i + 1 as int));
            }
            if self.columns[i].visible {
                let c = self.columns[i].duplicate();
                out.push(c);
                proof {
                    assert(view_cols(out@) =~= pre.push(all[i as int]));
                    assert(pre.push(all[i as int]) + spec_visible(all.skip(i + 1 as int)) =~= pre
                        + (seq![all[i as int]] + spec_visible(all.skip(i + 1 as int))));
                }
            }
            i = i + 1;
        }
        proof {
            assert(all.skip(self.columns@.len() as int).len() == 0);
            assert(view_cols(out@) + spec_visible(all.skip(self.columns@.len() as int))
                =~= view_cols(out@));
        }
        out
    }

    /// The names of the shown entries, in display order.
    pub fn visible_column_names(&self) -> (r: Vec<String>)
        ensures
            r@.map_values(|s: String| s@) == spec_visible_names(self@.columns),
    {
        let ghost all = view_cols(self.columns@);
        let mut out: Vec<String> = Vec::new();
        let mut i: usize = 0;
        proof {
            assert(all.skip(0) =~= all);
            assert(out@.map_values(|s: String| s@) =~= Seq::<Seq<char>>::empty());
        }
        while i < self.columns.len()
            invariant
                i <= self.columns@.len(),
                all == view_cols(self.columns@),
                out@.map_values(|s: String| s@) + spec_visible_names(all.skip(i as int))
                    == spec_visible_names(all),
            decreases self.columns@.len() - i,
        {
            let ghost pre = out@.map_values(|s: String| s@);
            proof {
                assert(all.skip(i as int)[0] == all[i as int]);
                assert(all.skip(i as int).skip(1) =~= all.skip(i + 1 as int));
            }
            if self.columns[i].visible {
                let c = self.columns[i].name.clone();
                out.push(c);
                proof {
                    assert(out@.map_values(|s: String| s@) =~= pre.push(all[i as int].name));
                    assert(pre.push(all[i as int].name) + spec_visible_names(
                        all.skip(i + 1 as int),
                    ) =~= pre + (seq![all[i as int].name] + spec_visible_names(
                        all.skip(i + 1 as int),
                    )));
                }
            }
            i = i + 1;
        }
        proof {
            assert(all.skip(self.columns@.len() as int).len() == 0);
            assert(out@.map_values(|s: String| s@) + spec_visible_names(
                all.skip(self.columns@.len() as int),
            ) =~= out@.map_values(|s: String| s@));
        }
        out
    }

    /// The ids of the shown entries, in display order.
    pub fn visible_column_ids(&self) -> (r: Vec<u64>)
        ensures
            r@ == spec_visible_ids(self@.columns),
    {
        let ghost all = view_cols(self.columns@);
        let mut out: Vec<u64> = Vec::new();
        let mut i: usize = 0;
        proof {
            assert(all.skip(0) =~= all);
            assert(out@ =~= Seq::<u64>::empty());
        }
        while i < self.columns.len()
            invariant
                i <= self.columns@.len(),
                all == view_cols(self.columns@),
                out@ + spec_visible_ids(all.skip(i as int)) == spec_visible_ids(all),
            decreases self.columns@.len() - i,
        {
            let ghost pre = out@;
            proof {
                assert(all.skip(i as int)[0] == all[i as int]);
                assert(all.skip(i as int).skip(1) =~= all.skip(i + 1 as int));
            }
            if self.columns[i].visible {
                out.push(self.columns[i].id);
                proof {
                    assert(out@ =~= pre.push(all[i as int].id));
                    assert(pre.push(all[i as int].id) + spec_visible_ids(all.skip(i + 1 as int))
                        =~= pre + (seq![all[i as int].id] + spec_visible_ids(
                        all.skip(i + 1 as int),
                    )));
                }
            }
            i = i + 1;
        }
        proof {
            assert(all.skip(self.columns@.len() as int).len() == 0);
            assert(out@ + spec_visible_ids(all.skip(self.columns@.len() as int)) =~= out@);
        }
        out
    }

    /// The column entries, in display order.
    pub fn columns(&self) -> (r: &Vec<ColumnConfig>)
        ensures
            view_cols(r@) == self@.columns,
    {
        &self.columns
    }
}

} // verus!
