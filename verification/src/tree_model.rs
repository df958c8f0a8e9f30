//! An item model over the packet description tree: it answers a view's questions
//! about rows, children, parents and cell data, with each item index carrying the
//! id of a path in a path cache.
use vstd::prelude::*;

use crate::model::Model;
use crate::pather::{
    cache_wf, is_record_start, lemma_extend_answers_record_start, lemma_extend_keeps_unique,
    lemma_parent_inverts_extend, overlong_at, records_unique, lemma_extend_keeps_paths, lemma_extend_reads_back, lemma_extend_result_bounded,
    lemma_parent_undoes_extend, lemma_root_path, path_at, spec_extend, spec_parent,
    PathCache,
};
use crate::role::{role_of_value, ItemDataRole};
use crate::tree::{spec_child, spec_columns, spec_data, spec_field, spec_len, Cell, CellView, NodeRef};

verus! {

/// The position of an item that a view asks about: its row and column among the
/// children of its parent, and the id of the path from the root to that parent.
#[derive(Debug, Clone, Copy, PartialEq, Eq, Structural)]
pub struct ModelIndex {
    pub row: i32,
    pub column: i32,
    pub id: usize,
}

impl ModelIndex {
    /// An index stands for an item where its row and column are not negative.
    pub open spec fn spec_is_valid(self) -> bool {
        self.row >= 0 && self.column >= 0
    }

    /// Whether the index stands for an item; the root and "no item" do not.
    pub fn is_valid(&self) -> (b: bool)
        ensures
            b == self.spec_is_valid(),
    {
        self.row >= 0 && self.column >= 0
    }

    /// The index of the item at `row`, `column` under the parent path `id`.
    pub fn create(row: i32, column: i32, id: usize) -> (i: Self)
        ensures
            i == (ModelIndex { row, column, id }),
    {
        ModelIndex { row, column, id }
    }

    /// The index that stands for no item (and, as a parent, for the root).
    pub fn invalid() -> (i: Self)
        ensures
            i == invalid_index(),
    {
        ModelIndex { row: -1, column: -1, id: 0 }
    }
}

/// The index that stands for no item.
pub open spec fn invalid_index() -> ModelIndex {
    ModelIndex { row: -1i32, column: -1i32, id: 0usize }
}

/// The node reached from `n` by following the steps of `path`, if every step
/// names an existing child.
pub open spec fn walk<'a>(n: NodeRef<'a>, path: Seq<i32>) -> Option<NodeRef<'a>>
    decreases path.len(),
{
    if path.len() == 0 {
        Some(n)
    } else {
        match walk(n, path.drop_last()) {
            Some(m) => spec_child(m, path.last() as int),
            None => None,
        }
    }
}

/// The node at the end of the path with id `id`.
pub open spec fn spec_container<'a>(list: &'a Model, v: Seq<i32>, id: int) -> Option<NodeRef<'a>> {
    match path_at(v, id) {
        Some(p) => walk(NodeRef::Model(list), p),
        None => None,
    }
}

/// The node that a valid index stands for: the child at its row of the node at the
/// end of its path.
pub open spec fn spec_designated<'a>(list: &'a Model, v: Seq<i32>, i: ModelIndex) -> Option<
    NodeRef<'a>,
> {
    if !i.spec_is_valid() {
        None
    } else {
        match spec_container(list, v, i.id as int) {
            Some(n) => spec_child(n, i.row as int),
            None => None,
        }
    }
}

/// The number of rows under `parent`: the children of the node it stands for, or
/// of the node at the end of its path where it stands for none.
pub open spec fn spec_row_count(list: &Model, v: Seq<i32>, parent: ModelIndex) -> i32 {
    match spec_container(list, v, parent.id as int) {
        None => 0,
        Some(n) => {
            let node = if parent.spec_is_valid() {
                spec_child(n, parent.row as int)
            } else {
                Some(n)
            };
            match node {
                Some(m) => spec_len(m) as i32,
                None => 0,
            }
        },
    }
}

/// The cell shown for `index` under the numeric role `role`: its data cell for the
/// display and edit roles, its field-name cell for the field label role, and no
/// cell otherwise or where the index stands for no node.
pub open spec fn spec_model_data(list: &Model, v: Seq<i32>, index: ModelIndex, role: i32) -> CellView {
    match spec_designated(list, v, index) {
        None => CellView::Empty,
        Some(n) => match role_of_value(role) {
            Some(ItemDataRole::DisplayRole) => spec_data(n, index.column as int),
            Some(ItemDataRole::EditRole) => spec_data(n, index.column as int),
            Some(ItemDataRole::FieldLabelRole) => spec_field(n, index.column as int),
            _ => CellView::Empty,
        },
    }
}

/// The index that `index(row, column, parent)` answers, with the cache it leaves.
pub open spec fn spec_index(v: Seq<i32>, row: i32, column: i32, parent: ModelIndex) -> (
    ModelIndex,
    Seq<i32>,
) {
    if !parent.spec_is_valid() {
        (ModelIndex { row, column, id: 0 }, v)
    } else {
        let (r, w) = spec_extend(v, parent.id as int, parent.row);
        match r {
            Some(p) => (ModelIndex { row, column, id: p as usize }, w),
            None => (invalid_index(), w),
        }
    }
}

/// The index that `parent(index)` answers.
pub open spec fn spec_parent_index(v: Seq<i32>, index: ModelIndex) -> ModelIndex {
    match spec_parent(v, index.id as int) {
        Some((q, t)) => ModelIndex { row: t, column: 0, id: q as usize },
        None => invalid_index(),
    }
}

/// The item model of the packet description tree, rooted at a model of packet sets.
pub struct PacketListModel {
    pub list: Model,
    /// The paths that the ids of the indexes handed out stand for.
    pub paths: PathCache,
}

impl PacketListModel {
    /// The path cache's contents.
    pub open spec fn paths(&self) -> Seq<i32> {
        self.paths@
    }

    /// The item model's shape holds.
    pub open spec fn wf(&self) -> bool {
        self.paths.wf()
    }

    /// An item model over `list` that knows only the root path.
    pub fn new(list: Model) -> (m: Self)
        ensures
            m.wf(),
            m.list == list,
            m.paths() == seq![0i32],
    {
        PacketListModel { list, paths: PathCache::new() }
    }

    /// The node at the end of `path`, walking down from the root.
    fn node_at(&self, path: &Vec<i32>) -> (r: Option<NodeRef<'_>>)
        ensures
            r == walk(NodeRef::Model(&self.list), path@),
    {
        let mut cur: Option<NodeRef<'_>> = Some(NodeRef::Model(&self.list));
        let mut i: usize = 0;
        assert(path@.subrange(0, 0) =~= Seq::<i32>::empty());
        while i < path.len()
            invariant
                i <= path@.len(),
                cur == walk(NodeRef::Model(&self.list), path@.subrange(0, i as int)),
            decreases path@.len() - i,
        {
            let step = path[i];
            let next = match cur {
                Some(n) => if step >= 0 {
                    n.child(step as usize)
                } else {
                    None
                },
                None => None,
            };
            assert(path@.subrange(0, i + 1).drop_last() =~= path@.subrange(0, i as int));
            cur = next;
            i = i + 1;
        }
        assert(path@.subrange(0, path@.len() as int) =~= path@);
        cur
    }

    /// The node at the end of the path with id `id`.
    fn container(&self, id: usize) -> (r: Option<NodeRef<'_>>)
        requires
            self.wf(),
            !overlong_at(self.paths(), id as int),
        ensures
            r == spec_container(&self.list, self.paths(), id as int),
    {
        match self.paths.from_id(id) {
            Some(path) => self.node_at(&path),
            None => None,
        }
    }

    /// The index of the item at `row`, `column` under `parent`.
    pub fn index(&mut self, row: i32, column: i32, parent: ModelIndex) -> (r: ModelIndex)
        requires
            old(self).wf(),
            parent.spec_is_valid() ==> !overlong_at(old(self).paths(), parent.id as int),
        ensures
            final(self).wf(),
            final(self).list == old(self).list,
            (r, final(self).paths()) == spec_index(old(self).paths(), row, column, parent),
    {
        if !parent.is_valid() {
            return ModelIndex::create(row, column, 0);
        }
        match self.paths.extend(parent.id, parent.row) {
            Some(ptr) => ModelIndex::create(row, column, ptr),
            None => ModelIndex::invalid(),
        }
    }

    /// The index of the parent of the item at `index`.
    pub fn parent(&self, index: ModelIndex) -> (r: ModelIndex)
        requires
            self.wf(),
            !overlong_at(self.paths(), index.id as int),
        ensures
            r == spec_parent_index(self.paths(), index),
    {
        match self.paths.parent(index.id) {
            Some((ptr, r)) => ModelIndex::create(r, 0, ptr),
            None => ModelIndex::invalid(),
        }
    }

    /// The number of rows under `parent`.
    pub fn row_count(&self, parent: ModelIndex) -> (r: i32)
        requires
            self.wf(),
            !overlong_at(self.paths(), parent.id as int),
        ensures
            r == spec_row_count(&self.list, self.paths(), parent),
    {
        let node = match self.container(parent.id) {
            Some(n) => n,
            None => return 0,
        };
        let node = if parent.is_valid() {
            node.child(parent.row as usize)
        } else {
            Some(node)
        };
        match node {
            Some(n) => n.child_count() as i32,
            None => 0,
        }
    }

    /// The number of columns: the number of column titles of the root.
    pub fn column_count(&self, parent: ModelIndex) -> (r: i32)
        ensures
            r == spec_columns(NodeRef::Model(&self.list)).len(),
            r == 3,
    {
        let titles = NodeRef::Model(&self.list).column_titles();
        assert(titles@.len() == titles@.map_values(|s: &'static str| s@).len());
        titles.len() as i32
    }

    /// The role values and names under which a view may ask for cells by name.
    pub fn role_names(&self) -> (r: Vec<(i32, String)>)
        ensures
            r@.len() == 2,
            r@[0].0 == 0x0101 && r@[0].1@ == "nodeLabel"@,
            r@[1].0 == 0x0102 && r@[1].1@ == "fieldLabel"@,
    {
        let mut m: Vec<(i32, String)> = Vec::new();
        m.push((ItemDataRole::NodeLabelRole.to_i32(), "nodeLabel".to_owned()));
        m.push((ItemDataRole::FieldLabelRole.to_i32(), "fieldLabel".to_owned()));
        m
    }

    /// The cell shown for `index` under the numeric role `role`.
    pub fn data(&self, index: ModelIndex, role: i32) -> (r: Cell)
        requires
            self.wf(),
            index.spec_is_valid() ==> !overlong_at(self.paths(), index.id as int),
        ensures
            r@ == spec_model_data(&self.list, self.paths(), index, role),
    {
        if !index.is_valid() {
            return Cell::Empty;
        }
        let node = match self.container(index.id) {
            Some(n) => n.child(index.row as usize),
            None => return Cell::Empty,
        };
        let node = match node {
            Some(n) => n,
            None => return Cell::Empty,
        };
        match ItemDataRole::from_i32_or_default(role) {
            ItemDataRole::EditRole | ItemDataRole::DisplayRole => node.data_cell(index.column),
            ItemDataRole::FieldLabelRole => node.field_cell(index.column),
            _ => Cell::Empty,
        }
    }
}


/// Walking a path one step longer reaches the child of where the path reaches.
proof fn lemma_walk_push<'a>(n: NodeRef<'a>, path: Seq<i32>, x: i32)
    ensures
        walk(n, path.push(x)) == (match walk(n, path) {
            Some(m) => spec_child(m, x as int),
            None => None,
        }),
{
    assert(path.push(x).drop_last() =~= path);
}

/// The node that an index under a valid `parent` stands for is the child at its row
/// of the node that `parent` stands for.
pub proof fn lemma_index_designates_child(
    list: &Model,
    v: Seq<i32>,
    row: i32,
    column: i32,
    parent: ModelIndex,
)
    requires
        cache_wf(v),
        !overlong_at(v, parent.id as int),
        v.len() <= usize::MAX,
        parent.spec_is_valid(),
        row >= 0,
        column >= 0,
    ensures
        ({
            let (i, w) = spec_index(v, row, column, parent);
            i.spec_is_valid() ==> spec_designated(list, w, i) == match spec_designated(
                list,
                v,
                parent,
            ) {
                Some(n) => spec_child(n, row as int),
                None => None,
            }
        }),
{
    let (i, w) = spec_index(v, row, column, parent);
    lemma_extend_reads_back(v, parent.id as int, parent.row);
    if i.spec_is_valid() {
        let p = spec_extend(v, parent.id as int, parent.row).0->0;
        lemma_extend_result_bounded(v, parent.id as int, parent.row);
        assert(i.id as int == p);
        lemma_walk_push(NodeRef::Model(list), path_at(v, parent.id as int)->0, parent.row);
    }
}

/// An index under the root stands for the child at its row of the root.
pub proof fn lemma_index_under_root(list: &Model, v: Seq<i32>, row: i32, column: i32, parent: ModelIndex)
    requires
        cache_wf(v),
        !parent.spec_is_valid(),
        row >= 0,
        column >= 0,
    ensures
        ({
            let (i, w) = spec_index(v, row, column, parent);
            &&& w == v
            &&& spec_designated(list, w, i) == spec_child(NodeRef::Model(list), row as int)
        }),
{
    lemma_root_path(v);
}

/// The parent of an index handed out under a valid `parent` stands for the same
/// node as `parent`, at `parent`'s row and in the first column.
pub proof fn lemma_parent_of_index(list: &Model, v: Seq<i32>, row: i32, column: i32, parent: ModelIndex)
    requires
        cache_wf(v),
        !overlong_at(v, parent.id as int),
        v.len() <= usize::MAX,
        parent.spec_is_valid(),
    ensures
        ({
            let (i, w) = spec_index(v, row, column, parent);
            let q = spec_parent_index(w, i);
            i != invalid_index() ==> {
                &&& q.row == parent.row
                &&& q.column == 0
                &&& spec_designated(list, w, q) == spec_designated(list, v, parent)
            }
        }),
{
    let (i, w) = spec_index(v, row, column, parent);
    let (r, w2) = spec_extend(v, parent.id as int, parent.row);
    if r is Some {
        lemma_parent_undoes_extend(v, parent.id as int, parent.row);
        lemma_extend_result_bounded(v, parent.id as int, parent.row);
        let (qq, t) = spec_parent(w, r->0)->0;
        assert(i.id as int == r->0);
    }
}

/// The parent of an index handed out under the root is the root: no item.
pub proof fn lemma_parent_of_top_index(v: Seq<i32>, row: i32, column: i32, parent: ModelIndex)
    requires
        cache_wf(v),
        !parent.spec_is_valid(),
    ensures
        spec_parent_index(spec_index(v, row, column, parent).1, spec_index(
            v,
            row,
            column,
            parent,
        ).0) == invalid_index(),
{
}

/// Handing out an index leaves every index handed out before standing for the same node.
pub proof fn lemma_index_keeps_others(
    list: &Model,
    v: Seq<i32>,
    row: i32,
    column: i32,
    parent: ModelIndex,
    other: ModelIndex,
)
    requires
        cache_wf(v),
        other.id < v.len(),
    ensures
        spec_designated(list, spec_index(v, row, column, parent).1, other) == spec_designated(
            list,
            v,
            other,
        ),
{
    if parent.spec_is_valid() {
        lemma_extend_keeps_paths(v, parent.id as int, parent.row, other.id as int);
    }
}

/// The rows under an index are exactly the rows that name a child of what it stands
/// for: the row count is that node's number of children.
pub proof fn lemma_row_count_counts_children(list: &Model, v: Seq<i32>, parent: ModelIndex)
    requires
        cache_wf(v),
        parent.spec_is_valid(),
    ensures
        spec_row_count(list, v, parent) == match spec_designated(list, v, parent) {
            Some(n) => spec_len(n) as i32,
            None => 0,
        },
{
}

/// Under the root, the rows are the packet sets of the model.
pub proof fn lemma_root_row_count(list: &Model, v: Seq<i32>)
    requires
        cache_wf(v),
    ensures
        spec_row_count(list, v, invalid_index()) == list.sets@.len() as i32,
{
    lemma_root_path(v);
}

/// Every id that `index` hands out is a record start; and where the cache recorded
/// no path twice and `parent` carries a record start, it still records none twice.
pub proof fn lemma_index_keeps_record_starts(v: Seq<i32>, row: i32, column: i32, parent: ModelIndex)
    requires
        cache_wf(v),
        v.len() <= usize::MAX,
        parent.spec_is_valid() ==> !overlong_at(v, parent.id as int),
    ensures
        ({
            let (i, w) = spec_index(v, row, column, parent);
            &&& is_record_start(w, i.id as int)
            &&& (records_unique(v) && (parent.spec_is_valid() ==> is_record_start(
                v,
                parent.id as int,
            ))) ==> records_unique(w)
        }),
{
    if parent.spec_is_valid() {
        let (r, w) = spec_extend(v, parent.id as int, parent.row);
        lemma_extend_answers_record_start(v, parent.id as int, parent.row);
        lemma_extend_result_bounded(v, parent.id as int, parent.row);
        if records_unique(v) && is_record_start(v, parent.id as int) {
            lemma_extend_keeps_unique(v, parent.id as int, parent.row);
        }
    }
}

/// Where the cache records no path twice, the parent of an index handed out under a
/// valid `parent` that carries a record start is `parent` itself, moved to the first
/// column: the same row and the same id.
pub proof fn lemma_parent_of_index_is_parent(v: Seq<i32>, row: i32, column: i32, parent: ModelIndex)
    requires
        cache_wf(v),
        records_unique(v),
        v.len() <= usize::MAX,
        parent.spec_is_valid(),
        is_record_start(v, parent.id as int),
        !overlong_at(v, parent.id as int),
    ensures
        ({
            let (i, w) = spec_index(v, row, column, parent);
            i != invalid_index() ==> spec_parent_index(w, i) == (ModelIndex {
                row: parent.row,
                column: 0,
                id: parent.id,
            })
        }),
{
    let (i, w) = spec_index(v, row, column, parent);
    let (r, w2) = spec_extend(v, parent.id as int, parent.row);
    if r is Some {
        lemma_parent_inverts_extend(v, parent.id as int, parent.row);
        lemma_extend_result_bounded(v, parent.id as int, parent.row);
        assert(i.id as int == r->0);
    }
}

/// The index that `index` answers carries the row and column asked for, whatever the
/// parent; under the root it carries the root path's id, 0.
pub proof fn lemma_index_keeps_row_and_column(v: Seq<i32>, row: i32, column: i32, parent: ModelIndex)
    ensures
        ({
            let i = spec_index(v, row, column, parent).0;
            &&& i != invalid_index() ==> i.row == row && i.column == column
            &&& !parent.spec_is_valid() ==> i.row == row && i.column == column && i.id == 0
        }),
{
}

/// A view that edits a cell is given what the cell displays: under the edit role the
/// model answers what it answers under the display role, for every index.
pub proof fn lemma_edit_shows_display(list: &Model, v: Seq<i32>, index: ModelIndex)
    ensures
        spec_model_data(list, v, index, 2) == spec_model_data(list, v, index, 0),
{
}

/// Under the display role, the cell of an index is the data cell of the node it stands
/// for in the index's own column, and the field-label role names that same column.
pub proof fn lemma_display_reads_own_column(list: &Model, v: Seq<i32>, index: ModelIndex, col: i32)
    requires
        spec_designated(list, v, index) is Some,
    ensures
        spec_model_data(list, v, index, 0) == spec_data(
            spec_designated(list, v, index)->0,
            index.column as int,
        ),
        spec_model_data(list, v, index, 0x0102) == spec_field(
            spec_designated(list, v, index)->0,
            index.column as int,
        ),
        spec_model_data(list, v, ModelIndex { column: col, ..index }, 0) == (if col >= 0 {
            spec_data(spec_designated(list, v, index)->0, col as int)
        } else {
            CellView::Empty
        }),
{
}

} // verus!
