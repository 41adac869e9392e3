use vstd::prelude::*;
use crate::text::{can_truncate, pad_spec, pad_to_width, truncate_bytes, truncate_bytes_spec};
pub use crate::tui::table::table_list_view::TableListItem;

verus! {

/// One cell of an evenly divided table: the field cut to one byte less than
/// the width, then padded to the width.
pub open spec fn even_cell(field: Seq<char>, width: int) -> Seq<char> {
    pad_spec(truncate_bytes_spec(field, width - 1), width)
}

/// The first `k` cells of a row of an evenly divided table, joined.
pub open spec fn even_row_prefix(width: int, fields: Seq<Seq<char>>, k: int) -> Seq<char>
    decreases k,
{
    if k <= 0 {
        Seq::empty()
    } else {
        even_row_prefix(width, fields, k - 1) + even_cell(fields[k - 1], width)
    }
}

/// How many fields of a row are shown: no more than there are columns.
pub open spec fn even_shown(columns: int, fields: Seq<Seq<char>>) -> int {
    if fields.len() < columns {
        fields.len() as int
    } else {
        columns
    }
}

/// Every shown field can be cut to one byte less than the width, which is
/// then at least 1, without splitting a character.
pub open spec fn even_row_presentable(width: int, columns: int, fields: Seq<Seq<char>>) -> bool {
    forall|i: int| 0 <= i < even_shown(columns, fields) ==> width >= 1 && can_truncate(
        #[trigger] fields[i],
        width - 1,
    )
}

/// A table that divides the width it was last laid out with evenly between
/// its columns.
pub struct TableListView {
    columns: Vec<String>,
    last_layout_x: usize,
}

impl TableListView {
    /// The column names.
    pub closed spec fn names(self) -> Seq<Seq<char>> {
        self.columns@.map_values(|c: String| c@)
    }

    /// The width last laid out with.
    pub closed spec fn layout_x(self) -> usize {
        self.last_layout_x
    }

    /// The width of every column.
    pub open spec fn spec_column_width(self) -> int {
        self.layout_x() as int / self.names().len() as int
    }

    pub fn new(columns: Vec<String>) -> (r: Self)
        ensures
            r.names() == columns@.map_values(|c: String| c@),
            r.layout_x() == 0,
    {
        TableListView { columns, last_layout_x: 0 }
    }

    /// Record the width the table is laid out with.
    pub fn layout(&mut self, x: usize)
        ensures
            final(self).layout_x() == x,
            final(self).names() == old(self).names(),
    {
        self.last_layout_x = x;
    }

    /// The width of every column: an even split of the width.
    pub fn column_width(&self) -> (r: usize)
        requires
            self.names().len() > 0,
        ensures
            r == self.spec_column_width(),
    {
        self.last_layout_x / self.columns.len()
    }

    /// The text of a row: its fields, as many as there are columns, each cut
    /// and padded to the column width, joined.
    pub fn present_row(&self, fields: &Vec<String>) -> (r: String)
        requires
            self.names().len() > 0,
            even_row_presentable(
                self.spec_column_width(),
                self.names().len() as int,
                fields@.map_values(|s: String| s@),
            ),
        ensures
            r@ == even_row_prefix(
                self.spec_column_width(),
                fields@.map_values(|s: String| s@),
                even_shown(self.names().len() as int, fields@.map_values(|s: String| s@)),
            ),
    {
        let ghost fs = fields@.map_values(|s: String| s@);
        let width = self.column_width();
        let shown = if fields.len() < self.columns.len() {
            fields.len()
        } else {
            self.columns.len()
        };
        let mut row = String::new();
        let mut i: usize = 0;
        while i < shown
            invariant
                fs == fields@.map_values(|s: String| s@),
                shown == even_shown(self.names().len() as int, fs),
                shown <= fields@.len(),
                0 <= i <= shown,
                width == self.spec_column_width(),
                even_row_presentable(width as int, self.names().len() as int, fs),
                row@ == even_row_prefix(width as int, fs, i as int),
            decreases shown - i,
        {
            assert(fs[i as int] == fields@[i as int]@);
            let truncated = truncate_bytes(fields[i].as_str(), width - 1);
            let cell = pad_to_width(truncated, width);
            row.append(cell.as_str());
            i = i + 1;
        }
        row
    }

    /// The rows to show for the items: each item with the text of its row.
    pub fn replace_and_preserve_selection<T: TableListItem>(&self, items: Vec<T>) -> (r: Vec<
        (String, T),
    >)
        requires
            self.names().len() > 0,
            forall|k: int|
                0 <= k < items@.len() ==> even_row_presentable(
                    self.spec_column_width(),
                    self.names().len() as int,
                    #[trigger] items@[k].row_spec(),
                ),
        ensures
            r@.len() == items@.len(),
            forall|k: int|
                0 <= k < r@.len() ==> #[trigger] r@[k].0@ == even_row_prefix(
                    self.spec_column_width(),
                    items@[k].row_spec(),
                    even_shown(self.names().len() as int, items@[k].row_spec()),
                ) && r@[k].1 == items@[k],
    {
        let ghost all = items@;
        let mut items = items;
        let mut rows: Vec<(String, T)> = Vec::new();
        while items.len() > 0
            invariant
                self.names().len() > 0,
                rows@.len() + items@.len() == all.len(),
                items@ == all.skip(rows@.len() as int),
                forall|k: int|
                    0 <= k < all.len() ==> even_row_presentable(
                        self.spec_column_width(),
                        self.names().len() as int,
                        #[trigger] all[k].row_spec(),
                    ),
                forall|k: int|
                    0 <= k < rows@.len() ==> #[trigger] rows@[k].0@ == even_row_prefix(
                        self.spec_column_width(),
                        all[k].row_spec(),
                        even_shown(self.names().len() as int, all[k].row_spec()),
                    ) && rows@[k].1 == all[k],
            decreases items@.len(),
        {
            let item = items.remove(0);
            let ghost k = rows@.len() as int;
            assert(all[k] == item);
            let fields = item.as_row();
            let text = self.present_row(&fields);
            rows.push((text, item));
            assert(items@ =~= all.skip(rows@.len() as int));
        }
        rows
    }

    /// The header line: each column name cut and padded to the column width.
    pub fn header_text(&self) -> (r: String)
        requires
            self.names().len() > 0,
            even_row_presentable(self.spec_column_width(), self.names().len() as int, self.names()),
        ensures
            r@ == even_row_prefix(self.spec_column_width(), self.names(), self.names().len() as int),
    {
        self.present_row(&self.columns)
    }
}

} // verus!
