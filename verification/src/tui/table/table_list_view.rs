use vstd::prelude::*;
use std::collections::hash_map::DefaultHasher;
use std::hash::Hasher;
use crate::text::{can_truncate, pad_spec, pad_to_width, truncate_bytes, truncate_bytes_spec};
use crate::tui::table::column_sizer::{ColumnSizer, count_dynamic, sum_user, user_size_seq};
use crate::tui::table::table_headers::TableHeaders;

verus! {

/// An item a table shows as one row of text fields.
pub trait TableListItem {
    /// The fields of the row, one per column.
    spec fn row_spec(&self) -> Seq<Seq<char>>;

    fn as_row(&self) -> (r: Vec<String>)
        ensures
            r@.map_values(|s: String| s@) == self.row_spec(),
    ;
}

/// One cell: the field cut to one byte less than the width, then padded to
/// the width.
pub open spec fn cell_spec(field: Seq<char>, width: int) -> Seq<char> {
    pad_spec(truncate_bytes_spec(field, width - 1), width)
}

/// The first `k` cells of a row, joined.
pub open spec fn row_prefix(sizer: ColumnSizer, fields: Seq<Seq<char>>, k: int) -> Seq<char>
    decreases k,
{
    if k <= 0 {
        Seq::empty()
    } else {
        row_prefix(sizer, fields, k - 1) + cell_spec(fields[k - 1], sizer.width_of(k - 1))
    }
}

/// How many fields of a row are shown: no more than there are columns.
pub open spec fn shown_fields(sizer: ColumnSizer, fields: Seq<Seq<char>>) -> int {
    if fields.len() < sizer.column_count() {
        fields.len() as int
    } else {
        sizer.column_count() as int
    }
}

/// The text a row is shown as.
pub open spec fn row_text(sizer: ColumnSizer, fields: Seq<Seq<char>>) -> Seq<char> {
    row_prefix(sizer, fields, shown_fields(sizer, fields))
}

/// Every shown field has a computable width and can be cut at it without
/// splitting a character.
pub open spec fn row_presentable(sizer: ColumnSizer, fields: Seq<Seq<char>>) -> bool {
    forall|i: int|
        0 <= i < shown_fields(sizer, fields) ==> #[trigger] sizer.width_fits(i) && can_truncate(
            fields[i],
            sizer.width_of(i) - 1,
        )
}

/// The text of a row: its fields, as many as there are columns, each cut
/// and padded to its column's width, joined.
pub fn present_row(column_sizer: &ColumnSizer, fields: &Vec<String>) -> (r: String)
    requires
        row_presentable(*column_sizer, fields@.map_values(|s: String| s@)),
    ensures
        r@ == row_text(*column_sizer, fields@.map_values(|s: String| s@)),
{
    let ghost fs = fields@.map_values(|s: String| s@);
    let n = column_sizer.num_columns();
    let shown = if fields.len() < n {
        fields.len()
    } else {
        n
    };
    let mut row = String::new();
    let mut i: usize = 0;
    while i < shown
        invariant
            fs == fields@.map_values(|s: String| s@),
            shown == shown_fields(*column_sizer, fs),
            shown <= fields@.len(),
            0 <= i <= shown,
            row_presentable(*column_sizer, fs),
            row@ == row_prefix(*column_sizer, fs, i as int),
        decreases shown - i,
    {
        assert(column_sizer.width_fits(i as int));
        let wfi = match column_sizer.width_for_index(i) {
            Ok(w) => w,
            Err(_) => 1,
        };
        assert(fs[i as int] == fields@[i as int]@);
        let truncated = truncate_bytes(fields[i].as_str(), wfi - 1);
        let cell = pad_to_width(truncated, wfi);
        row.append(cell.as_str());
        i = i + 1;
    }
    row
}

/// `Hash::hash` of the rows, fed into a hasher. Nothing is stated of what
/// it writes: the hash only tells a changed table from an unchanged one.
#[verifier::external_body]
fn hash_rows<T: std::hash::Hash>(rows: &Vec<(String, T)>, state: &mut DefaultHasher) {
    std::hash::Hash::hash(rows, state)
}

/// A table on top of a list of rows: a column sizer divides the width into
/// columns, and the hash of the last rows shown tells whether new rows
/// change anything.
pub struct TableListView {
    column_sizer: ColumnSizer,
    headers: TableHeaders,
    last_hash: u64,
}

impl TableListView {
    /// The column sizer.
    pub closed spec fn sizer(self) -> ColumnSizer {
        self.column_sizer
    }

    /// The hash of the rows shown last.
    pub closed spec fn spec_last_hash(self) -> u64 {
        self.last_hash
    }

    /// The column names.
    pub closed spec fn header_names(self) -> Seq<Seq<char>> {
        self.headers.names()
    }

    /// A table with these columns: names and optional user widths.
    pub fn new(columns: &Vec<(String, Option<usize>)>) -> (r: Self)
        requires
            sum_user(user_size_seq(columns@)) <= usize::MAX,
        ensures
            r.sizer().sizes() == user_size_seq(columns@),
            r.sizer().dynamic_size() == 0,
            r.sizer().spec_padding() == 1,
            r.spec_last_hash() == 0,
            r.header_names() == columns@.map_values(|c: (String, Option<usize>)| c.0@),
    {
        let mut names: Vec<String> = Vec::new();
        let mut i: usize = 0;
        while i < columns.len()
            invariant
                0 <= i <= columns@.len(),
                names@.len() == i,
                forall|j: int| 0 <= j < i ==> #[trigger] names@[j]@ == columns@[j].0@,
            decreases columns@.len() - i,
        {
            names.push(columns[i].0.clone());
            i = i + 1;
        }
        assert(names@.map_values(|c: String| c@) =~= columns@.map_values(
            |c: (String, Option<usize>)| c.0@,
        ));
        let column_sizer = ColumnSizer::new(columns);
        TableListView { column_sizer, headers: TableHeaders::new(names), last_hash: 0 }
    }

    /// The column sizer, to size the rows drawn.
    pub fn column_sizer(&self) -> (r: &ColumnSizer)
        ensures
            *r == self.sizer(),
    {
        &self.column_sizer
    }

    /// Resize the columns to a new width.
    pub fn layout(&mut self, x: usize)
        requires
            count_dynamic(old(self).sizer().sizes()) > 0,
        ensures
            final(self).sizer().sizes() == old(self).sizer().sizes(),
            final(self).sizer().dynamic_size() == crate::tui::table::column_sizer::next_dynamic_size(
                old(self).sizer().sizes(),
                old(self).sizer().spec_padding() as int,
                x as int,
            ),
            final(self).sizer().spec_padding() == crate::tui::table::column_sizer::next_padding(
                old(self).sizer().sizes(),
                old(self).sizer().spec_padding() as int,
                x as int,
            ),
            forall|i: int| #[trigger] final(self).sizer().width_fits(i),
            final(self).spec_last_hash() == old(self).spec_last_hash(),
            final(self).header_names() == old(self).header_names(),
    {
        let _ = self.column_sizer.update_x(x);
    }

    /// The header line of the table.
    pub fn header_text(&self) -> (r: String)
        requires
            forall|i: int| 0 <= i < self.header_names().len() ==> self.sizer().width_fits(i),
        ensures
            r@ == crate::tui::table::table_headers::header_prefix(
                self.sizer(),
                self.header_names(),
                self.header_names().len() as int,
            ),
    {
        assert(self.header_names() == self.headers.names());
        assert forall|i: int| 0 <= i < self.headers.names().len() implies self.column_sizer.width_fits(i) by {
            assert(self.sizer().width_fits(i));
        }
        self.headers.header_text(&self.column_sizer)
    }

    /// Record the hash of rows about to be shown: whether they differ from
    /// the rows shown last.
    pub fn should_refresh(&mut self, hash: u64) -> (r: bool)
        ensures
            r == (hash != old(self).spec_last_hash()),
            final(self).spec_last_hash() == hash,
            final(self).sizer() == old(self).sizer(),
            final(self).header_names() == old(self).header_names(),
    {
        if self.last_hash == hash {
            false
        } else {
            self.last_hash = hash;
            true
        }
    }

    /// The rows to show for the items, each with its text; `None` when
    /// they hash as the rows shown last, so the list is left as it is.
    pub fn replace_and_preserve_selection<T: TableListItem + std::hash::Hash>(
        &mut self,
        items: Vec<T>,
    ) -> (r: Option<Vec<(String, T)>>)
        requires
            forall|k: int|
                0 <= k < items@.len() ==> row_presentable(
                    old(self).sizer(),
                    #[trigger] items@[k].row_spec(),
                ),
        ensures
            final(self).sizer() == old(self).sizer(),
            final(self).header_names() == old(self).header_names(),
            r is None ==> final(self).spec_last_hash() == old(self).spec_last_hash(),
            r is Some ==> final(self).spec_last_hash() != old(self).spec_last_hash(),
            r matches Some(rows) ==> {
                &&& rows@.len() == items@.len()
                &&& forall|k: int|
                    0 <= k < rows@.len() ==> #[trigger] rows@[k].0@ == row_text(
                        old(self).sizer(),
                        items@[k].row_spec(),
                    ) && rows@[k].1 == items@[k]
            },
    {
        let ghost all = items@;
        let mut items = items;
        let mut rows: Vec<(String, T)> = Vec::new();
        while items.len() > 0
            invariant
                rows@.len() + items@.len() == all.len(),
                items@ == all.skip(rows@.len() as int),
                forall|k: int| 0 <= k < all.len() ==> row_presentable(
                    self.sizer(),
                    #[trigger] all[k].row_spec(),
                ),
                forall|k: int|
                    0 <= k < rows@.len() ==> #[trigger] rows@[k].0@ == row_text(
                        self.sizer(),
                        all[k].row_spec(),
                    ) && rows@[k].1 == all[k],
            decreases items@.len(),
        {
            let item = items.remove(0);
            let ghost k = rows@.len() as int;
            assert(all[k] == item);
            let fields = item.as_row();
            let text = present_row(&self.column_sizer, &fields);
            rows.push((text, item));
            assert(items@ =~= all.skip(rows@.len() as int));
        }
        let mut row_hasher = DefaultHasher::new();
        hash_rows(&rows, &mut row_hasher);
        let hash = row_hasher.finish();
        if self.should_refresh(hash) {
            Some(rows)
        } else {
            None
        }
    }
}

} // verus!
