use vstd::prelude::*;
use crate::text::{pad_spec, pad_to_width};
use crate::tui::table::column_sizer::ColumnSizer;

verus! {

/// The header line: each column name padded to its column's width.
pub open spec fn header_prefix(sizer: ColumnSizer, names: Seq<Seq<char>>, k: int) -> Seq<char>
    decreases k,
{
    if k <= 0 {
        Seq::empty()
    } else {
        header_prefix(sizer, names, k - 1) + pad_spec(names[k - 1], sizer.width_of(k - 1))
    }
}

/// The names of the columns of a table, drawn above its rows.
pub struct TableHeaders {
    columns: Vec<String>,
}

impl TableHeaders {
    /// The column names, in order.
    pub closed spec fn names(self) -> Seq<Seq<char>> {
        self.columns@.map_values(|c: String| c@)
    }

    pub fn new(columns: Vec<String>) -> (r: Self)
        ensures
            r.names() == columns@.map_values(|c: String| c@),
    {
        TableHeaders { columns }
    }

    /// The text of the header line: each name padded to its column's width.
    pub fn header_text(&self, column_sizer: &ColumnSizer) -> (r: String)
        requires
            forall|i: int| 0 <= i < self.names().len() ==> column_sizer.width_fits(i),
        ensures
            r@ == header_prefix(*column_sizer, self.names(), self.names().len() as int),
    {
        let mut headers = String::new();
        let mut i: usize = 0;
        while i < self.columns.len()
            invariant
                0 <= i <= self.columns@.len(),
                forall|j: int| 0 <= j < self.names().len() ==> column_sizer.width_fits(j),
                headers@ == header_prefix(*column_sizer, self.names(), i as int),
            decreases self.columns@.len() - i,
        {
            let w = match column_sizer.width_for_index(i) {
                Ok(w) => w,
                Err(_) => 1,
            };
            let cell = pad_to_width(self.columns[i].clone(), w);
            headers.append(cell.as_str());
            i = i + 1;
        }
        headers
    }
}

} // verus!
