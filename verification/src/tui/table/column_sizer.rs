use vstd::prelude::*;

verus! {

/// The largest width a column without a user size gets.
pub const MAX_DYNAMIC_COLUMN_SIZE: usize = 32;

/// Sum of the user sizes among the columns.
pub open spec fn sum_user(s: Seq<Option<usize>>) -> nat
    decreases s.len(),
{
    if s.len() == 0 {
        0
    } else {
        sum_user(s.drop_last()) + match s.last() {
            Some(u) => u as nat,
            None => 0,
        }
    }
}

/// Number of columns without a user size.
pub open spec fn count_dynamic(s: Seq<Option<usize>>) -> nat
    decreases s.len(),
{
    if s.len() == 0 {
        0
    } else {
        count_dynamic(s.drop_last()) + if s.last() is None {
            1nat
        } else {
            0nat
        }
    }
}

/// Width of one column before the minimum of 1 is applied: a user sized
/// column gets its size plus the padding, any other column the dynamic size.
pub open spec fn raw_width(o: Option<usize>, dynamic: int, padding: int) -> int {
    match o {
        Some(u) => u + padding,
        None => dynamic,
    }
}

/// Sum of the widths of the columns before the minimum of 1 is applied.
pub open spec fn sum_raw(s: Seq<Option<usize>>, dynamic: int, padding: int) -> int
    decreases s.len(),
{
    if s.len() == 0 {
        0
    } else {
        sum_raw(s.drop_last(), dynamic, padding) + raw_width(s.last(), dynamic, padding)
    }
}

/// The user sizes of the column descriptions, in column order.
pub open spec fn user_size_seq(columns: Seq<(String, Option<usize>)>) -> Seq<Option<usize>> {
    columns.map_values(|c: (String, Option<usize>)| c.1)
}

proof fn lemma_sum_user_prefix(s: Seq<Option<usize>>, i: int)
    requires
        0 <= i <= s.len(),
    ensures
        sum_user(s.take(i)) <= sum_user(s),
        count_dynamic(s.take(i)) <= count_dynamic(s),
    decreases s.len() - i,
{
    if i < s.len() {
        lemma_sum_user_prefix(s, i + 1);
        assert(s.take(i + 1).drop_last() =~= s.take(i));
    } else {
        assert(s.take(i) =~= s);
    }
}

proof fn lemma_sum_user_element(s: Seq<Option<usize>>, i: int)
    requires
        0 <= i < s.len(),
        s[i] is Some,
    ensures
        s[i].unwrap() <= sum_user(s),
    decreases s.len(),
{
    if i < s.len() - 1 {
        lemma_sum_user_element(s.drop_last(), i);
    }
}

proof fn lemma_count_dynamic_le_len(s: Seq<Option<usize>>)
    ensures
        count_dynamic(s) <= s.len(),
    decreases s.len(),
{
    if s.len() > 0 {
        lemma_count_dynamic_le_len(s.drop_last());
    }
}

proof fn lemma_sum_raw(s: Seq<Option<usize>>, dynamic: int, padding: int)
    ensures
        sum_raw(s, dynamic, padding) == sum_user(s) + (s.len() - count_dynamic(s)) * padding
            + count_dynamic(s) * dynamic,
    decreases s.len(),
{
    if s.len() > 0 {
        lemma_sum_raw(s.drop_last(), dynamic, padding);
        let n = s.len() - 1;
        let c = count_dynamic(s.drop_last()) as int;
        let su = sum_user(s.drop_last()) as int;
        assert(sum_raw(s.drop_last(), dynamic, padding) == su + (n - c) * padding + c * dynamic);
        match s.last() {
            Some(u) => {
                assert(count_dynamic(s) == c);
                assert(sum_user(s) == su + u);
                assert((n + 1 - c) * padding == (n - c) * padding + padding) by (nonlinear_arith);
                assert(sum_raw(s, dynamic, padding) == sum_raw(s.drop_last(), dynamic, padding) + u
                    + padding);
                assert(s.len() - count_dynamic(s) == n + 1 - c);
            },
            None => {
                assert(count_dynamic(s) == c + 1);
                assert(sum_user(s) == su);
                assert((c + 1) * dynamic == c * dynamic + dynamic) by (nonlinear_arith);
                assert(sum_raw(s, dynamic, padding) == sum_raw(s.drop_last(), dynamic, padding)
                    + dynamic);
                assert(s.len() - count_dynamic(s) == n - c);
            },
        }
    } else {
        assert(0 * padding == 0 && 0 * dynamic == 0) by (nonlinear_arith);
    }
}

/// The user size of column `i`, if it has one; columns past the last have none.
pub open spec fn size_at(s: Seq<Option<usize>>, i: int) -> Option<usize> {
    if 0 <= i < s.len() {
        s[i]
    } else {
        None
    }
}

/// `a - b`, or 0 where `b` is larger.
pub open spec fn sat_sub(a: int, b: int) -> int {
    if a >= b {
        a - b
    } else {
        0
    }
}

/// The dynamic column size that `update_x(x)` computes: an even split, capped
/// at `MAX_DYNAMIC_COLUMN_SIZE`, of what remains of `x` once the padding
/// between columns and the user sized columns are taken off.
pub open spec fn next_dynamic_size(sizes: Seq<Option<usize>>, padding: int, x: int) -> int {
    let padding_used = (sizes.len() - 1) * padding;
    let remaining_dynamic = sat_sub(sat_sub(x, padding_used), sum_user(sizes) as int);
    let even = remaining_dynamic / (count_dynamic(sizes) as int);
    if even < MAX_DYNAMIC_COLUMN_SIZE {
        even
    } else {
        MAX_DYNAMIC_COLUMN_SIZE as int
    }
}

/// The padding that `update_x(x)` computes: an even split over all columns
/// of what remains of `x` once the dynamic and the user sized columns are
/// taken off.
pub open spec fn next_padding(sizes: Seq<Option<usize>>, padding: int, x: int) -> int {
    let d = next_dynamic_size(sizes, padding, x);
    let remaining = sat_sub(sat_sub(x, count_dynamic(sizes) * d), sum_user(sizes) as int);
    remaining / (sizes.len() as int)
}

proof fn lemma_div_mul_le(a: int, n: int)
    requires
        a >= 0,
        n > 0,
    ensures
        n * (a / n) <= a,
        (n - 1) * (a / n) <= a,
        a / n <= a,
        0 <= a / n,
{
    assert(n * (a / n) <= a && (n - 1) * (a / n) <= a && a / n <= a && 0 <= a / n)
        by (nonlinear_arith)
        requires
            a >= 0,
            n > 0,
    ;
}

proof fn lemma_mul_le(n: int, d: int, e: int)
    requires
        n > 0,
        0 <= d <= e,
    ensures
        n * d <= n * e,
{
    assert(n * d <= n * e) by (nonlinear_arith)
        requires
            n > 0,
            0 <= d <= e,
    ;
}

/// Width oriented column sizing utility.
pub struct ColumnSizer {
    /// Non user defined columns are an even split of space remaining from
    /// x - user_sizes_total.
    dynamic_column_size: usize,
    padding: usize,
    /// Column index -> user width, if the column has one.
    user_sizes: Vec<Option<usize>>,
    num_columns: usize,
    num_dynamic_columns: usize,
    /// Sum of user size widths.
    user_sizes_total: usize,
}

/// Errors of a column sizer.
#[derive(Debug)]
pub enum ColumnSizerError {
    UpdateError,
    ReadError,
}

impl ColumnSizer {
    #[verifier::type_invariant]
    spec fn inv(self) -> bool {
        &&& self.user_sizes@.len() == self.num_columns
        &&& self.num_dynamic_columns == count_dynamic(self.user_sizes@)
        &&& self.user_sizes_total == sum_user(self.user_sizes@)
        &&& self.num_columns >= 1 ==> (self.num_columns - 1) * self.padding <= usize::MAX
    }

    /// User size of each column, in column order.
    pub closed spec fn sizes(self) -> Seq<Option<usize>> {
        self.user_sizes@
    }

    /// Width of the columns without a user size.
    pub closed spec fn dynamic_size(self) -> usize {
        self.dynamic_column_size
    }

    /// Padding added to every user sized column.
    pub closed spec fn spec_padding(self) -> usize {
        self.padding
    }

    /// Number of columns.
    pub open spec fn column_count(self) -> nat {
        self.sizes().len()
    }

    /// The user size of column `i`, if it has one; columns past the last
    /// have none.
    pub open spec fn user_size(self, i: int) -> Option<usize> {
        size_at(self.sizes(), i)
    }

    /// Width of column `i` before the minimum of 1 is applied.
    pub open spec fn raw_width_of(self, i: int) -> int {
        raw_width(self.user_size(i), self.dynamic_size() as int, self.spec_padding() as int)
    }

    /// Width of column `i`: at least 1.
    pub open spec fn width_of(self, i: int) -> int {
        if self.raw_width_of(i) > 1 {
            self.raw_width_of(i)
        } else {
            1
        }
    }

    /// The width of column `i` can be computed without overflow.
    pub open spec fn width_fits(self, i: int) -> bool {
        self.raw_width_of(i) <= usize::MAX
    }

    /// Number of columns.
    pub fn num_columns(&self) -> (r: usize)
        ensures
            r == self.column_count(),
    {
        proof {
            use_type_invariant(self);
        }
        self.num_columns
    }

    /// Create a new ColumnSizer from column names and optional user widths.
    pub fn new(columns: &Vec<(String, Option<usize>)>) -> (r: Self)
        requires
            sum_user(user_size_seq(columns@)) <= usize::MAX,
        ensures
            r.sizes() == user_size_seq(columns@),
            r.dynamic_size() == 0,
            r.spec_padding() == 1,
    {
        let ghost all = user_size_seq(columns@);
        let mut user_sizes: Vec<Option<usize>> = Vec::new();
        let mut total: usize = 0;
        let mut dynamic: usize = 0;
        let mut i: usize = 0;
        while i < columns.len()
            invariant
                0 <= i <= columns.len(),
                all == user_size_seq(columns@),
                sum_user(all) <= usize::MAX,
                user_sizes@ == all.take(i as int),
                total == sum_user(all.take(i as int)),
                dynamic == count_dynamic(all.take(i as int)),
                dynamic <= i,
            decreases columns.len() - i,
        {
            proof {
                lemma_sum_user_prefix(all, i + 1);
                assert(all.take(i + 1).drop_last() =~= all.take(i as int));
                lemma_count_dynamic_le_len(all.take(i + 1));
            }
            let user_len = columns[i].1;
            match user_len {
                Some(u) => {
                    total = total + u;
                },
                None => {
                    dynamic = dynamic + 1;
                },
            }
            user_sizes.push(user_len);
            i = i + 1;
        }
        proof {
            assert(all.take(i as int) =~= all);
        }
        proof {
            assert((i - 1) * 1 == i - 1);
        }
        ColumnSizer {
            dynamic_column_size: 0,
            padding: 1,
            user_sizes,
            num_columns: i,
            num_dynamic_columns: dynamic,
            user_sizes_total: total,
        }
    }

    /// Get the width for a column by index.
    pub fn width_for_index(&self, i: usize) -> (r: Result<usize, ColumnSizerError>)
        requires
            self.width_fits(i as int),
        ensures
            r matches Ok(w) && w == self.width_of(i as int),
    {
        proof {
            use_type_invariant(self);
        }
        let size = if i < self.user_sizes.len() {
            match self.user_sizes[i] {
                // Only user defined columns get padding: their size is what
                // the text needs, the rest of the space is divided blindly.
                Some(u) => u + self.padding,
                None => self.dynamic_column_size,
            }
        } else {
            self.dynamic_column_size
        };
        let final_size = if size > 1 {
            size
        } else {
            1
        };
        Ok(final_size)
    }

    /// Call when x changes to recompute dynamic_column_size and padding.
    pub fn update_x(&mut self, x: usize) -> (r: Result<(), ColumnSizerError>)
        requires
            count_dynamic(old(self).sizes()) > 0,
        ensures
            r is Ok,
            final(self).sizes() == old(self).sizes(),
            final(self).dynamic_size() == next_dynamic_size(
                old(self).sizes(),
                old(self).spec_padding() as int,
                x as int,
            ),
            final(self).spec_padding() == next_padding(
                old(self).sizes(),
                old(self).spec_padding() as int,
                x as int,
            ),
            forall|i: int| #[trigger] final(self).width_fits(i),
    {
        proof {
            use_type_invariant(&*self);
            lemma_count_dynamic_le_len(self.user_sizes@);
        }
        let ghost sizes = self.user_sizes@;
        let n = self.num_columns;
        let nd = self.num_dynamic_columns;
        let total = self.user_sizes_total;
        let current_padding = self.padding;
        let padding_used = (n - 1) * current_padding;
        let remaining_dynamic = x.saturating_sub(padding_used).saturating_sub(total);
        let even = remaining_dynamic / nd;
        let new_dynamic_column_size = if even < MAX_DYNAMIC_COLUMN_SIZE {
            even
        } else {
            MAX_DYNAMIC_COLUMN_SIZE
        };
        proof {
            lemma_div_mul_le(remaining_dynamic as int, nd as int);
            lemma_mul_le(nd as int, new_dynamic_column_size as int, even as int);
        }
        let dynamic_used = nd * new_dynamic_column_size;
        let remaining = x.saturating_sub(dynamic_used).saturating_sub(total);
        let new_padding = remaining / n;
        proof {
            lemma_div_mul_le(remaining as int, n as int);
            assert forall|i: int| #[trigger] raw_width(
                size_at(sizes, i),
                new_dynamic_column_size as int,
                new_padding as int,
            ) <= usize::MAX by {
                if 0 <= i < sizes.len() && sizes[i] is Some {
                    lemma_sum_user_element(sizes, i);
                }
            }
        }
        self.dynamic_column_size = new_dynamic_column_size;
        self.padding = new_padding;
        Ok(())
    }
}

/// After `update_x(x)` every column keeps a width that can be computed, the
/// dynamic columns get at most `MAX_DYNAMIC_COLUMN_SIZE`, and when `x` is at
/// least the sum of the user sizes, the columns (before the minimum of 1)
/// take no more than `x`.
pub proof fn law_update_x_fits(sizes: Seq<Option<usize>>, padding: int, x: int)
    requires
        count_dynamic(sizes) > 0,
        padding >= 0,
        x >= 0,
        sum_user(sizes) <= x,
    ensures
        0 <= next_dynamic_size(sizes, padding, x) <= MAX_DYNAMIC_COLUMN_SIZE,
        0 <= next_padding(sizes, padding, x),
        sum_raw(sizes, next_dynamic_size(sizes, padding, x), next_padding(sizes, padding, x)) <= x,
{
    lemma_count_dynamic_le_len(sizes);
    let n = sizes.len() as int;
    let nd = count_dynamic(sizes) as int;
    let total = sum_user(sizes) as int;
    let padding_used = (n - 1) * padding;
    assert(padding_used >= 0) by (nonlinear_arith)
        requires
            n >= 1,
            padding >= 0,
            padding_used == (n - 1) * padding,
    ;
    let rd = sat_sub(sat_sub(x, padding_used), total);
    let even = rd / nd;
    lemma_div_mul_le(rd, nd);
    let d = next_dynamic_size(sizes, padding, x);
    lemma_mul_le(nd, d, even);
    let remaining = sat_sub(sat_sub(x, nd * d), total);
    let p = next_padding(sizes, padding, x);
    lemma_div_mul_le(remaining, n);
    lemma_sum_raw(sizes, d, p);
    assert(nd * d <= x - total);
    assert((n - nd) * p <= n * p) by (nonlinear_arith)
        requires
            0 <= nd,
            p >= 0,
    ;
}

} // verus!
