//! The columnar table that the filters read.

use crate::model::rectangular;
use vstd::prelude::*;

verus! {

/// The columns of a table as sequences of codes.
pub open spec fn columns_of(data: Seq<Vec<i32>>) -> Seq<Seq<i32>> {
    Seq::new(data.len(), |c: int| data[c]@)
}

/// Why a list of columns was refused as a table: column `column` has `found`
/// entries where the table was declared with `expected` rows.
#[derive(Debug, Clone, Copy, PartialEq, Eq, Structural)]
pub struct ShapeError {
    pub column: usize,
    pub expected: usize,
    pub found: usize,
}

/// A table of categorical codes in columnar layout.
///
/// Every column has exactly as many entries as the table has rows. The
/// fields are private, so a value of this type cannot be built or changed
/// in a way that breaks this.
#[derive(Debug)]
pub struct DataFrame {
    data: Vec<Vec<i32>>,
    nrow: usize,
}

impl View for DataFrame {
    type V = Seq<Seq<i32>>;

    /// The columns, in order.
    closed spec fn view(&self) -> Seq<Seq<i32>> {
        columns_of(self.data@)
    }
}

impl DataFrame {
    #[verifier::type_invariant]
    spec fn well_formed(&self) -> bool {
        rectangular(self@, self.nrow as nat)
    }

    /// The number of rows.
    pub closed spec fn rows(&self) -> nat {
        self.nrow as nat
    }

    /// Builds a table of `nrow` rows from `data`, or refuses `data` and
    /// names its first column whose length is not `nrow`.
    pub fn new(data: Vec<Vec<i32>>, nrow: usize) -> (result: Result<DataFrame, ShapeError>)
        ensures
            result is Ok <==> rectangular(columns_of(data@), nrow as nat),
            result matches Ok(df) ==> df@ == columns_of(data@) && df.rows() == nrow,
            result matches Err(e) ==> {
                &&& e.column < data.len()
                &&& e.expected == nrow
                &&& e.found == data[e.column as int].len()
                &&& e.found != nrow
                &&& forall|c: int| 0 <= c < e.column ==> (#[trigger] data[c]).len() == nrow
            },
    {
        let mut c: usize = 0;
        while c < data.len()
            invariant
                c <= data.len(),
                forall|k: int| 0 <= k < c ==> (#[trigger] data[k]).len() == nrow,
            decreases data.len() - c,
        {
            let found = data[c].len();
            if found != nrow {
                assert(columns_of(data@)[c as int].len() != nrow);
                return Err(ShapeError { column: c, expected: nrow, found });
            }
            c += 1;
        }
        assert forall|k: int| 0 <= k < columns_of(data@).len() implies (#[trigger] columns_of(
            data@,
        )[k]).len() == nrow by {
            assert(data[k].len() == nrow);
        }
        Ok(DataFrame { data, nrow })
    }

    /// The number of rows. Every column has this length.
    pub fn nrow(&self) -> (n: usize)
        ensures
            n == self.rows(),
            rectangular(self@, self.rows()),
    {
        proof {
            use_type_invariant(self);
        }
        self.nrow
    }

    /// The number of columns.
    pub fn ncol(&self) -> (n: usize)
        ensures
            n == self@.len(),
    {
        self.data.len()
    }

    /// Column `c`.
    pub fn column(&self, c: usize) -> (column: &Vec<i32>)
        requires
            c < self@.len(),
        ensures
            column@ == self@[c as int],
            column@.len() == self.rows(),
    {
        proof {
            use_type_invariant(self);
        }
        &self.data[c]
    }
}

} // verus!
