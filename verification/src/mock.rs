//! A sample domain of four animals and a sample table over it.

use crate::frame::DataFrame;
use vstd::prelude::*;

verus! {

/// The sample domain. Its codes are sparse: no animal has the code 2.
#[derive(Debug, Clone, Copy, PartialEq, Eq, Structural)]
pub enum Animal {
    Cow,
    Dog,
    Cat,
    Bat,
}

impl Animal {
    /// The categorical code of an animal.
    pub open spec fn spec_code(self) -> i32 {
        match self {
            Animal::Cow => 0i32,
            Animal::Dog => 1i32,
            Animal::Cat => 3i32,
            Animal::Bat => 4i32,
        }
    }

    /// The categorical code of an animal.
    #[verifier::when_used_as_spec(spec_code)]
    pub fn code(self) -> (code: i32)
        ensures
            code == self.spec_code(),
    {
        match self {
            Animal::Cow => 0,
            Animal::Dog => 1,
            Animal::Cat => 3,
            Animal::Bat => 4,
        }
    }
}

/// How often the sample table repeats its four-row pattern.
pub const MOCK_REPEATS: usize = 100_000;

/// The number of rows of the sample table.
pub const MOCK_ROWS: usize = 400_000;

/// The codes of a pattern of four animals, repeated `times` times.
pub open spec fn repeated(pattern: [Animal; 4], times: nat) -> Seq<i32> {
    Seq::new(4 * times, |row: int| pattern[row % 4].spec_code())
}

/// The columns of the sample table.
pub open spec fn mock_columns() -> Seq<Seq<i32>> {
    seq![
        repeated([Animal::Cow, Animal::Dog, Animal::Cat, Animal::Bat], MOCK_REPEATS as nat),
        repeated([Animal::Dog, Animal::Dog, Animal::Dog, Animal::Bat], MOCK_REPEATS as nat),
        repeated([Animal::Bat, Animal::Dog, Animal::Dog, Animal::Bat], MOCK_REPEATS as nat),
        repeated([Animal::Cat, Animal::Cat, Animal::Cat, Animal::Bat], MOCK_REPEATS as nat),
    ]
}

/// A column that holds the codes of `pattern`, `times` times over.
pub fn repeat_pattern(pattern: [Animal; 4], times: usize) -> (column: Vec<i32>)
    requires
        4 * times <= usize::MAX,
    ensures
        column@ == repeated(pattern, times as nat),
{
    let len: usize = 4 * times;
    let mut column: Vec<i32> = Vec::with_capacity(len);
    for row in 0..len
        invariant
            len == 4 * times,
            column@ == Seq::new(row as nat, |r: int| pattern[r % 4].spec_code()),
    {
        column.push(pattern[row % 4].code());
    }
    column
}

/// The sample table: four columns of `MOCK_ROWS` rows, each a pattern of
/// four animals repeated `MOCK_REPEATS` times.
pub fn generate_mock_df() -> (df: DataFrame)
    ensures
        df@ == mock_columns(),
        df.rows() == MOCK_ROWS,
{
    let col1 = repeat_pattern([Animal::Cow, Animal::Dog, Animal::Cat, Animal::Bat], MOCK_REPEATS);
    let col2 = repeat_pattern([Animal::Dog, Animal::Dog, Animal::Dog, Animal::Bat], MOCK_REPEATS);
    let col3 = repeat_pattern([Animal::Bat, Animal::Dog, Animal::Dog, Animal::Bat], MOCK_REPEATS);
    let col4 = repeat_pattern([Animal::Cat, Animal::Cat, Animal::Cat, Animal::Bat], MOCK_REPEATS);
    let data = vec![col1, col2, col3, col4];
    DataFrame::new(data, 4 * MOCK_REPEATS).unwrap()
}

} // verus!
