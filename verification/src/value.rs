//! The values that a database hands out, one per column of a row.

use vstd::prelude::*;

verus! {

/// A scalar value of a row, by kind. A real number is known by its kind
/// alone: the analysis counts it and does not read it.
#[derive(Clone, Debug, PartialEq, Eq)]
pub enum CellValue {
    Null,
    Integer(i64),
    Real,
    Text(String),
    Blob(Vec<u8>),
}

/// A scalar value as a mathematical value.
pub enum CellModel {
    Null,
    Integer(int),
    Real,
    Text(Seq<char>),
    Blob(Seq<u8>),
}

impl View for CellValue {
    type V = CellModel;

    open spec fn view(&self) -> CellModel {
        match self {
            CellValue::Null => CellModel::Null,
            CellValue::Integer(number) => CellModel::Integer(*number as int),
            CellValue::Real => CellModel::Real,
            CellValue::Text(text) => CellModel::Text(text@),
            CellValue::Blob(bytes) => CellModel::Blob(bytes@),
        }
    }
}

/// The values of a row as mathematical values.
pub open spec fn cells(row: Seq<CellValue>) -> Seq<CellModel> {
    Seq::new(row.len(), |i: int| row[i]@)
}

/// The value of a row under its column `i`. A row that is too short to
/// have one holds a missing value there.
pub open spec fn cell_at(row: Seq<CellModel>, i: int) -> CellModel {
    if 0 <= i < row.len() {
        row[i]
    } else {
        CellModel::Null
    }
}

} // verus!
