//! The result types of operations on columns.
use vstd::prelude::*;
use crate::column::{is_integer_type, ColumnType};

verus! {

/// Why an operation cannot apply to columns of the given types.
#[derive(Clone, Copy, Debug, PartialEq, Eq, Structural)]
pub enum ColumnOperationError {
    /// The operator does not apply to a left operand of `left_type` and a
    /// right operand of `right_type`.
    BinaryOperationInvalidColumnType { left_type: ColumnType, right_type: ColumnType },
}

/// The type of an integer division: that of the dividend, when both
/// operands are integers.
pub open spec fn spec_try_divide_column_types(lhs: ColumnType, rhs: ColumnType) -> Result<ColumnType, ColumnOperationError> {
    if is_integer_type(lhs) && is_integer_type(rhs) {
        Ok(lhs)
    } else {
        Err(ColumnOperationError::BinaryOperationInvalidColumnType { left_type: lhs, right_type: rhs })
    }
}

/// The type of the quotient of `lhs / rhs`.
pub fn try_divide_column_types(lhs: ColumnType, rhs: ColumnType) -> (r: Result<ColumnType, ColumnOperationError>)
    ensures
        r == spec_try_divide_column_types(lhs, rhs),
{
    if lhs.is_integer() && rhs.is_integer() {
        Ok(lhs)
    } else {
        Err(ColumnOperationError::BinaryOperationInvalidColumnType { left_type: lhs, right_type: rhs })
    }
}

} // verus!
