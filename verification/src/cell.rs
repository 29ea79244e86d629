//! An optional value: a field of an attendance row that is either present
//! or explicitly absent. Absence is a valid state, not an error, until the
//! value is actually needed.

use vstd::prelude::*;
use crate::CoreError;

verus! {

#[derive(Debug, Clone)]
pub enum Cell<T> {
    Data(T),
    NoData,
}

/// The cell a fallible read leaves behind: a failed read is an absent
/// field, never an error of its own.
pub open spec fn cell_of<T>(o: Option<T>) -> Cell<T> {
    match o {
        Some(d) => Cell::Data(d),
        None => Cell::NoData,
    }
}

impl<T> Cell<T> {
    pub fn new(data: T) -> (r: Self)
        ensures
            r == Cell::Data(data),
    {
        Cell::Data(data)
    }

    /// Applies `op` to a present value; an absent cell stays absent.
    pub fn map<F: FnOnce(T) -> T>(self, op: F) -> (r: Self)
        requires
            self matches Cell::Data(d) ==> op.requires((d,)),
        ensures
            (match self {
                Cell::Data(d) => r matches Cell::Data(e) && op.ensures((d,), e),
                Cell::NoData => r == Cell::<T>::NoData,
            }),
    {
        match self {
            Cell::Data(d) => Cell::Data(op(d)),
            Cell::NoData => Cell::NoData,
        }
    }

    /// The held value, if any; absent cells stay absent.
    pub fn or(self, res: T) -> (r: Self)
        ensures
            (r == match self {
                Cell::Data(d) => Cell::Data(d),
                Cell::NoData => Cell::Data(res),
            }),
    {
        match self {
            Cell::Data(d) => Cell::Data(d),
            Cell::NoData => Cell::Data(res),
        }
    }

    /// Surrenders the value; an absent cell is the one error source here.
    pub fn data(self) -> (r: Result<T, CoreError>)
        ensures
            (r == match self {
                Cell::Data(d) => Result::<T, CoreError>::Ok(d),
                Cell::NoData => Result::<T, CoreError>::Err(CoreError::MissingData),
            }),
    {
        match self {
            Cell::Data(d) => Ok(d),
            Cell::NoData => Err(CoreError::MissingData),
        }
    }

    /// Borrows the value without consuming the cell.
    pub fn peek(&self) -> (r: Result<&T, CoreError>)
        ensures
            (r == match self {
                Cell::Data(d) => Result::<&T, CoreError>::Ok(d),
                Cell::NoData => Result::<&T, CoreError>::Err(CoreError::MissingData),
            }),
    {
        match self {
            Cell::Data(d) => Ok(d),
            Cell::NoData => Err(CoreError::MissingData),
        }
    }
}

} // verus!
