//! A configuration value that is either written in place or imported from
//! another file.
//!
//! The import itself is not resolved here: reading the referenced file is
//! the caller's responsibility, so a parsed configuration carries either the
//! in-place value or the path still to be read.

use vstd::prelude::*;
use core::marker::PhantomData;

verus! {

/// Relies on `PhantomData`'s `Clone`: `PhantomData` has a single value, and
/// cloning returns it.
pub assume_specification<T: core::marker::PointeeSized>[ <PhantomData<T> as Clone>::clone ](
    v: &PhantomData<T>,
) -> (r: PhantomData<T>)
    ensures
        r == *v,
;

/// Marker: an imported file is parsed as the target type's own format.
#[derive(Debug, Clone, PartialEq, Eq, Default)]
#[non_exhaustive]
pub struct Deser;

/// Marker: an imported file's text is taken as the value itself.
#[derive(Debug, Clone, PartialEq, Eq, Default)]
#[non_exhaustive]
pub struct Raw;

/// Either a value written in place, or the path of a file to import it from.
#[derive(Debug, Clone)]
pub enum RawOrImport<T, Mode = Deser> {
    /// The value stood in the configuration itself.
    Value(T),
    /// The configuration named a file to read the value from.
    Import(String, PhantomData<Mode>),
}

impl<T, Mode> RawOrImport<T, Mode> {
    /// Wraps a value that stood in place.
    pub fn of_value(value: T) -> (r: RawOrImport<T, Mode>)
        ensures
            r matches RawOrImport::Value(v) && v == value,
    {
        RawOrImport::Value(value)
    }

    /// Wraps the path of a file still to be imported.
    pub fn of_import(path: String) -> (r: RawOrImport<T, Mode>)
        ensures
            r matches RawOrImport::Import(p, _) && p@ == path@,
    {
        RawOrImport::Import(path, PhantomData)
    }

    /// The in-place value, or `None` for an unresolved import.
    pub fn value(&self) -> (r: Option<&T>)
        ensures
            match r {
                Some(v) => *self matches RawOrImport::Value(x) && *v == x,
                None => *self matches RawOrImport::Import(..),
            },
    {
        match self {
            RawOrImport::Value(v) => Some(v),
            RawOrImport::Import(..) => None,
        }
    }

    /// The import path, or `None` for an in-place value.
    pub fn import_path(&self) -> (r: Option<&str>)
        ensures
            match r {
                Some(p) => *self matches RawOrImport::Import(q, _) && p@ == q@,
                None => *self matches RawOrImport::Value(_),
            },
    {
        match self {
            RawOrImport::Value(_) => None,
            RawOrImport::Import(p, _) => Some(p.as_str()),
        }
    }

    /// The in-place value, consuming `self`; `None` for an unresolved import.
    pub fn into_value(self) -> (r: Option<T>)
        ensures
            match r {
                Some(v) => self matches RawOrImport::Value(x) && v == x,
                None => self matches RawOrImport::Import(..),
            },
    {
        match self {
            RawOrImport::Value(v) => Some(v),
            RawOrImport::Import(..) => None,
        }
    }
}

} // verus!
