//! A field that may be present, present as null, or absent.

use vstd::prelude::*;

verus! {

/// The three states of a field of a record: left out, there with the null
/// marker, or there with a value.
#[derive(Debug)]
pub enum Nullable<T> {
    /// The field is left out.
    Absent,
    /// The field is there and holds the null marker.
    Null,
    /// The field is there and holds a value.
    Present(T),
}

/// What is written for a field: nothing (`None`), the null marker
/// (`Some(None)`), or a value (`Some(Some(v))`).
pub open spec fn spec_into_field<T>(n: Nullable<T>) -> Option<Option<T>> {
    match n {
        Nullable::Absent => None,
        Nullable::Null => Some(None),
        Nullable::Present(v) => Some(Some(v)),
    }
}

/// The state that a written field stands for.
pub open spec fn spec_from_field<T>(field: Option<Option<T>>) -> Nullable<T> {
    match field {
        None => Nullable::Absent,
        Some(None) => Nullable::Null,
        Some(Some(v)) => Nullable::Present(v),
    }
}

impl<T> Nullable<T> {
    /// What to write for the field: `None` to leave it out, `Some(None)` for
    /// the null marker, `Some(Some(v))` for the value.
    pub fn into_field(self) -> (res: Option<Option<T>>)
        ensures
            res == spec_into_field(self),
    {
        match self {
            Nullable::Absent => None,
            Nullable::Null => Some(None),
            Nullable::Present(v) => Some(Some(v)),
        }
    }

    /// The state that a field stands for, read as `into_field` writes it.
    pub fn from_field(field: Option<Option<T>>) -> (res: Nullable<T>)
        ensures
            res == spec_from_field(field),
    {
        match field {
            None => Nullable::Absent,
            Some(None) => Nullable::Null,
            Some(Some(v)) => Nullable::Present(v),
        }
    }

    /// Whether the field is left out.
    pub fn is_absent(&self) -> (res: bool)
        ensures
            res == (self is Absent),
    {
        match self {
            Nullable::Absent => true,
            _ => false,
        }
    }

    /// Whether the field holds the null marker.
    pub fn is_null(&self) -> (res: bool)
        ensures
            res == (self is Null),
    {
        match self {
            Nullable::Null => true,
            _ => false,
        }
    }

    /// The value of the field, where it holds one.
    pub fn value(&self) -> (res: Option<&T>)
        ensures
            match res {
                Some(v) => *self == Nullable::Present(*v),
                None => !(self is Present),
            },
    {
        match self {
            Nullable::Present(v) => Some(v),
            _ => None,
        }
    }
}

} // verus!
