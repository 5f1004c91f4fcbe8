use vstd::prelude::*;

use crate::errors::ValidationErrors;

verus! {

/// Holds a value that was extracted from a multipart body, and hands it on unchanged.
pub struct MultipartValidated<T>(pub T);

impl<T> MultipartValidated<T> {
    /// Consumes the holder and returns the value.
    pub fn into_inner(self) -> (value: T)
        ensures
            value == self.0,
    {
        self.0
    }

    /// The value, to change in place.
    pub fn deref_mut(&mut self) -> (value: &mut T)
        ensures
            *value == old(self).0,
            final(self).0 == *final(value),
    {
        &mut self.0
    }

    /// Holds what a parse produced, and hands its errors on as they are.
    pub fn from_parsed(parsed: Result<T, ValidationErrors>) -> (held: Result<
        MultipartValidated<T>,
        ValidationErrors,
    >)
        ensures
            held == match parsed {
                Ok(value) => Ok::<MultipartValidated<T>, ValidationErrors>(MultipartValidated(value)),
                Err(errors) => Err::<MultipartValidated<T>, ValidationErrors>(errors),
            },
    {
        match parsed {
            Ok(value) => Ok(MultipartValidated(value)),
            Err(errors) => Err(errors),
        }
    }
}

impl<T> std::ops::Deref for MultipartValidated<T> {
    type Target = T;

    fn deref(&self) -> (value: &T)
        ensures
            *value == self.0,
    {
        &self.0
    }
}

} // verus!
