use vstd::prelude::*;

verus! {

/// What an operation reports when it cannot do its work. A miss (a record, a
/// page or a tuple that is not there) is never an error: it is an absent value.
#[derive(Debug)]
pub enum Error {
    /// An argument that the operation cannot accept.
    Value(String),
    /// A failure to read, write, seek or sync the database file.
    Io(String),
    /// Contention on a handle that could not be resolved.
    Lock(String),
}

impl Error {
    /// The message that the error carries.
    pub fn message(&self) -> (r: String)
        ensures
            r@ == (match *self {
                Error::Value(m) => m@,
                Error::Io(m) => m@,
                Error::Lock(m) => m@,
            }),
    {
        match self {
            Error::Value(m) => m.clone(),
            Error::Io(m) => m.clone(),
            Error::Lock(m) => m.clone(),
        }
    }
}

/// A `Value` error with the given message.
pub fn value_error(message: &str) -> (r: Error)
    ensures
        r matches Error::Value(m) && m@ == message@,
{
    Error::Value(message.to_owned())
}

} // verus!
