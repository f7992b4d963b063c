use vstd::prelude::*;

verus! {

/// The one-byte answer that a serving peer writes before any content.
#[derive(Debug, Clone, Copy, PartialEq, Eq, Structural)]
pub enum Status {
    Denied,
    Allowed,
    FileNotFound,
    ResourceNotFound,
    UnknownError,
}

impl Status {
    /// The byte that stands for this status on the wire.
    pub open spec fn spec_code(self) -> u8 {
        match self {
            Status::Denied => 0,
            Status::Allowed => 1,
            Status::FileNotFound => 2,
            Status::ResourceNotFound => 3,
            Status::UnknownError => 4,
        }
    }

    /// The status that a received byte stands for; every byte above 3 reads as
    /// `UnknownError`.
    pub open spec fn spec_from_code(b: u8) -> Status {
        if b == 0 {
            Status::Denied
        } else if b == 1 {
            Status::Allowed
        } else if b == 2 {
            Status::FileNotFound
        } else if b == 3 {
            Status::ResourceNotFound
        } else {
            Status::UnknownError
        }
    }

    /// The byte written on the wire for this status.
    pub fn code(&self) -> (b: u8)
        ensures
            b == self.spec_code(),
    {
        match self {
            Status::Denied => 0,
            Status::Allowed => 1,
            Status::FileNotFound => 2,
            Status::ResourceNotFound => 3,
            Status::UnknownError => 4,
        }
    }

    /// Reads a status byte.
    pub fn from_code(b: u8) -> (s: Status)
        ensures
            s == Status::spec_from_code(b),
    {
        if b == 0 {
            Status::Denied
        } else if b == 1 {
            Status::Allowed
        } else if b == 2 {
            Status::FileNotFound
        } else if b == 3 {
            Status::ResourceNotFound
        } else {
            Status::UnknownError
        }
    }
}

impl TryFrom<u8> for Status {
    type Error = ();

    fn try_from(value: u8) -> (r: Result<Status, ()>) {
        Ok(Status::from_code(value))
    }
}

impl vstd::std_specs::convert::TryFromSpecImpl<u8> for Status {
    open spec fn obeys_try_from_spec() -> bool {
        true
    }

    open spec fn try_from_spec(v: u8) -> Result<Status, ()> {
        Ok(Status::spec_from_code(v))
    }
}

/// Reading back the byte of a status gives that status.
pub proof fn lemma_status_code_roundtrip(s: Status)
    ensures
        Status::spec_from_code(s.spec_code()) == s,
{
}

/// Every byte is read as some status; the status's byte is the received byte,
/// except that all bytes above 4 collapse to the byte of `UnknownError`.
pub proof fn lemma_status_decode_encode(b: u8)
    ensures
        Status::spec_from_code(b).spec_code() == (if b <= 4 { b } else { 4u8 }),
{
}

} // verus!
