use vstd::prelude::*;

verus! {

/// Error code of a failed system call, 0 meaning success.
#[derive(Default, Copy, Clone)]
pub struct APIResultCode {
    code: u32,
}

impl View for APIResultCode {
    type V = u32;

    closed spec fn view(&self) -> u32 {
        self.code
    }
}

/// Result of a system call: its value, or the code of its error.
pub type APIResult<T> = Result<T, APIResultCode>;

impl APIResultCode {
    /// The code reserved for errors raised by this program itself.
    pub fn user() -> (r: Self)
        ensures
            r@ == 0x2000_0001,
    {
        Self { code: 0x2000_0001 }
    }

    /// The result code `code`.
    pub fn new(code: u32) -> (r: Self)
        ensures
            r@ == code,
    {
        Self { code }
    }

    /// The numeric code.
    pub fn code(&self) -> (r: u32)
        ensures
            r == self@,
    {
        self.code
    }
}

} // verus!
