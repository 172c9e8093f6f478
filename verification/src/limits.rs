use vstd::prelude::*;

verus! {

/// Largest request body, in bytes, that a service will buffer.
pub const BODY_CAP: u64 = 65536;

/// Whether a request body whose length has the given upper bound may be
/// admitted. An unknown bound counts as exceeding the cap (fail safe).
pub open spec fn body_within_cap_spec(upper: Option<u64>) -> bool {
    match upper {
        Some(n) => n <= BODY_CAP,
        None => false,
    }
}

/// Admission check for the body size cap: a known upper bound of at most
/// `BODY_CAP` bytes passes; an unknown bound fails safe.
pub fn body_within_cap(upper: Option<u64>) -> (r: bool)
    ensures
        r == body_within_cap_spec(upper),
{
    match upper {
        Some(n) => n <= BODY_CAP,
        None => false,
    }
}

} // verus!
