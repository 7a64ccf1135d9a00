//! The wall clock, and timestamps written in RFC 3339.

use vstd::prelude::*;

verus! {

/// `chrono::Utc::now`, converted to text by `DateTime::to_rfc3339`: the
/// current time in RFC 3339 form. It depends on the clock, so nothing is
/// promised of it.
#[verifier::external_body]
pub fn now_rfc3339() -> String {
    chrono::Utc::now().to_rfc3339()
}

/// The RFC 3339 text `chrono` writes for a number of seconds since the Unix
/// epoch, when `chrono::DateTime::from_timestamp` accepts it.
pub uninterp spec fn spec_rfc3339_of_secs(secs: i64) -> Option<Seq<char>>;

/// `chrono::DateTime::<Utc>::from_timestamp(secs, 0)`, converted to text by
/// `to_rfc3339`. Whether the number of seconds is in chrono's range, and
/// the text, are named by `spec_rfc3339_of_secs`.
#[verifier::external_body]
fn rfc3339_of_secs(secs: i64) -> (res: Option<String>)
    ensures
        match (res, spec_rfc3339_of_secs(secs)) {
            (Some(t), Some(v)) => t@ == v,
            (None, None) => true,
            _ => false,
        },
{
    match chrono::DateTime::from_timestamp(secs, 0) {
        Some(dt) => Some(dt.to_rfc3339()),
        None => None,
    }
}

/// A file's modification time, as the whole seconds since the Unix epoch
/// (wrapped into `i64` as a cast does).
pub open spec fn spec_modified_iso(secs: Option<u64>) -> Seq<char> {
    match secs {
        None => "unknown"@,
        Some(s) => match spec_rfc3339_of_secs(s as i64) {
            Some(t) => t,
            None => "unknown"@,
        },
    }
}

/// A file modification time, given as seconds since the Unix epoch (`None`
/// when it could not be read), in RFC 3339 form; "unknown" when it could not
/// be read or is out of range.
pub fn modified_iso(secs: Option<u64>) -> (res: String)
    ensures
        res@ == spec_modified_iso(secs),
{
    match secs {
        None => crate::text::to_owned_string("unknown"),
        Some(s) => {
            let signed = s as i64;
            match rfc3339_of_secs(signed) {
                Some(t) => t,
                None => crate::text::to_owned_string("unknown"),
            }
        },
    }
}

} // verus!
