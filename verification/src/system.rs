//! What the library learns from the machine: fresh identifiers, the time, and
//! whether a file or a process exists. None of these has a fixed result.
use vstd::prelude::*;

verus! {

pub open spec fn is_lower_hex(c: char) -> bool {
    ('0' <= c && c <= '9') || ('a' <= c && c <= 'f')
}

/// The shape of a UUID in its simple form: 32 lower-case hex digits.
pub open spec fn is_simple_uuid(s: Seq<char>) -> bool {
    s.len() == 32 && forall|i: int| 0 <= i < 32 ==> is_lower_hex(#[trigger] s[i])
}

/// `Uuid::new_v4().simple().to_string()`: a random version-4 UUID written as
/// 32 lower-case hex digits (uuid's `Simple` formats through `LowerHex`). Which
/// digits come out is left unsaid: they are random.
#[verifier::external_body]
pub fn new_simple_uuid() -> (s: String)
    ensures
        s@.len() == 32,
        forall|i: int| 0 <= i < 32 ==> is_lower_hex(#[trigger] s@[i]),
{
    uuid::Uuid::new_v4().simple().to_string()
}

/// `chrono::Utc::now().to_rfc3339()`: the current UTC time as RFC 3339 text.
/// Nothing is stated of the text: it depends on the clock.
#[verifier::external_body]
pub fn utc_now_rfc3339() -> (s: String) {
    chrono::Utc::now().to_rfc3339()
}

/// `SystemTime::now()`, as nanoseconds since the Unix epoch (0 before it).
/// Nothing is stated of the value: it is the clock's.
#[verifier::external_body]
pub fn clock_nanos() -> (t: u128) {
    match std::time::SystemTime::now().duration_since(std::time::UNIX_EPOCH) {
        Ok(d) => d.as_nanos(),
        Err(_) => 0,
    }
}

/// `Path::new("/proc/<pid>").exists()`: whether the process table holds `pid`.
/// Nothing is stated of the answer: it depends on the machine.
#[verifier::external_body]
pub fn proc_entry_exists(pid: u32) -> (b: bool) {
    std::path::Path::new(&format!("/proc/{}", pid)).exists()
}

/// `Path::new(path).is_file()`. Nothing is stated of the answer: it depends on the disk.
#[verifier::external_body]
pub fn path_is_file(path: &str) -> (b: bool) {
    std::path::Path::new(path).is_file()
}

} // verus!
