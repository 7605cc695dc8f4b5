//! Severity levels for the diagnostic events the surrounding application
//! may emit. The core never depends on log delivery; writing the log line
//! itself is the application layer's concern.

use vstd::prelude::*;

verus! {

#[allow(non_camel_case_types)]
pub enum LogStatus {
    DEBUG,
    INFO,
    WARN,
    ERROR,
    FATAL,
}

} // verus!
