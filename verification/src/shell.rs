//! The decision a shell invocation ends in: success hands the captured
//! standard output on, failure becomes an exception naming the exit status.
//! Spawning the process and reading its pipes happen outside.

use vstd::prelude::*;
use crate::exception::Exception;
use crate::exception::Severity;
use crate::strfmt::spec_dec_digits;
use crate::strfmt::u64_to_string;
use vstd::string::StringExecFns;

verus! {

/// Turns a finished command's observations into its result: the standard
/// output on success, otherwise an error naming the exit status (or -1 when
/// the process ended without one).
pub fn shell_outcome(success: bool, status_code: Option<i64>, stdout: String) -> (r: Result<
    String,
    Exception,
>)
    requires
        status_code matches Some(c) ==> 0 <= c <= 255,
    ensures
        success ==> r == Result::<String, Exception>::Ok(stdout),
        !success ==> (r matches Err(e) && e.severity == Severity::Error && e.code is None
            && e.message@ == "command failed, status="@ + (match status_code {
            Some(c) => spec_dec_digits(c as int),
            None => "-1"@,
        })),
{
    if success {
        Ok(stdout)
    } else {
        let mut message = "command failed, status=".to_owned();
        match status_code {
            Some(code) => {
                let d = u64_to_string(code as u64);
                message.append(d.as_str());
            },
            None => {
                message.append("-1");
            },
        }
        Err(Exception::error(message))
    }
}

} // verus!
