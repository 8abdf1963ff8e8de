//! The log exporter's archive naming: where a day's records are written
//! locally and where they are uploaded.  The filesystem and the upload tool
//! live outside; the paths are built and pinned here.

use vstd::prelude::*;
use crate::strfmt::spec_dec_digits;
use crate::time::Date;
use crate::time::format_date_dashes;
use crate::time::spec_date_dashes;
use crate::strfmt::u64_to_string;
use vstd::string::StringExecFns;

verus! {

/// The local archive of one day's records:
/// `{dir}/{name}/{year}/{name}-{date}-{hash}.ndjson`.
pub fn local_file_path(dir: &str, name: &str, date: &Date, hash: &str) -> (r: String)
    ensures
        r@ == dir@ + "/"@ + name@ + "/"@ + spec_dec_digits(date.year as int) + "/"@ + name@ + "-"@
            + spec_date_dashes(*date) + "-"@ + hash@ + ".ndjson"@,
{
    let mut s = dir.to_owned();
    s.append("/");
    s.append(name);
    s.append("/");
    let year = u64_to_string(date.year as u64);
    s.append(year.as_str());
    s.append("/");
    s.append(name);
    s.append("-");
    let day = format_date_dashes(date);
    s.append(day.as_str());
    s.append("-");
    s.append(hash);
    s.append(".ndjson");
    proof {
        assert(s@ =~= dir@ + "/"@ + name@ + "/"@ + spec_dec_digits(date.year as int) + "/"@ + name@
            + "-"@ + spec_date_dashes(*date) + "-"@ + hash@ + ".ndjson"@);
    }
    s
}

/// The uploaded archive of one day's records:
/// `{bucket}/{name}/{year}/{name}-{date}-{hash}.parquet`.
pub fn remote_path(bucket: &str, name: &str, date: &Date, hash: &str) -> (r: String)
    ensures
        r@ == bucket@ + "/"@ + name@ + "/"@ + spec_dec_digits(date.year as int) + "/"@ + name@
            + "-"@ + spec_date_dashes(*date) + "-"@ + hash@ + ".parquet"@,
{
    let mut s = bucket.to_owned();
    s.append("/");
    s.append(name);
    s.append("/");
    let year = u64_to_string(date.year as u64);
    s.append(year.as_str());
    s.append("/");
    s.append(name);
    s.append("-");
    let day = format_date_dashes(date);
    s.append(day.as_str());
    s.append("-");
    s.append(hash);
    s.append(".parquet");
    proof {
        assert(s@ =~= bucket@ + "/"@ + name@ + "/"@ + spec_dec_digits(date.year as int) + "/"@
            + name@ + "-"@ + spec_date_dashes(*date) + "-"@ + hash@ + ".parquet"@);
    }
    s
}

} // verus!
