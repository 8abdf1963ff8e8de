//! Asset-path resolution: an asset lives beside the running binary, so its
//! path is the binary's path with the file name replaced.  Reading the
//! binary's location and probing the filesystem happen outside.

use vstd::prelude::*;
use vstd::string::StrSliceExecFns;
use vstd::string::StringExecFns;

verus! {

/// The position after the last path separator, or zero when there is none.
pub open spec fn spec_after_last_slash(s: Seq<char>) -> int
    decreases s.len(),
{
    if s.len() == 0 {
        0
    } else if s.last() == '/' {
        s.len() as int
    } else {
        spec_after_last_slash(s.drop_last())
    }
}

/// The path of an asset next to the running binary: the binary's path with
/// its file name replaced by the asset's relative path.
pub fn find_asset_path(exe_path: &str, path: &str) -> (r: String)
    ensures
        r@ == exe_path@.take(spec_after_last_slash(exe_path@)) + path@,
{
    let n = exe_path.unicode_len();
    let mut cut: usize = n;
    let mut found = false;
    proof {
        assert(exe_path@.take(n as int) =~= exe_path@);
    }
    while cut > 0 && !found
        invariant
            cut <= n,
            n == exe_path@.len(),
            !found ==> spec_after_last_slash(exe_path@) == spec_after_last_slash(
                exe_path@.take(cut as int),
            ),
            found ==> cut > 0 && spec_after_last_slash(exe_path@) == cut,
        decreases cut + (if found {
            0int
        } else {
            1int
        }),
    {
        if exe_path.get_char(cut - 1) == '/' {
            proof {
                assert(exe_path@.take(cut as int).last() == exe_path@[cut - 1]);
            }
            found = true;
        } else {
            proof {
                assert(exe_path@.take(cut as int).last() == exe_path@[cut - 1]);
                assert(exe_path@.take(cut as int).drop_last() =~= exe_path@.take(cut - 1));
            }
            cut -= 1;
        }
    }
    proof {
        if !found {
            assert(exe_path@.take(0) =~= Seq::<char>::empty());
        }
    }
    let base = if found {
        exe_path.substring_char(0, cut)
    } else {
        exe_path.substring_char(0, 0)
    };
    let mut r = base.to_owned();
    r.append(path);
    proof {
        if !found {
            assert(r@ =~= exe_path@.take(spec_after_last_slash(exe_path@)) + path@);
        }
    }
    r
}

} // verus!
