//! Validation of command-line inputs.
//!
//! Only the pure part lives here: whether a model path carries a
//! supported extension.  Reading the command line and probing the file
//! system stay with the caller.

use vstd::prelude::*;
use vstd::string::StringSliceAdditionalSpecFns;

verus! {

/// The byte index of the last `.` in `bytes`, or `-1` if there is none.
pub open spec fn spec_last_dot(bytes: Seq<u8>) -> int
    decreases bytes.len(),
{
    if bytes.len() == 0 {
        -1
    } else if bytes.last() == 46u8 {
        bytes.len() - 1
    } else {
        spec_last_dot(bytes.drop_last())
    }
}

/// The extension of a file name: the bytes after the last `.`, or the
/// whole name when there is no `.` at all.
pub open spec fn spec_extension(bytes: Seq<u8>) -> Seq<u8> {
    let d = spec_last_dot(bytes);
    if d < 0 {
        bytes
    } else {
        bytes.subrange(d + 1, bytes.len() as int)
    }
}

/// Which classes of debug-callback messages a log level enables.  The
/// six levels nest: each enables everything the previous one did plus
/// one more class.
#[derive(Clone, Copy, Debug, PartialEq, Eq, Structural)]
pub struct LogLevelFlags {
    pub error: bool,
    pub warning: bool,
    pub performance_warning: bool,
    pub information: bool,
    pub debug: bool,
}

/// The bytes of the level name with rank `i` (`none` through `debug`).
pub open spec fn level_name(i: int) -> Seq<u8> {
    if i == 0 {
        seq![110u8, 111u8, 110u8, 101u8]
    } else if i == 1 {
        seq![101u8, 114u8, 114u8, 111u8, 114u8]
    } else if i == 2 {
        seq![119u8, 97u8, 114u8, 110u8, 105u8, 110u8, 103u8]
    } else if i == 3 {
        seq![112u8, 101u8, 114u8, 102u8]
    } else if i == 4 {
        seq![105u8, 110u8, 102u8, 111u8]
    } else {
        seq![100u8, 101u8, 98u8, 117u8, 103u8]
    }
}

/// The flags of the level with rank `i`: every class below the rank is
/// enabled.
pub open spec fn level_flags(i: int) -> LogLevelFlags {
    LogLevelFlags {
        error: i > 0,
        warning: i > 1,
        performance_warning: i > 2,
        information: i > 3,
        debug: i > 4,
    }
}

/// Maps a level name to its message flags.  The caller restricts the
/// choices to the six level names, as the command line does.
pub fn log_level_from_str(val: &str) -> (r: LogLevelFlags)
    requires
        exists|i: int| 0 <= i < 6 && val.spec_bytes() == #[trigger] level_name(i),
    ensures
        forall|i: int| 0 <= i < 6 && val.spec_bytes() == #[trigger] level_name(i) ==> r
            == level_flags(i),
{
    if str_bytes_eq(val, &[110, 111, 110, 101]) {
        LogLevelFlags {
            error: false,
            warning: false,
            performance_warning: false,
            information: false,
            debug: false,
        }
    } else if str_bytes_eq(val, &[101, 114, 114, 111, 114]) {
        LogLevelFlags {
            error: true,
            warning: false,
            performance_warning: false,
            information: false,
            debug: false,
        }
    } else if str_bytes_eq(val, &[119, 97, 114, 110, 105, 110, 103]) {
        LogLevelFlags {
            error: true,
            warning: true,
            performance_warning: false,
            information: false,
            debug: false,
        }
    } else if str_bytes_eq(val, &[112, 101, 114, 102]) {
        LogLevelFlags {
            error: true,
            warning: true,
            performance_warning: true,
            information: false,
            debug: false,
        }
    } else if str_bytes_eq(val, &[105, 110, 102, 111]) {
        LogLevelFlags {
            error: true,
            warning: true,
            performance_warning: true,
            information: true,
            debug: false,
        }
    } else {
        proof {
            assert(val.spec_bytes() == level_name(5));
        }
        LogLevelFlags {
            error: true,
            warning: true,
            performance_warning: true,
            information: true,
            debug: true,
        }
    }
}

/// Byte-for-byte equality of a string with an expected byte sequence.
fn str_bytes_eq(s: &str, w: &[u8]) -> (r: bool)
    ensures
        r == (s.spec_bytes() == w@),
{
    let sb = s.as_bytes();
    let n = w.len();
    if sb.len() != n {
        proof {
            assert(s.spec_bytes() != w@);
        }
        return false;
    }
    let mut i: usize = 0;
    while i < n
        invariant
            n == w@.len(),
            sb@ == s.spec_bytes(),
            sb@.len() == n,
            i <= n,
            forall|j: int| 0 <= j < i ==> sb@[j] == w@[j],
        decreases n - i,
    {
        if sb[i] != w[i] {
            proof {
                assert(s.spec_bytes()[i as int] != w@[i as int]);
            }
            return false;
        }
        i = i + 1;
    }
    proof {
        assert(s.spec_bytes() =~= w@);
    }
    true
}

/// Whether `val` names a model file in a supported format: its extension
/// is `obj`.  (A name without a dot counts as its own extension, so the
/// bare name `obj` is accepted.)
pub fn is_supported_model_format(val: &str) -> (r: bool)
    ensures
        r == (spec_extension(val.spec_bytes()) == seq![111u8, 98u8, 106u8]),
{
    let b = val.as_bytes();
    let n = b.len();
    let mut i: usize = 0;
    let mut start: usize = 0;
    while i < n
        invariant
            i <= n,
            n == b@.len(),
            start <= i,
            ({
                let d = spec_last_dot(b@.take(i as int));
                if d < 0 {
                    start == 0
                } else {
                    start == d + 1
                }
            }),
        decreases n - i,
    {
        proof {
            assert(b@.take(i + 1).drop_last() =~= b@.take(i as int));
            assert(b@.take(i + 1).last() == b@[i as int]);
        }
        if b[i] == 46 {
            start = i + 1;
        }
        i = i + 1;
    }
    proof {
        assert(b@.take(n as int) =~= b@);
    }
    let ext_len = n - start;
    if ext_len != 3 {
        proof {
            assert(spec_extension(b@).len() == ext_len);
        }
        return false;
    }
    let r = b[start] == 111 && b[start + 1] == 98 && b[start + 2] == 106;
    proof {
        let ext = spec_extension(b@);
        assert(ext.len() == 3);
        assert(ext[0] == b@[start as int]);
        assert(ext[1] == b@[start as int + 1]);
        assert(ext[2] == b@[start as int + 2]);
        if r {
            assert(ext =~= seq![111u8, 98u8, 106u8]);
        }
    }
    r
}

} // verus!
