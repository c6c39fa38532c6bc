//! File-format selection.
//!
//! The byte-level codecs live outside the verified core; what is shared
//! here is the format tag and the rule that picks a format from a file
//! name: the part after the last dot, compared case-insensitively against
//! the known extensions.

use vstd::prelude::*;
use vstd::string::StringSliceAdditionalSpecFns;

verus! {

/// Enumerate the image formats supported by the library.
#[derive(Debug, Clone, Copy, PartialEq, Eq, Structural)]
pub enum Format {
    /// PNG format.
    Png,
    /// TIFF format.
    Tiff,
}

/// The ASCII lowercase of one byte.
pub open spec fn lower_byte(b: u8) -> u8 {
    if 65 <= b <= 90 {
        (b + 32) as u8
    } else {
        b
    }
}

/// The position of the last dot in `s`, or `-1` when there is none.
pub open spec fn last_dot(s: Seq<u8>) -> int
    decreases s.len(),
{
    if s.len() == 0 {
        -1
    } else if s[s.len() - 1] == 46 {
        s.len() - 1
    } else {
        last_dot(s.drop_last())
    }
}

/// The last dot of a sequence is a dot, and nothing after it is one.
pub proof fn lemma_last_dot(s: Seq<u8>)
    ensures
        -1 <= last_dot(s) < s.len(),
        last_dot(s) >= 0 ==> s[last_dot(s)] == 46,
        forall|i: int| last_dot(s) < i < s.len() ==> s[i] != 46,
    decreases s.len(),
{
    if s.len() > 0 && s[s.len() - 1] != 46 {
        lemma_last_dot(s.drop_last());
        assert(forall|i: int| 0 <= i < s.len() - 1 ==> s[i] == s.drop_last()[i]);
    }
}

/// Which format a file name with the given bytes selects: the bytes after
/// the last dot, lowercased, must read `png` or `tiff`.
pub open spec fn format_of(s: Seq<u8>) -> Option<Format> {
    let d = last_dot(s);
    if d < 0 {
        Option::<Format>::None
    } else {
        let ext = s.subrange(d + 1, s.len() as int).map_values(|b: u8| lower_byte(b));
        if ext == seq![112u8, 110u8, 103u8] {
            Some(Format::Png)
        } else if ext == seq![116u8, 105u8, 102u8, 102u8] {
            Some(Format::Tiff)
        } else {
            Option::<Format>::None
        }
    }
}

/// The ASCII lowercase of one byte.
fn lower_byte_exec(b: u8) -> (r: u8)
    ensures
        r == lower_byte(b),
{
    if 65 <= b && b <= 90 {
        b + 32
    } else {
        b
    }
}

/// Infer the image format from a file name's extension: the part after
/// the last dot, compared without regard to ASCII case. `None` when there
/// is no dot or the extension is not a known one.
pub fn parse_extension(filepath: &str) -> (r: Option<Format>)
    ensures
        r == format_of(filepath.spec_bytes()),
{
    let bytes: &[u8] = filepath.as_bytes();
    let ghost s = filepath.spec_bytes();
    let n: usize = bytes.len();
    // find the last dot: `dot_end` is one past it, or zero when none was
    // seen yet
    let mut dot_end: usize = 0;
    let mut k: usize = 0;
    proof {
        assert(s.take(0) =~= Seq::<u8>::empty());
    }
    while k < n
        invariant
            k <= n,
            n == s.len(),
            bytes@ == s,
            dot_end as int - 1 == last_dot(s.take(k as int)),
        decreases n - k,
    {
        proof {
            assert(s.take(k + 1 as int).drop_last() =~= s.take(k as int));
        }
        if bytes[k] == 46 {
            dot_end = k + 1;
        }
        k = k + 1;
    }
    proof {
        assert(s.take(n as int) =~= s);
        lemma_last_dot(s);
    }
    if dot_end == 0 {
        // no dot anywhere
        return None;
    }
    let i: usize = dot_end;
    let d: usize = i - 1;
    let ext_len: usize = n - i;
    let ghost ext = s.subrange(d + 1, s.len() as int).map_values(|b: u8| lower_byte(b));
    proof {
        assert(ext.len() == ext_len);
    }
    if ext_len == 3 {
        let e0 = lower_byte_exec(bytes[d + 1]);
        let e1 = lower_byte_exec(bytes[d + 2]);
        let e2 = lower_byte_exec(bytes[d + 3]);
        if e0 == 112 && e1 == 110 && e2 == 103 {
            proof {
                assert(ext =~= seq![112u8, 110u8, 103u8]);
            }
            Some(Format::Png)
        } else {
            proof {
                assert(ext != seq![112u8, 110u8, 103u8]);
                assert(ext.len() != 4);
            }
            None
        }
    } else if ext_len == 4 {
        let e0 = lower_byte_exec(bytes[d + 1]);
        let e1 = lower_byte_exec(bytes[d + 2]);
        let e2 = lower_byte_exec(bytes[d + 3]);
        let e3 = lower_byte_exec(bytes[d + 4]);
        if e0 == 116 && e1 == 105 && e2 == 102 && e3 == 102 {
            proof {
                assert(ext =~= seq![116u8, 105u8, 102u8, 102u8]);
            }
            Some(Format::Tiff)
        } else {
            proof {
                assert(ext != seq![116u8, 105u8, 102u8, 102u8]);
                assert(ext.len() != 3);
            }
            None
        }
    } else {
        proof {
            assert(ext.len() != 3 && ext.len() != 4);
        }
        None
    }
}

} // verus!
