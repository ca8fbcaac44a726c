//! The output-path rule of the compile command: the input path with its
//! source extension replaced, or the output extension appended when the
//! input does not carry the source extension.

use vstd::prelude::*;
use vstd::string::{StringExecFns, StrSliceExecFns};
use crate::types::str_eq;

verus! {

/// The default output path: a trailing `.cay` is replaced by `.ll`;
/// otherwise `.ll` is appended.
pub open spec fn default_output_path_spec(s: Seq<char>) -> Seq<char> {
    if s.len() >= 4 && s.subrange(s.len() - 4, s.len() as int) == ".cay"@ {
        s.subrange(0, s.len() - 4) + ".ll"@
    } else {
        s + ".ll"@
    }
}

/// Computes the default output path for a source path.
pub fn default_output_path(source: &str) -> (r: String)
    ensures
        r@ == default_output_path_spec(source@),
{
    let n = source.unicode_len();
    if n >= 4 {
        let tail = source.substring_char(n - 4, n);
        if str_eq(tail, ".cay") {
            let stem = source.substring_char(0, n - 4);
            let mut out = stem.to_owned();
            out.append(".ll");
            return out;
        }
    }
    let mut out = source.to_owned();
    out.append(".ll");
    out
}

} // verus!
