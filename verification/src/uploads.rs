//! Local file-source naming: the rule that turns a user-given file
//! argument into the path to open. Fetching remote sources to a local
//! file is the transport's business.
use vstd::prelude::*;
use vstd::string::StrSliceExecFns;
use vstd::string::StringExecFns;
use crate::strutil::starts_with;

verus! {

/// The local path a file argument names: the text after a leading
/// `@`, the text after a leading `file://`, or the argument itself.
pub open spec fn spec_local_path(v: Seq<char>) -> Seq<char> {
    if v.len() >= 1 && v.subrange(0, 1) == "@"@ {
        v.skip(1)
    } else if v.len() >= 7 && v.subrange(0, 7) == "file://"@ {
        v.skip(7)
    } else {
        v
    }
}

/// Strips the `@` or `file://` marker off a local file argument.
pub fn local_path(value: &str) -> (r: String)
    ensures
        r@ == spec_local_path(value@),
{
    proof {
        reveal_strlit("@");
        reveal_strlit("file://");
        assert("@"@.len() == 1);
        assert("file://"@.len() == 7);
    }
    if starts_with(value, "@") {
        let n = value.unicode_len();
        let r = String::from_str(value.substring_char(1, n));
        assert(r@ =~= spec_local_path(value@));
        r
    } else if starts_with(value, "file://") {
        let n = value.unicode_len();
        let r = String::from_str(value.substring_char(7, n));
        assert(r@ =~= spec_local_path(value@));
        r
    } else {
        String::from_str(value)
    }
}

} // verus!
