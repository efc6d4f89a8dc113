//! The decisions of the command-line driver: input validation and
//! outcome reporting.  Reading the file, writing the artifact and
//! spawning the external compiler are the caller's business.

use vstd::prelude::*;
use vstd::string::*;

verus! {

/// Whether `s` ends with `suffix`.
pub open spec fn ends_with(s: Seq<char>, suffix: Seq<char>) -> bool {
    suffix.len() <= s.len() && s.skip(s.len() - suffix.len()) == suffix
}

/// The file extension an input path must carry.
pub open spec fn source_extension() -> Seq<char> {
    ".seo"@
}

/// Whether an input path carries the source-file extension.  A suffix
/// comparison only; the file's content is never inspected.
pub fn has_source_extension(path: &str) -> (r: bool)
    ensures
        r == ends_with(path@, source_extension()),
{
    proof {
        reveal_strlit(".seo");
    }
    let n = path.unicode_len();
    if n < 4 {
        return false;
    }
    let r = path.get_char(n - 4) == '.' && path.get_char(n - 3) == 's' && path.get_char(n - 2)
        == 'e' && path.get_char(n - 1) == 'o';
    proof {
        let tail = path@.skip(n as int - 4);
        assert(tail.len() == 4);
        assert(tail[0] == path@[n as int - 4]);
        assert(tail[1] == path@[n as int - 3]);
        assert(tail[2] == path@[n as int - 2]);
        assert(tail[3] == path@[n as int - 1]);
        if r {
            assert(tail =~= ".seo"@);
        } else {
            assert(tail != ".seo"@);
        }
    }
    r
}

/// Whether the command line is missing its one positional argument: the
/// argument list holds only the program name.
pub fn missing_input(arg_count: usize) -> (r: bool)
    ensures
        r == (arg_count < 2),
{
    arg_count < 2
}

/// The outcome report: chosen from the external compiler's exit status
/// alone.
pub fn compile_report(succeeded: bool) -> (r: &'static str)
    ensures
        succeeded ==> r@ == "Successfully compiled!"@,
        !succeeded ==> r@ == "Failed to compile"@,
{
    if succeeded {
        "Successfully compiled!"
    } else {
        "Failed to compile"
    }
}

} // verus!
