//! Command-line handling of the native program.
use vstd::prelude::*;
use crate::text::{has_prefix, starts_with, str_eq};

verus! {

/// The value of the last `--state=<value>` or `--state <value>` among
/// `args[i..]`, `found` if there is none. A trailing `--state` without a
/// value is ignored.
pub open spec fn state_flag_from(args: Seq<Seq<char>>, i: int, found: Option<Seq<char>>) -> Option<Seq<char>>
    decreases args.len() - i,
{
    if i < 0 || i >= args.len() {
        found
    } else if has_prefix(args[i], "--state="@) {
        state_flag_from(args, i + 1, Some(args[i].skip(8)))
    } else if args[i] == "--state"@ {
        if i + 1 < args.len() {
            state_flag_from(args, i + 2, Some(args[i + 1]))
        } else {
            found
        }
    } else {
        state_flag_from(args, i + 1, found)
    }
}

/// The arguments as character sequences.
pub open spec fn arg_views(args: Seq<String>) -> Seq<Seq<char>> {
    args.map_values(|a: String| a@)
}

/// Scan the arguments (program name excluded) for `--state=<value>` or
/// `--state <value>` and return the value; later occurrences win.
pub fn parse_state_flag(args: Vec<String>) -> (res: Option<String>)
    ensures
        res.deep_view() == state_flag_from(arg_views(args@), 0, None),
{
    let mut found: Option<String> = None;
    let mut i: usize = 0;
    let n = args.len();
    while i < n
        invariant
            n == args@.len(),
            i <= n,
            state_flag_from(arg_views(args@), 0, None) == state_flag_from(
                arg_views(args@),
                i as int,
                found.deep_view(),
            ),
        decreases n - i,
    {
        let arg = args[i].as_str();
        proof {
            reveal_strlit("--state=");
        }
        assert(arg_views(args@)[i as int] == arg@);
        if starts_with(arg, "--state=") {
            let len = arg.unicode_len();
            found = Some(String::from_str(arg.substring_char(8, len)));
            assert(arg@.subrange(8, arg@.len() as int) =~= arg@.skip(8));
            i = i + 1;
        } else if str_eq(arg, "--state") {
            if i + 1 < n {
                assert(arg_views(args@)[i + 1] == args@[i + 1]@);
                found = Some(args[i + 1].clone());
                i = i + 2;
            } else {
                return found;
            }
        } else {
            i = i + 1;
        }
    }
    found
}

} // verus!
