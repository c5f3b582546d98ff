//! A minimal HTTP/1.1 request parsing and routing core.
//!
//! The library turns raw request text into a structured [`http::request::HttpRequest`],
//! dispatches it to one of a small set of route handlers, and builds byte-exact
//! response strings.  Socket and filesystem access are capabilities that the
//! surrounding program supplies; the library itself is pure computation.

use vstd::prelude::*;

pub mod http;
pub mod strutil;
pub mod targets;

verus! {

/// Startup configuration: the directory root against which file routes resolve.
pub struct Config {
    pub directory: String,
}

/// Whether the argument list ends with a directory option that is missing
/// its value: the one rejected argument shape.
pub open spec fn spec_args_err(args: Seq<Seq<char>>) -> bool {
    args.len() >= 2 && args[args.len() - 1] == "--directory"@
}

/// The directory that the arguments before position `n` select: the value
/// after the last `--directory` option seen so far, or the empty string.
/// The first argument is the program name and is not an option.
pub open spec fn spec_dir_upto(args: Seq<Seq<char>>, n: int) -> Seq<char>
    decreases n,
{
    if n <= 1 {
        Seq::<char>::empty()
    } else if args[n - 1] == "--directory"@ && n < args.len() {
        args[n as int]
    } else {
        spec_dir_upto(args, n - 1)
    }
}

/// The directory that a full argument list selects.
pub open spec fn spec_dir_of(args: Seq<Seq<char>>) -> Seq<char> {
    spec_dir_upto(args, args.len() as int)
}

impl Config {
    /// Reads the one recognized option, `--directory <path>`, from the
    /// argument list.  An absent option yields the empty root; a trailing
    /// `--directory` without a value is rejected.
    pub fn from_args(args: Vec<String>) -> (r: Result<Config, &'static str>)
        ensures
            match r {
                Ok(c) => c.directory@ == spec_dir_of(args.deep_view()) && !spec_args_err(
                    args.deep_view(),
                ),
                Err(_) => spec_args_err(args.deep_view()),
            },
    {
        let mut directory = String::new();
        let mut i: usize = 1;
        while i < args.len()
            invariant
                1 <= i,
                i <= args@.len() || i == 1,
                args.deep_view().len() == args@.len(),
                directory@ == spec_dir_upto(args.deep_view(), i as int),
                i == args@.len() && args@.len() >= 2 ==> args.deep_view()[args@.len() - 1]
                    != "--directory"@,
            decreases args@.len() - i,
        {
            proof {
                assert(args.deep_view()[i as int] == args@[i as int]@);
            }
            if strutil::str_eq(args[i].as_str(), "--directory") {
                if i + 1 < args.len() {
                    proof {
                        assert(args.deep_view()[i + 1] == args@[i + 1]@);
                    }
                    directory = args[i + 1].clone();
                } else {
                    return Err("Usage: http_server --directory <directory>");
                }
            }
            i += 1;
        }
        proof {
            if args@.len() <= 1 {
                assert(spec_dir_of(args.deep_view()) == spec_dir_upto(args.deep_view(), 1));
            }
        }
        Ok(Config { directory })
    }
}

} // verus!
