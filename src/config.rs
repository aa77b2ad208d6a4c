use vstd::prelude::*;

use crate::text::str_eq;

verus! {

/// What the program was asked to do.
#[derive(Debug)]
pub struct Config<'a> {
    pub mode: Mode<'a>,
}

/// Populate one data file with a given template, or every data file under a
/// source directory into a destination directory.
#[derive(Debug)]
pub enum Mode<'a> {
    SingleFile { data_file_path: &'a str, template_file_path: &'a str },
    Recursive { src_dir_path: &'a str, dst_dir_path: &'a str },
}

/// The usage message for the program called `program`.
pub open spec fn usage_text(program: Seq<char>) -> Seq<char> {
    "Usage: "@ + program + " <data-file> <template-file>\n   or: "@ + program
        + " -r <source-dir> <dest-dir>"@
}

pub open spec fn not_enough_msg() -> Seq<char> {
    "Not enough arguments provided."@
}

pub open spec fn recursive_arity_msg() -> Seq<char> {
    "Recursive mode requires two parameters."@
}

pub open spec fn single_arity_msg() -> Seq<char> {
    "Single-file mode requires two parameters."@
}

/// Generates a usage message that describes how to use the command line
/// interface, which should be printed to the console; `args[0]` is the
/// program's name.
pub fn print_usage(args: &[String]) -> (r: String)
    requires
        args.len() >= 1,
    ensures
        r@ == usage_text(args@[0]@),
{
    let mut r = "Usage: ".to_owned();
    r.append(args[0].as_str());
    r.append(" <data-file> <template-file>\n   or: ");
    r.append(args[0].as_str());
    r.append(" -r <source-dir> <dest-dir>");
    r
}

impl<'a> Config<'a> {
    /// Parses command line arguments (the program's name first) and returns
    /// a [`Config`] instance, or an error if the arguments are invalid, such
    /// as if not enough arguments are provided. `-r` as the first argument
    /// asks for recursive mode.
    pub fn parse(args: &'a [String]) -> (r: Result<Self, &'static str>)
        ensures
            match r {
                Err(e) => if args.len() < 2 {
                    e@ == not_enough_msg()
                } else if args@[1]@ == "-r"@ {
                    args.len() != 4 && e@ == recursive_arity_msg()
                } else {
                    args.len() != 3 && e@ == single_arity_msg()
                },
                Ok(c) => args.len() >= 2 && if args@[1]@ == "-r"@ {
                    &&& args.len() == 4
                    &&& c.mode matches Mode::Recursive { src_dir_path, dst_dir_path }
                    &&& src_dir_path@ == args@[2]@
                    &&& dst_dir_path@ == args@[3]@
                } else {
                    &&& args.len() == 3
                    &&& c.mode matches Mode::SingleFile { data_file_path, template_file_path }
                    &&& data_file_path@ == args@[1]@
                    &&& template_file_path@ == args@[2]@
                },
            },
    {
        if args.len() < 2 {
            return Err("Not enough arguments provided.");
        }
        if str_eq(args[1].as_str(), "-r") {
            if args.len() != 4 {
                Err("Recursive mode requires two parameters.")
            } else {
                Ok(
                    Config {
                        mode: Mode::Recursive {
                            src_dir_path: args[2].as_str(),
                            dst_dir_path: args[3].as_str(),
                        },
                    },
                )
            }
        } else if args.len() != 3 {
            Err("Single-file mode requires two parameters.")
        } else {
            Ok(
                Config {
                    mode: Mode::SingleFile {
                        data_file_path: args[1].as_str(),
                        template_file_path: args[2].as_str(),
                    },
                },
            )
        }
    }
}

} // verus!
