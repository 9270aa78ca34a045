//! The arguments of a run.

use vstd::prelude::*;

verus! {

/// What a run works on: the pattern to look for and the files to look in.
#[derive(Debug, PartialEq, Eq, Clone)]
pub struct Config {
    pub regex_query: String,
    pub filenames: Vec<String>,
}

/// The message for an argument list that holds no pattern.
pub open spec fn missing_query_message() -> Seq<char> {
    "insufficient amount of passed arguments: needs a query string"@
}

/// The message for an argument list that holds a pattern and no file.
pub open spec fn missing_file_message() -> Seq<char> {
    "insufficient amount of passed arguments: needs at least one file argument"@
}

impl Config {
    /// A configuration names at least one file.
    pub open spec fn is_valid(&self) -> bool {
        self.filenames@.len() >= 1
    }

    /// Whether this configuration is the one that the argument list `args`
    /// asks for: its second entry is the pattern, the entries after it are the
    /// files, in order. The first entry, the program's own name, is not used.
    pub open spec fn is_read_from(&self, args: Seq<String>) -> bool {
        &&& args.len() >= 3
        &&& self.regex_query@ == args[1]@
        &&& self.filenames@.len() == args.len() - 2
        &&& forall|i: int|
            0 <= i < self.filenames@.len() ==> (#[trigger] self.filenames@[i])@ == args[i + 2]@
    }

    /// Reads a configuration from the arguments of the process, the program's
    /// name first. A list without a pattern or without a file is refused, with
    /// the message that says which of the two is missing.
    pub fn new(system_args: Vec<String>) -> (result: Result<Config, &'static str>)
        ensures
            system_args@.len() < 2 ==> result is Err && result->Err_0@ == missing_query_message(),
            system_args@.len() == 2 ==> result is Err && result->Err_0@ == missing_file_message(),
            system_args@.len() >= 3 ==> result is Ok && result->Ok_0.is_read_from(system_args@)
                && result->Ok_0.is_valid(),
    {
        let count = system_args.len();
        if count < 2 {
            return Err("insufficient amount of passed arguments: needs a query string");
        }
        if count < 3 {
            return Err("insufficient amount of passed arguments: needs at least one file argument");
        }
        let regex_query = system_args[1].clone();
        let mut filenames: Vec<String> = Vec::new();
        let mut next: usize = 2;
        while next < count
            invariant
                count == system_args@.len(),
                2 <= next <= count,
                filenames@.len() == next - 2,
                forall|i: int|
                    0 <= i < filenames@.len() ==> (#[trigger] filenames@[i])@ == system_args@[i
                        + 2]@,
            decreases count - next,
        {
            filenames.push(system_args[next].clone());
            next += 1;
        }
        Ok(Config { regex_query, filenames })
    }
}

} // verus!
