//! How a request is sent through the httpyac CLI: `httpyac send <file>
//! --line <N+1> --json --output exchange --no-color`, run in the file's
//! directory (httpyac wants the file inside its working directory).

use vstd::prelude::*;
use crate::cli::argv::{push_str, push_string, string_views};
use crate::error::Error;
use crate::extern_calls::{file_name_of, is_component_of, parent_of};
use crate::text::{decimal, decimal_string};

verus! {

/// Options for sending a request.
pub struct SendOptions<'a> {
    /// Name or path of the httpyac binary. Usually just `"httpyac"`.
    pub binary: &'a str,
    /// Absolute path to the `.http` file to send.
    pub file: &'a str,
    /// 0-indexed line of the request to execute; httpyac's 1-indexed
    /// `--line` flag is given this plus one.
    pub line: u32,
}

/// A process to start: the program, its working directory and arguments.
pub struct Invocation {
    pub program: String,
    pub cwd: String,
    pub args: Vec<String>,
}

/// The arguments of `httpyac send` for the file named `file_name` and the
/// request at 0-indexed `line`.
pub open spec fn send_exchange_args(file_name: Seq<char>, line: u32) -> Seq<Seq<char>> {
    seq![
        "send"@,
        file_name,
        "--line"@,
        decimal(line as nat + 1),
        "--json"@,
        "--output"@,
        "exchange"@,
        "--no-color"@,
    ]
}

/// The arguments of `httpyac send` for the file named `file_name` and the
/// request at 0-indexed `line`.
pub fn exchange_args(file_name: &String, line: u32) -> (args: Vec<String>)
    requires
        line < u32::MAX,
    ensures
        string_views(args@) == send_exchange_args(file_name@, line),
{
    let line_arg = decimal_string(line as u64 + 1);
    let mut args: Vec<String> = Vec::new();
    push_str(&mut args, "send");
    push_string(&mut args, file_name);
    push_str(&mut args, "--line");
    push_string(&mut args, &line_arg);
    push_str(&mut args, "--json");
    push_str(&mut args, "--output");
    push_str(&mut args, "exchange");
    push_str(&mut args, "--no-color");
    proof {
        assert(string_views(args@) =~= send_exchange_args(file_name@, line));
    }
    args
}

/// The process that sends the request, from the parent directory and the
/// file name of the request file's path (`None` where the path has none):
/// the binary, run in that directory, with that name; or `NoParent` of the
/// file when either is missing, whatever the line.
pub fn invocation_from(
    binary: &str,
    file: &str,
    line: u32,
    parent: Option<String>,
    name: Option<String>,
) -> (r: Result<Invocation, Error>)
    requires
        parent is Some && name is Some ==> line < u32::MAX,
    ensures
        match (parent, name) {
            (Some(p), Some(n)) => r matches Ok(inv) && inv.program@ == binary@ && inv.cwd@ == p@
                && string_views(inv.args@) == send_exchange_args(n@, line),
            _ => r matches Err(Error::NoParent(f)) && f@ == file@,
        },
{
    let parent = match parent {
        Some(d) => d,
        None => return Err(Error::NoParent(String::from_str(file))),
    };
    let file_name = match name {
        Some(n) => n,
        None => return Err(Error::NoParent(String::from_str(file))),
    };
    let args = exchange_args(&file_name, line);
    Ok(Invocation { program: String::from_str(binary), cwd: parent, args })
}

impl<'a> SendOptions<'a> {
    /// The process that sends the request: the binary, run in the file's
    /// directory, with the file's name; or `NoParent` when the file's path
    /// has no parent directory or no file name, whatever the line. `None`
    /// when the path has both but the 1-indexed line does not fit in a `u32`
    /// (the line is `u32::MAX`).
    pub fn invocation(&self) -> (r: Option<Result<Invocation, Error>>)
        ensures
            self.line < u32::MAX ==> r is Some,
            r is None ==> self.line == u32::MAX,
            match r {
                Some(Ok(inv)) => {
                    &&& inv.program@ == self.binary@
                    &&& inv.cwd@.is_prefix_of(self.file@)
                    &&& inv.args.len() == 8
                    &&& string_views(inv.args@) == send_exchange_args(inv.args@[1]@, self.line)
                    &&& is_component_of(inv.args@[1]@, self.file@)
                },
                Some(Err(e)) => e matches Error::NoParent(p) && p@ == self.file@,
                None => true,
            },
    {
        let parent = parent_of(self.file);
        let name = file_name_of(self.file);
        if parent.is_some() && name.is_some() && self.line == u32::MAX {
            return None;
        }
        let r = invocation_from(self.binary, self.file, self.line, parent, name);
        proof {
            if r is Ok {
                let inv = r->Ok_0;
                let n = name->Some_0;
                let v = string_views(inv.args@);
                let expected = send_exchange_args(n@, self.line);
                assert(expected.len() == 8 && expected[1] == n@);
                assert(v.len() == 8);
                assert(v[1] == inv.args@[1]@);
                assert(inv.args@[1]@ == n@);
            }
        }
        Some(r)
    }
}

} // verus!
