//! The command-line surface of `httpyac-rs`: it mirrors the flags of the
//! `httpyac` CLI and forwards every invocation to the `httpyac` binary.

pub mod argv;
pub mod oauth2;
pub mod send;

use vstd::prelude::*;
use crate::cli::argv::{push_string, string_views};
use crate::cli::oauth2::{oauth2_argv, Oauth2Args};
use crate::cli::send::{send_argv, SendArgs};

verus! {

/// The parsed command line.
#[derive(Debug)]
pub struct Cli {
    pub command: Command,
}

/// The subcommands.
#[derive(Debug)]
pub enum Command {
    /// Send/execute http files.
    Send(SendArgs),
    /// Generate an OAuth2 token.
    Oauth2(Oauth2Args),
}

/// The arguments `httpyac` is run with for a subcommand: the subcommand's
/// name, then its forwarded arguments.
pub open spec fn proxy_argv(command: Command) -> Seq<Seq<char>> {
    match command {
        Command::Send(a) => seq!["send"@] + send_argv(a),
        Command::Oauth2(a) => seq!["oauth2"@] + oauth2_argv(a),
    }
}

impl Command {
    /// The arguments that the `httpyac` binary is run with to carry out this
    /// subcommand.
    pub fn proxy_argv(&self) -> (argv: Vec<String>)
        ensures
            string_views(argv@) == proxy_argv(*self),
    {
        let (name, rest) = match self {
            Command::Send(a) => ("send", a.to_argv()),
            Command::Oauth2(a) => ("oauth2", a.to_argv()),
        };
        let mut argv: Vec<String> = Vec::new();
        argv.push(String::from_str(name));
        let mut i: usize = 0;
        while i < rest.len()
            invariant
                i <= rest.len(),
                string_views(argv@) == seq![name@] + string_views(rest@.take(i as int)),
            decreases rest.len() - i,
        {
            push_string(&mut argv, &rest[i]);
            proof {
                assert(string_views(argv@) =~= seq![name@] + string_views(rest@.take(i + 1)));
            }
            i += 1;
        }
        proof {
            assert(rest@.take(rest.len() as int) =~= rest@);
            assert(string_views(argv@) =~= proxy_argv(*self));
        }
        argv
    }
}

} // verus!
