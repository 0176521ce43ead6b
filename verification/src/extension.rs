//! The editor extension's choice of the language-server binary: the path
//! set in the user's settings, else the binary found on `PATH`, else the
//! first of the usual install locations that exists.

use vstd::prelude::*;
use crate::cli::argv::{push_string, string_views};

verus! {

/// The language server's binary name.
pub const LSP_BINARY: &'static str = "zed-http-lsp";

/// The editor extension.
pub struct HttpExtension {}

/// The message shown when no binary is found.
pub open spec fn not_found_message() -> Seq<char> {
    "could not find `zed-http-lsp` on PATH. Install with `cargo install --path http-lsp` from the zed-http checkout, or set `lsp.zed-http-lsp.binary.path` in your Zed settings."@
}

/// The binary to run: the configured one, else the one on `PATH`, else the
/// fallback.
pub open spec fn chosen_binary(
    configured: Option<String>,
    on_path: Option<String>,
    fallback: Option<String>,
) -> Result<Seq<char>, Seq<char>> {
    match configured {
        Some(c) => Ok(c@),
        None => match on_path {
            Some(p) => Ok(p@),
            None => match fallback {
                Some(f) => Ok(f@),
                None => Err(not_found_message()),
            },
        },
    }
}

impl HttpExtension {
    pub fn new() -> Self {
        HttpExtension {  }
    }

    /// The language-server binary to start, from the configured path, the
    /// path lookup and the fallback location, in that order of preference;
    /// or the message that explains how to install it.
    pub fn server_binary(
        configured: Option<String>,
        on_path: Option<String>,
        fallback: Option<String>,
    ) -> (r: Result<String, String>)
        ensures
            match r {
                Ok(b) => chosen_binary(configured, on_path, fallback) == Ok::<Seq<char>, Seq<char>>(b@),
                Err(m) => chosen_binary(configured, on_path, fallback) == Err::<Seq<char>, Seq<char>>(m@),
            },
    {
        match configured {
            Some(c) => Ok(c),
            None => match on_path {
                Some(p) => Ok(p),
                None => match fallback {
                    Some(f) => Ok(f),
                    None => Err(
                        String::from_str(
                            "could not find `zed-http-lsp` on PATH. Install with `cargo install --path http-lsp` from the zed-http checkout, or set `lsp.zed-http-lsp.binary.path` in your Zed settings.",
                        ),
                    ),
                },
            },
        }
    }
}

/// The usual install locations of the binary, in the order they are tried:
/// `~/.cargo/bin`, `~/.local/bin` (when the home directory is known), then
/// `/usr/local/bin`.
pub open spec fn fallback_candidates_view(home: Option<String>) -> Seq<Seq<char>> {
    match home {
        Some(h) => seq![
            h@ + "/.cargo/bin/zed-http-lsp"@,
            h@ + "/.local/bin/zed-http-lsp"@,
            "/usr/local/bin/zed-http-lsp"@,
        ],
        None => seq!["/usr/local/bin/zed-http-lsp"@],
    }
}

/// The usual install locations of the binary.
pub fn fallback_candidates(home: Option<String>) -> (v: Vec<String>)
    ensures
        string_views(v@) == fallback_candidates_view(home),
{
    let mut v: Vec<String> = Vec::new();
    match &home {
        Some(h) => {
            let mut cargo = h.clone();
            cargo.append("/.cargo/bin/zed-http-lsp");
            push_string(&mut v, &cargo);
            let mut local = h.clone();
            local.append("/.local/bin/zed-http-lsp");
            push_string(&mut v, &local);
        },
        None => {},
    }
    let usr = String::from_str("/usr/local/bin/zed-http-lsp");
    push_string(&mut v, &usr);
    proof {
        assert(string_views(v@) =~= fallback_candidates_view(home));
    }
    v
}

/// The first candidate that exists, `exists[i]` telling whether
/// `candidates[i]` does.
pub open spec fn first_existing(candidates: Seq<String>, exists: Seq<bool>) -> Option<String>
    decreases candidates.len(),
{
    if candidates.len() == 0 || exists.len() == 0 {
        None
    } else if exists[0] {
        Some(candidates[0])
    } else {
        first_existing(candidates.drop_first(), exists.drop_first())
    }
}

/// The first of the install locations that exists.
pub fn fallback_path(candidates: &Vec<String>, exists: &Vec<bool>) -> (r: Option<String>)
    requires
        exists.len() == candidates.len(),
    ensures
        match r {
            Some(p) => first_existing(candidates@, exists@) matches Some(q) && p@ == q@,
            None => first_existing(candidates@, exists@) is None,
        },
{
    let mut i: usize = 0;
    proof {
        assert(candidates@.skip(0) =~= candidates@);
        assert(exists@.skip(0) =~= exists@);
    }
    while i < candidates.len()
        invariant
            i <= candidates.len() == exists.len(),
            first_existing(candidates@, exists@) == first_existing(
                candidates@.skip(i as int),
                exists@.skip(i as int),
            ),
        decreases candidates.len() - i,
    {
        proof {
            assert(candidates@.skip(i as int).drop_first() =~= candidates@.skip(i + 1));
            assert(exists@.skip(i as int).drop_first() =~= exists@.skip(i + 1));
        }
        if exists[i] {
            return Some(candidates[i].clone());
        }
        i += 1;
    }
    None
}

} // verus!
