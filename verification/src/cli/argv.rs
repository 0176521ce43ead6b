//! Pieces of a command line: switches, options with a value, and repeated
//! options, in the form that `httpyac` reads them.

use vstd::prelude::*;
use crate::text::{decimal, decimal_string};

verus! {

/// The texts of a sequence of strings.
pub open spec fn string_views(s: Seq<String>) -> Seq<Seq<char>> {
    Seq::new(s.len(), |i: int| s[i]@)
}

/// `[name]` when the switch is on, nothing otherwise.
#[verifier::opaque]
pub open spec fn switch(on: bool, name: Seq<char>) -> Seq<Seq<char>> {
    if on {
        seq![name]
    } else {
        Seq::empty()
    }
}

/// `name v` for each value `v`, in order.
pub open spec fn each(name: Seq<char>, values: Seq<String>) -> Seq<Seq<char>>
    decreases values.len(),
{
    if values.len() == 0 {
        Seq::empty()
    } else {
        each(name, values.drop_last()) + seq![name, values.last()@]
    }
}

/// `name v` when a text value is given, nothing otherwise.
#[verifier::opaque]
pub open spec fn opt_text(name: Seq<char>, value: Option<String>) -> Seq<Seq<char>> {
    match value {
        Some(v) => seq![name, v@],
        None => Seq::empty(),
    }
}

/// `name N` (N in decimal) when a number is given, nothing otherwise.
#[verifier::opaque]
pub open spec fn opt_number(name: Seq<char>, value: Option<u32>) -> Seq<Seq<char>> {
    match value {
        Some(n) => seq![name, decimal(n as nat)],
        None => Seq::empty(),
    }
}

/// Appends `s` to the command line.
pub fn push_str(argv: &mut Vec<String>, s: &str)
    ensures
        string_views(final(argv)@) == string_views(old(argv)@).push(s@),
{
    argv.push(String::from_str(s));
    proof {
        assert(string_views(argv@) =~= string_views(old(argv)@).push(s@));
    }
}

/// Appends a copy of `s` to the command line.
pub fn push_string(argv: &mut Vec<String>, s: &String)
    ensures
        string_views(final(argv)@) == string_views(old(argv)@).push(s@),
{
    argv.push(s.clone());
    proof {
        assert(string_views(argv@) =~= string_views(old(argv)@).push(s@));
    }
}

/// Appends `name` when the switch is on.
pub fn push_switch(argv: &mut Vec<String>, on: bool, name: &str)
    ensures
        string_views(final(argv)@) == string_views(old(argv)@) + switch(on, name@),
{
    reveal(switch);
    if on {
        push_str(argv, name);
    }
    proof {
        assert(string_views(argv@) =~= string_views(old(argv)@) + switch(on, name@));
    }
}

/// Appends `name v` for each of `values`.
pub fn push_each(argv: &mut Vec<String>, name: &str, values: &Vec<String>)
    ensures
        string_views(final(argv)@) == string_views(old(argv)@) + each(name@, values@),
{
    let ghost start = string_views(argv@);
    let mut i: usize = 0;
    while i < values.len()
        invariant
            i <= values.len(),
            string_views(argv@) == start + each(name@, values@.take(i as int)),
        decreases values.len() - i,
    {
        push_str(argv, name);
        push_string(argv, &values[i]);
        proof {
            assert(values@.take(i + 1).drop_last() =~= values@.take(i as int));
            assert(values@.take(i + 1).last() == values@[i as int]);
            assert(string_views(argv@) =~= start + each(name@, values@.take(i + 1)));
        }
        i += 1;
    }
    proof {
        assert(values@.take(values.len() as int) =~= values@);
    }
}

/// Appends `name v` when a text value is given.
pub fn push_opt_text(argv: &mut Vec<String>, name: &str, value: &Option<String>)
    ensures
        string_views(final(argv)@) == string_views(old(argv)@) + opt_text(name@, *value),
{
    reveal(opt_text);
    match value {
        Some(v) => {
            push_str(argv, name);
            push_string(argv, v);
        },
        None => {},
    }
    proof {
        assert(string_views(argv@) =~= string_views(old(argv)@) + opt_text(name@, *value));
    }
}

/// Appends `name N` when a number is given.
pub fn push_opt_number(argv: &mut Vec<String>, name: &str, value: Option<u32>)
    ensures
        string_views(final(argv)@) == string_views(old(argv)@) + opt_number(name@, value),
{
    reveal(opt_number);
    match value {
        Some(n) => {
            push_str(argv, name);
            let digits = decimal_string(n as u64);
            push_string(argv, &digits);
        },
        None => {},
    }
    proof {
        assert(string_views(argv@) =~= string_views(old(argv)@) + opt_number(name@, value));
    }
}

/// A repeated option gives two entries per value.
pub proof fn lemma_each_len(name: Seq<char>, values: Seq<String>)
    ensures
        each(name, values).len() == 2 * values.len(),
    decreases values.len(),
{
    if values.len() > 0 {
        lemma_each_len(name, values.drop_last());
    }
}

} // verus!
