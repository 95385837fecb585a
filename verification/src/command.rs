//! A program invocation that the installer hands to the operating system:
//! the program's name and its arguments, in order.

use vstd::prelude::*;
use vstd::string::*;

use crate::text::strings_view;

verus! {

/// A program to run and the arguments it is given.
#[derive(Debug, PartialEq, Eq)]
pub struct ShellCommand {
    pub program: String,
    pub args: Vec<String>,
}

/// The mathematical form of a command: the program's characters and the
/// characters of each argument.
pub type CommandView = (Seq<char>, Seq<Seq<char>>);

impl View for ShellCommand {
    type V = CommandView;

    open spec fn view(&self) -> CommandView {
        (self.program@, strings_view(self.args@))
    }
}

/// The views of a list of commands.
pub open spec fn commands_view(v: Seq<ShellCommand>) -> Seq<CommandView> {
    v.map_values(|c: ShellCommand| c@)
}

/// The characters of each string slice, in order.
pub open spec fn strs_view(v: Seq<&str>) -> Seq<Seq<char>> {
    v.map_values(|x: &str| x@)
}

/// Owned copies of string slices.
pub fn strs_to_strings(v: &Vec<&str>) -> (r: Vec<String>)
    ensures
        strings_view(r@) == strs_view(v@),
{
    let mut r: Vec<String> = Vec::new();
    let mut i: usize = 0;
    while i < v.len()
        invariant
            i <= v@.len(),
            strings_view(r@) == strs_view(v@.subrange(0, i as int)),
        decreases v@.len() - i,
    {
        let ghost before = r@;
        r.push(String::from_str(v[i]));
        assert(strings_view(r@) =~= strings_view(before).push(v@[i as int]@));
        assert(v@.subrange(0, i + 1) =~= v@.subrange(0, i as int).push(v@[i as int]));
        i = i + 1;
    }
    assert(v@.subrange(0, v@.len() as int) =~= v@);
    r
}

/// A command whose program and arguments are given as string slices.
pub fn command(program: &str, args: Vec<&str>) -> (c: ShellCommand)
    ensures
        c@ == (program@, strs_view(args@)),
{
    ShellCommand { program: String::from_str(program), args: strs_to_strings(&args) }
}

} // verus!
