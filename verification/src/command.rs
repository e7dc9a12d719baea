//! External commands, described as data for the caller to run.
use vstd::prelude::*;

use crate::text::to_owned_string;

verus! {

/// A program and its arguments.
pub struct CommandSpec {
    pub program: String,
    pub args: Vec<String>,
}

pub struct CommandView {
    pub program: Seq<char>,
    pub args: Seq<Seq<char>>,
}

impl View for CommandSpec {
    type V = CommandView;

    open spec fn view(&self) -> CommandView {
        CommandView { program: self.program@, args: self.args.deep_view() }
    }
}

/// An argument list under construction.
pub struct ArgList {
    pub items: Vec<String>,
}

impl ArgList {
    pub fn new() -> (r: ArgList)
        ensures
            r.items.deep_view() == Seq::<Seq<char>>::empty(),
    {
        let r = ArgList { items: Vec::new() };
        assert(r.items.deep_view() =~= Seq::<Seq<char>>::empty());
        r
    }

    pub fn push(&mut self, s: &str)
        ensures
            final(self).items.deep_view() == old(self).items.deep_view().push(s@),
    {
        self.items.push(to_owned_string(s));
        assert(self.items.deep_view() =~= old(self).items.deep_view().push(s@));
    }
}

/// `program` run with `args`.
pub fn command(program: &str, args: ArgList) -> (r: CommandSpec)
    ensures
        r@ == (CommandView { program: program@, args: args.items.deep_view() }),
{
    CommandSpec { program: to_owned_string(program), args: args.items }
}

} // verus!
