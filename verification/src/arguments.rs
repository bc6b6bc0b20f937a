//! The command line: which of its words names the subcommand. What stands
//! behind that word is handed on to the remote build tool untouched.

use crate::script::SubcommandKind;
use vstd::prelude::*;

verus! {

/// The subcommand that `name` names, if it names one.
pub open spec fn subcommand_named(name: Seq<char>) -> Option<SubcommandKind> {
    if name == "build"@ {
        Some(SubcommandKind::Build)
    } else if name == "check"@ {
        Some(SubcommandKind::Check)
    } else if name == "doc"@ {
        Some(SubcommandKind::Doc)
    } else if name == "run"@ {
        Some(SubcommandKind::Run)
    } else if name == "test"@ {
        Some(SubcommandKind::Test)
    } else if name == "bench"@ {
        Some(SubcommandKind::Bench)
    } else {
        None
    }
}

/// Whether the two strings hold the same characters.
fn same(a: &str, b: &str) -> (r: bool)
    ensures
        r == (a@ == b@),
{
    a.to_owned() == b.to_owned()
}

/// The subcommand that `name` names, if it names one.
pub fn parse_subcommand(name: &str) -> (r: Option<SubcommandKind>)
    ensures
        r == subcommand_named(name@),
{
    if same(name, "build") {
        Some(SubcommandKind::Build)
    } else if same(name, "check") {
        Some(SubcommandKind::Check)
    } else if same(name, "doc") {
        Some(SubcommandKind::Doc)
    } else if same(name, "run") {
        Some(SubcommandKind::Run)
    } else if same(name, "test") {
        Some(SubcommandKind::Test)
    } else if same(name, "bench") {
        Some(SubcommandKind::Bench)
    } else {
        None
    }
}

/// Whether `i` is where the subcommand stands in `args`: the first word that
/// names one.
pub open spec fn is_subcommand_position(args: Seq<String>, i: int) -> bool {
    &&& 0 <= i < args.len()
    &&& subcommand_named(args[i]@).is_some()
    &&& forall|j: int| 0 <= j < i ==> subcommand_named(#[trigger] args[j]@).is_none()
}

/// Where the subcommand stands in `args`, or `None` where no word names one.
/// The words behind it are the build tool's, even where one of them is a
/// subcommand's name.
pub fn subcommand_position(args: &Vec<String>) -> (r: Option<usize>)
    ensures
        match r {
            Some(i) => is_subcommand_position(args@, i as int),
            None => forall|j: int|
                0 <= j < args.len() ==> subcommand_named(#[trigger] args[j]@).is_none(),
        },
{
    let mut i: usize = 0;
    while i < args.len()
        invariant
            i <= args.len(),
            forall|j: int| 0 <= j < i ==> subcommand_named(#[trigger] args[j]@).is_none(),
        decreases args.len() - i,
    {
        if parse_subcommand(args[i].as_str()).is_some() {
            return Some(i);
        }
        i += 1;
    }
    None
}

} // verus!
