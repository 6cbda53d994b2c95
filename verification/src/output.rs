//! The exact text each command writes to standard output.

use crate::text::spec_trim;
use crate::text::trim;
use vstd::prelude::*;

verus! {

/// The arguments joined by single spaces.
pub open spec fn spec_join_spaces(items: Seq<Seq<char>>) -> Seq<char>
    decreases items.len(),
{
    if items.len() == 0 {
        Seq::empty()
    } else if items.len() == 1 {
        items[0]
    } else {
        spec_join_spaces(items.drop_last()) + seq![' '] + items.last()
    }
}

/// What `echo` writes: its arguments joined by single spaces, then a newline.
pub open spec fn spec_echo_line(items: Seq<Seq<char>>) -> Seq<char> {
    spec_join_spaces(items).push('\n')
}

/// The line `echo` writes for the given arguments.
pub fn echo_output(args: &Vec<String>) -> (r: String)
    ensures
        r@ == spec_echo_line(args.deep_view()),
{
    let mut out = String::new();
    let mut i: usize = 0;
    proof {
        assert(args.deep_view().take(0) =~= Seq::<Seq<char>>::empty());
    }
    while i < args.len()
        invariant
            i <= args.deep_view().len(),
            args.deep_view().len() == args@.len(),
            out@ == spec_join_spaces(args.deep_view().take(i as int)),
        decreases args@.len() - i,
    {
        if i > 0 {
            out.append(" ");
        }
        out.append(args[i].as_str());
        proof {
            reveal_strlit(" ");
            let items = args.deep_view();
            assert(items.take(i + 1).last() == items[i as int]);
            assert(items.take(i + 1).drop_last() =~= items.take(i as int));
            if i == 0 {
                assert(out@ =~= spec_join_spaces(items.take(1)));
            } else {
                assert(" "@ =~= seq![' ']);
                assert(out@ =~= spec_join_spaces(items.take(i + 1)));
            }
        }
        i += 1;
    }
    out.append("\n");
    proof {
        reveal_strlit("\n");
        assert(args.deep_view().take(args.deep_view().len() as int) =~= args.deep_view());
        assert(out@ =~= spec_echo_line(args.deep_view()));
    }
    out
}

/// What `pwd` writes: the working directory, then a newline.
pub open spec fn spec_pwd_line(cwd: Seq<char>) -> Seq<char> {
    cwd.push('\n')
}

/// The line `pwd` writes for the given working directory.
pub fn pwd_output(cwd: &str) -> (r: String)
    ensures
        r@ == spec_pwd_line(cwd@),
{
    let mut out = String::from_str(cwd);
    out.append("\n");
    proof {
        reveal_strlit("\n");
        assert(out@ =~= spec_pwd_line(cwd@));
    }
    out
}

/// What `type` writes for a name registered as a builtin.
pub open spec fn spec_type_builtin_line(name: Seq<char>) -> Seq<char> {
    name + " is a shell builtin\n"@
}

/// What `type` writes for a name resolved to an executable path.
pub open spec fn spec_type_path_line(name: Seq<char>, path: Seq<char>) -> Seq<char> {
    name + " is "@ + path + "\n"@
}

/// What `type` writes for a name it cannot place.
pub open spec fn spec_type_not_found_line(name: Seq<char>) -> Seq<char> {
    name + ": not found\n"@
}

/// The line `type` writes for a name registered as a builtin.
pub fn type_builtin_output(name: &str) -> (r: String)
    ensures
        r@ == spec_type_builtin_line(name@),
{
    let mut out = String::from_str(name);
    out.append(" is a shell builtin\n");
    out
}

/// The line `type` writes for a name that is not a builtin, from the
/// outcome of resolving it on the search path.
pub fn type_resolved_output(name: &str, resolved: &Option<String>) -> (r: String)
    ensures
        match resolved {
            Some(path) => r@ == spec_type_path_line(name@, path@),
            None => r@ == spec_type_not_found_line(name@),
        },
{
    let mut out = String::from_str(name);
    match resolved {
        Some(path) => {
            out.append(" is ");
            out.append(path.as_str());
            out.append("\n");
        },
        None => {
            out.append(": not found\n");
        },
    }
    out
}

/// What the dispatcher writes for a command that is neither a builtin nor
/// found on the search path: the trimmed input line, then the report.
pub open spec fn spec_not_found_line(line: Seq<char>) -> Seq<char> {
    spec_trim(line) + ": command not found\n"@
}

/// The report for a command line whose command cannot be found.
pub fn not_found_output(line: &str) -> (r: String)
    ensures
        r@ == spec_not_found_line(line@),
{
    let mut out = trim(line);
    out.append(": command not found\n");
    out
}

} // verus!
