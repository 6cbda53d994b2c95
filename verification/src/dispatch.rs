//! The dispatcher: one command line in, one plan out. The plan says what
//! the shell should do next; everything the shell decides is decided here,
//! so the surrounding loop only performs input, output, probing the
//! filesystem and spawning processes.

use crate::numparse::parse_i32;
use crate::numparse::spec_parse_i32;
use crate::output::echo_output;
use crate::output::spec_echo_line;
use crate::output::spec_type_builtin_line;
use crate::output::type_builtin_output;
use crate::registry::Builtin;
use crate::registry::Registry;
use crate::tokenize::spec_tokens;
use crate::tokenize::tokenize;
use vstd::prelude::*;

verus! {

/// What the shell should do with one line of input.
pub enum Plan {
    /// Do nothing and prompt again: a blank line, or a builtin invocation
    /// the shell ignores (a missing or malformed argument).
    Silent,
    /// Terminate the process with this exit code.
    Exit(i32),
    /// Write this text to standard output.
    Print(String),
    /// Read the current working directory, then write `pwd_output` of it.
    QueryCwd,
    /// Resolve this name on the search path, then write
    /// `type_resolved_output` of name and outcome.
    ResolveForType(String),
    /// Resolve `name` on the search path; spawn it with `args` and copy its
    /// standard output when found, else write `not_found_output` of the line.
    RunExternal { name: String, args: Vec<String> },
}

/// Copies every element of the vector but the first.
fn tail_of(v: &Vec<String>) -> (r: Vec<String>)
    requires
        v@.len() >= 1,
    ensures
        r.deep_view() == v.deep_view().skip(1),
{
    let mut out: Vec<String> = Vec::new();
    let mut i: usize = 1;
    while i < v.len()
        invariant
            1 <= i <= v@.len(),
            out.deep_view() == v.deep_view().subrange(1, i as int),
        decreases v@.len() - i,
    {
        let ghost prev = out.deep_view();
        out.push(v[i].clone());
        proof {
            assert(out.deep_view() =~= prev.push(v.deep_view()[i as int]));
            assert(out.deep_view() =~= v.deep_view().subrange(1, i + 1));
        }
        i += 1;
    }
    proof {
        assert(out.deep_view() =~= v.deep_view().skip(1));
    }
    out
}

/// Decides what one line of input asks for. The first token picks the
/// command: a registered builtin is dispatched on its action, anything
/// else is an external command to be resolved on the search path, and a
/// line with no tokens asks for nothing.
pub fn plan(builtins: &Registry, line: &str) -> (r: Plan)
    ensures
        ({
            let toks = spec_tokens(line@);
            &&& toks.len() == 0 ==> r == Plan::Silent
            &&& toks.len() > 0 && !builtins@.contains_key(toks[0]) ==> (r matches
                Plan::RunExternal { name, args } && name@ == toks[0] && args.deep_view()
                == toks.skip(1))
            &&& toks.len() > 0 && builtins@.contains_key(toks[0]) && builtins@[toks[0]]
                == Builtin::Exit ==> {
                if toks.len() >= 2 && spec_parse_i32(toks[1]) is Some {
                    r matches Plan::Exit(code) && Some(code) == spec_parse_i32(toks[1])
                } else {
                    r == Plan::Silent
                }
            }
            &&& toks.len() > 0 && builtins@.contains_key(toks[0]) && builtins@[toks[0]]
                == Builtin::Echo ==> (r matches Plan::Print(msg) && msg@ == spec_echo_line(
                toks.skip(1),
            ))
            &&& toks.len() > 0 && builtins@.contains_key(toks[0]) && builtins@[toks[0]]
                == Builtin::Type ==> {
                if toks.len() < 2 {
                    r == Plan::Silent
                } else if builtins@.contains_key(toks[1]) {
                    r matches Plan::Print(msg) && msg@ == spec_type_builtin_line(toks[1])
                } else {
                    r matches Plan::ResolveForType(name) && name@ == toks[1]
                }
            }
            &&& toks.len() > 0 && builtins@.contains_key(toks[0]) && builtins@[toks[0]]
                == Builtin::Pwd ==> r == Plan::QueryCwd
        }),
{
    let tokens = tokenize(line);
    if tokens.len() == 0 {
        return Plan::Silent;
    }
    proof {
        assert(tokens.deep_view()[0] == tokens@[0]@);
    }
    match builtins.lookup(tokens[0].as_str()) {
        Some(Builtin::Exit) => {
            if tokens.len() >= 2 {
                proof {
                    assert(tokens.deep_view()[1] == tokens@[1]@);
                }
                match parse_i32(tokens[1].as_str()) {
                    Some(code) => Plan::Exit(code),
                    None => Plan::Silent,
                }
            } else {
                Plan::Silent
            }
        },
        Some(Builtin::Echo) => {
            let args = tail_of(&tokens);
            Plan::Print(echo_output(&args))
        },
        Some(Builtin::Type) => {
            if tokens.len() >= 2 {
                proof {
                    assert(tokens.deep_view()[1] == tokens@[1]@);
                }
                match builtins.lookup(tokens[1].as_str()) {
                    Some(_) => Plan::Print(type_builtin_output(tokens[1].as_str())),
                    None => Plan::ResolveForType(tokens[1].clone()),
                }
            } else {
                Plan::Silent
            }
        },
        Some(Builtin::Pwd) => Plan::QueryCwd,
        None => {
            let args = tail_of(&tokens);
            Plan::RunExternal { name: tokens[0].clone(), args }
        },
    }
}

} // verus!
