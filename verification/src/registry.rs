//! The registry of builtin commands: a mapping from command name to the
//! builtin action, built once at startup and read-only afterwards.

use crate::text::str_eq;
use vstd::prelude::*;

verus! {

/// The closed set of builtin actions the shell knows.
#[derive(Clone, Copy, PartialEq, Eq, Debug, Structural)]
pub enum Builtin {
    /// Terminate the process with the given code.
    Exit,
    /// Write the arguments back, joined by single spaces.
    Echo,
    /// Classify a command name as a builtin, an external program, or unknown.
    Type,
    /// Write the current working directory.
    Pwd,
}

struct RegistryEntry {
    name: String,
    action: Builtin,
}

/// The builtin registry. Its model is a map from command name to action;
/// a later insertion under the same name replaces the earlier one.
pub struct Registry {
    entries: Vec<RegistryEntry>,
}

spec fn entries_map(entries: Seq<RegistryEntry>) -> Map<Seq<char>, Builtin>
    decreases entries.len(),
{
    if entries.len() == 0 {
        Map::empty()
    } else {
        entries_map(entries.drop_last()).insert(entries.last().name@, entries.last().action)
    }
}

impl View for Registry {
    type V = Map<Seq<char>, Builtin>;

    closed spec fn view(&self) -> Map<Seq<char>, Builtin> {
        entries_map(self.entries@)
    }
}

impl Registry {
    /// An empty registry: it knows no command at all.
    pub fn new() -> (r: Registry)
        ensures
            r@ == Map::<Seq<char>, Builtin>::empty(),
    {
        Registry { entries: Vec::new() }
    }

    /// Registers `action` under `name`, replacing any earlier registration.
    pub fn insert(&mut self, name: &str, action: Builtin)
        ensures
            final(self)@ == old(self)@.insert(name@, action),
    {
        self.entries.push(RegistryEntry { name: String::from_str(name), action });
        proof {
            assert(self.entries@.drop_last() =~= old(self).entries@);
        }
    }

    /// Looks a command name up: the registered action, or `None`.
    pub fn lookup(&self, name: &str) -> (r: Option<Builtin>)
        ensures
            match r {
                Some(b) => self@.contains_key(name@) && self@[name@] == b,
                None => !self@.contains_key(name@),
            },
    {
        let mut i: usize = self.entries.len();
        proof {
            assert(self.entries@.take(i as int) =~= self.entries@);
        }
        while i > 0
            invariant
                i <= self.entries@.len(),
                entries_map(self.entries@).contains_key(name@) == entries_map(
                    self.entries@.take(i as int),
                ).contains_key(name@),
                entries_map(self.entries@.take(i as int)).contains_key(name@) ==> entries_map(
                    self.entries@.take(i as int),
                )[name@] == entries_map(self.entries@)[name@],
            decreases i,
        {
            let e = &self.entries[i - 1];
            proof {
                assert(self.entries@.take(i as int).last() == self.entries@[i - 1]);
                assert(self.entries@.take(i as int).drop_last() =~= self.entries@.take(i - 1));
            }
            if str_eq(e.name.as_str(), name) {
                return Some(e.action);
            }
            i -= 1;
        }
        proof {
            assert(self.entries@.take(0).len() == 0);
        }
        None
    }
}

/// The four builtin names and their actions, as registered at startup.
pub open spec fn spec_initial_registry() -> Map<Seq<char>, Builtin> {
    Map::<Seq<char>, Builtin>::empty().insert("exit"@, Builtin::Exit).insert(
        "echo"@,
        Builtin::Echo,
    ).insert("type"@, Builtin::Type).insert("pwd"@, Builtin::Pwd)
}

/// Registers the four builtins of the shell: `exit`, `echo`, `type`, `pwd`.
pub fn initialize_shell_builtins(builtins: &mut Registry)
    ensures
        final(builtins)@ == old(builtins)@.insert("exit"@, Builtin::Exit).insert(
            "echo"@,
            Builtin::Echo,
        ).insert("type"@, Builtin::Type).insert("pwd"@, Builtin::Pwd),
        old(builtins)@ == Map::<Seq<char>, Builtin>::empty() ==> final(builtins)@
            == spec_initial_registry(),
{
    builtins.insert("exit", Builtin::Exit);
    builtins.insert("echo", Builtin::Echo);
    builtins.insert("type", Builtin::Type);
    builtins.insert("pwd", Builtin::Pwd);
}

/// Whether a command name is a registered builtin.
pub fn is_valid(builtins: &Registry, input: &str) -> (r: bool)
    ensures
        r == builtins@.contains_key(input@),
{
    builtins.lookup(input).is_some()
}

/// Law: in the registry the shell starts with, lookup succeeds exactly on
/// the four builtin names, and each name is mapped to its own action.
pub proof fn lemma_initial_registry_lookup(reg: Map<Seq<char>, Builtin>, name: Seq<char>)
    requires
        reg == spec_initial_registry(),
    ensures
        reg.contains_key(name) <==> (name == "exit"@ || name == "echo"@ || name == "type"@
            || name == "pwd"@),
        reg.contains_key("exit"@) && reg["exit"@] == Builtin::Exit,
        reg.contains_key("echo"@) && reg["echo"@] == Builtin::Echo,
        reg.contains_key("type"@) && reg["type"@] == Builtin::Type,
        reg.contains_key("pwd"@) && reg["pwd"@] == Builtin::Pwd,
{
    reveal_strlit("exit");
    reveal_strlit("echo");
    reveal_strlit("type");
    reveal_strlit("pwd");
    assert("exit"@.len() == 4 && "echo"@.len() == 4 && "type"@.len() == 4 && "pwd"@.len() == 3);
    assert("exit"@[0] == 'e' && "echo"@[1] == 'c' && "exit"@[1] == 'x' && "type"@[0] == 't');
}

} // verus!
