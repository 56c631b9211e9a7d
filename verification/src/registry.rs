//! The command registry: a read-after-init table from command name
//! to command spec, looked up case-insensitively.

use vstd::prelude::*;

use crate::codec::{CommandSpec, CommandSpecView, ConfigurationError};
use crate::text::{eq_ignore_case, str_eq_ci};

verus! {

/// A registry lookup missed: no spec is registered under the
/// command name.
#[derive(Debug)]
pub struct UnknownCommandError {
    command: String,
}

impl View for UnknownCommandError {
    type V = Seq<char>;

    closed spec fn view(&self) -> Seq<char> {
        self.command@
    }
}

impl UnknownCommandError {
    /// The command name that missed.
    pub fn command(&self) -> (r: &str)
        ensures
            r@ == self@,
    {
        self.command.as_str()
    }
}

/// The first registered spec whose name is the given name up to
/// ASCII case, if any.
pub open spec fn spec_registry_lookup(specs: Seq<CommandSpecView>, name: Seq<char>) -> Option<
    CommandSpecView,
>
    decreases specs.len(),
{
    if specs.len() == 0 {
        None
    } else if str_eq_ci(specs[0].name, name) {
        Some(specs[0])
    } else {
        spec_registry_lookup(specs.drop_first(), name)
    }
}

/// Associates command names with their specs. Populated once before
/// use; a lookup never changes it.
pub struct CommandRegistry {
    specs: Vec<CommandSpec>,
}

impl View for CommandRegistry {
    type V = Seq<CommandSpecView>;

    closed spec fn view(&self) -> Seq<CommandSpecView> {
        self.specs.deep_view()
    }
}

impl DeepView for CommandSpec {
    type V = CommandSpecView;

    open spec fn deep_view(&self) -> CommandSpecView {
        self.view()
    }
}

impl CommandRegistry {
    /// An empty registry.
    pub fn new() -> (r: CommandRegistry)
        ensures
            r@ == Seq::<CommandSpecView>::empty(),
    {
        let r = CommandRegistry { specs: Vec::new() };
        proof {
            assert(r@ =~= Seq::<CommandSpecView>::empty());
        }
        r
    }

    /// Registers a spec under its own command name. A name already
    /// registered, up to ASCII case, is a configuration error and
    /// leaves the registry unchanged.
    pub fn register(&mut self, spec: CommandSpec) -> (r: Result<(), ConfigurationError>)
        ensures
            match r {
                Ok(_) => spec_registry_lookup(old(self)@, spec@.name) is None && final(self)@
                    == old(self)@.push(spec@),
                Err(e) => e == ConfigurationError::DuplicateCommandName && spec_registry_lookup(
                    old(self)@,
                    spec@.name,
                ) is Some && final(self)@ == old(self)@,
            },
    {
        if self.find_index(spec.name()).is_some() {
            proof {
                lemma_lookup_found(self@, spec@.name);
            }
            return Err(ConfigurationError::DuplicateCommandName);
        }
        proof {
            lemma_lookup_found(self@, spec@.name);
        }
        let ghost old_view = self@;
        self.specs.push(spec);
        proof {
            assert(self@ =~= old_view.push(self.specs@.last()@));
        }
        Ok(())
    }

    /// The index of the first spec registered under the name, up to
    /// ASCII case.
    fn find_index(&self, name: &str) -> (r: Option<usize>)
        ensures
            match r {
                Some(i) => i < self@.len() && str_eq_ci(self@[i as int].name, name@) && forall|
                    t: int,
                |
                    0 <= t < i ==> !str_eq_ci(#[trigger] self@[t].name, name@),
                None => forall|t: int|
                    0 <= t < self@.len() ==> !str_eq_ci(#[trigger] self@[t].name, name@),
            },
    {
        let mut i: usize = 0;
        while i < self.specs.len()
            invariant
                i <= self.specs.len(),
                self@.len() == self.specs.len(),
                self@ == self.specs.deep_view(),
                forall|t: int| 0 <= t < i ==> !str_eq_ci(#[trigger] self@[t].name, name@),
            decreases self.specs.len() - i,
        {
            if eq_ignore_case(self.specs[i].name(), name) {
                proof {
                    assert(self@[i as int] == self.specs[i as int]@);
                }
                return Some(i);
            }
            i = i + 1;
        }
        None
    }

    /// Resolves a command name to its registered spec, up to ASCII
    /// case. A miss is the caller's error, never silently ignored.
    pub fn lookup(&self, name: &str) -> (r: Result<&CommandSpec, UnknownCommandError>)
        ensures
            match r {
                Ok(s) => spec_registry_lookup(self@, name@) == Some(s@),
                Err(e) => spec_registry_lookup(self@, name@) is None && e@ == name@,
            },
    {
        match self.find_index(name) {
            Some(i) => {
                proof {
                    lemma_lookup_at(self@, name@, i as int);
                }
                Ok(&self.specs[i])
            },
            None => {
                proof {
                    lemma_lookup_found(self@, name@);
                }
                Err(UnknownCommandError { command: name.to_owned() })
            },
        }
    }
}

/// A lookup hits exactly when some registered name matches.
proof fn lemma_lookup_found(specs: Seq<CommandSpecView>, name: Seq<char>)
    ensures
        spec_registry_lookup(specs, name) is Some <==> exists|t: int|
            0 <= t < specs.len() && str_eq_ci(#[trigger] specs[t].name, name),
    decreases specs.len(),
{
    if specs.len() > 0 {
        lemma_lookup_found(specs.drop_first(), name);
        if !str_eq_ci(specs[0].name, name) {
            if spec_registry_lookup(specs, name) is Some {
                let t = choose|t: int|
                    0 <= t < specs.drop_first().len() && str_eq_ci(
                        #[trigger] specs.drop_first()[t].name,
                        name,
                    );
                assert(specs[t + 1].name == specs.drop_first()[t].name);
            }
            if exists|t: int| 0 <= t < specs.len() && str_eq_ci(#[trigger] specs[t].name, name) {
                let t = choose|t: int|
                    0 <= t < specs.len() && str_eq_ci(#[trigger] specs[t].name, name);
                assert(t >= 1);
                assert(specs.drop_first()[t - 1].name == specs[t].name);
            }
        }
    }
}

/// The first matching index carries the lookup's result.
proof fn lemma_lookup_at(specs: Seq<CommandSpecView>, name: Seq<char>, i: int)
    requires
        0 <= i < specs.len(),
        str_eq_ci(specs[i].name, name),
        forall|t: int| 0 <= t < i ==> !str_eq_ci(#[trigger] specs[t].name, name),
    ensures
        spec_registry_lookup(specs, name) == Some(specs[i]),
    decreases i,
{
    if i > 0 {
        lemma_lookup_at(specs.drop_first(), name, i - 1);
        assert(specs.drop_first()[i - 1] == specs[i]);
        assert forall|t: int| 0 <= t < i - 1 implies !str_eq_ci(
            #[trigger] specs.drop_first()[t].name,
            name,
        ) by {
            assert(specs.drop_first()[t] == specs[t + 1]);
        }
    }
}

} // verus!
