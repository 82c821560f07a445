//! The rule selected for a run, and the name it gives each entry.
use vstd::prelude::*;
use crate::name::{is_bare_name, join_name, join_spec, split_name, split_spec};
use crate::text::{hash_of, lower_of, upper_of};
use crate::transform::{
    decimal_spec, hash, lowercase, prefix, remove, replace, replace_spec, strip_spec,
    suffix, uppercase, whitespace,
};

verus! {

/// The rewriting rule of a run, with its arguments.
#[derive(Clone, Debug, PartialEq, Eq)]
pub enum Command {
    /// The decimal hash of the stem's text.
    Hash,
    /// The stem in lower case.
    Lowercase,
    /// `new` in front of the stem.
    Prefix { new: String },
    /// The stem without any occurrence of `sub`.
    Remove { sub: String },
    /// Each occurrence of `old` replaced by `new`.
    Replace { old: String, new: String },
    /// `new` after the stem.
    Suffix { new: String },
    /// The stem in upper case.
    Uppercase,
    /// The stem without whitespace.
    Whitespace,
}

/// A rewritten stem, or `None` where it cannot stand as a stem.
pub open spec fn checked_stem_spec(s: Seq<char>) -> Option<Seq<char>> {
    if is_bare_name(s) {
        None
    } else {
        Some(s)
    }
}

/// The stem that `cmd` makes of `stem`, or `None` where it leaves no stem.
pub open spec fn new_stem_spec(cmd: Command, stem: Seq<char>) -> Option<Seq<char>> {
    match cmd {
        Command::Hash => Some(decimal_spec(hash_of(stem) as nat)),
        Command::Lowercase => checked_stem_spec(lower_of(stem)),
        Command::Prefix { new } => Some(new@ + stem),
        Command::Remove { sub } => Some(replace_spec(stem, sub@, Seq::<char>::empty())),
        Command::Replace { old, new } => Some(replace_spec(stem, old@, new@)),
        Command::Suffix { new } => Some(stem + new@),
        Command::Uppercase => checked_stem_spec(upper_of(stem)),
        Command::Whitespace => checked_stem_spec(strip_spec(stem)),
    }
}

/// The name that `cmd` gives an entry called `name`: its stem rewritten and
/// its extension kept. `None` where the entry is left alone.
pub open spec fn target_spec(cmd: Command, name: Seq<char>) -> Option<Seq<char>> {
    match split_spec(name) {
        None => None,
        Some((stem, ext)) => match new_stem_spec(cmd, stem) {
            None => None,
            Some(s) => Some(join_spec(s, ext)),
        },
    }
}

impl Command {
    /// Rewrites a stem by this rule.
    pub fn new_stem(&self, stem: &str) -> (r: Option<String>)
        ensures
            r is None <==> new_stem_spec(*self, stem@) is None,
            r matches Some(t) ==> new_stem_spec(*self, stem@) == Some(t@),
    {
        match self {
            Command::Hash => Some(hash(stem)),
            Command::Lowercase => lowercase(stem),
            Command::Prefix { new } => Some(prefix(stem, new.as_str())),
            Command::Remove { sub } => Some(remove(stem, sub.as_str())),
            Command::Replace { old, new } => Some(replace(stem, old.as_str(), new.as_str())),
            Command::Suffix { new } => Some(suffix(stem, new.as_str())),
            Command::Uppercase => uppercase(stem),
            Command::Whitespace => whitespace(stem),
        }
    }

    /// The new name of an entry called `name`: split into stem and
    /// extension, the stem rewritten, the extension put back. `None` where
    /// the name has no stem or the rule leaves none.
    pub fn target(&self, name: &str) -> (r: Option<String>)
        ensures
            r is None <==> target_spec(*self, name@) is None,
            r matches Some(t) ==> target_spec(*self, name@) == Some(t@),
    {
        match split_name(name) {
            None => None,
            Some((stem, ext)) => match self.new_stem(stem.as_str()) {
                None => None,
                Some(s) => Some(join_name(s.as_str(), ext.as_str())),
            },
        }
    }
}

} // verus!
