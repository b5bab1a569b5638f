//! What a run is given besides its sources: the configuration and the variables.
use vstd::prelude::*;
use crate::expression::Config;
use crate::names::{NameMap, Variables};

verus! {

/// The prefix that marks an environment entry as a variable for `var` expressions.
pub const VARIABLE_PREFIX: &'static str = "YSV_VAR_";

/// What is the format of the log messages we print out?
#[derive(Clone, Copy, Debug, PartialEq, Eq)]
pub enum LogFormat {
    /// For humans.
    PLAIN,
    /// For machines.
    JSON,
}

/// Everything a run needs besides its sources.
#[derive(Debug)]
pub struct Options {
    pub config: Config,
    pub variables: Variables,
    pub input_files: Option<Vec<String>>,
}

/// True when `prefix` begins `s`.
pub open spec fn starts_with(s: Seq<char>, prefix: Seq<char>) -> bool {
    prefix.len() <= s.len() && s.subrange(0, prefix.len() as int) == prefix
}

/// The variables that environment entries define: each entry whose name
/// begins with the prefix, under its name without the prefix; a later entry
/// of a name replaces an earlier one.
pub open spec fn environment_variables(entries: Seq<(String, String)>) -> Map<Seq<char>, String>
    decreases entries.len(),
{
    if entries.len() == 0 {
        Map::empty()
    } else {
        let before = environment_variables(entries.drop_last());
        let name = entries.last().0@;
        if starts_with(name, VARIABLE_PREFIX@) {
            before.insert(name.subrange(VARIABLE_PREFIX@.len() as int, name.len() as int), entries.last().1)
        } else {
            before
        }
    }
}

fn has_prefix(s: &str, prefix: &str) -> (r: bool)
    ensures
        r == starts_with(s@, prefix@),
{
    let n = prefix.unicode_len();
    if n > s.unicode_len() {
        return false;
    }
    let mut i: usize = 0;
    while i < n
        invariant
            n == prefix@.len(),
            n <= s@.len(),
            i <= n,
            forall|j: int| 0 <= j < i ==> s@[j] == prefix@[j],
        decreases n - i,
    {
        if s.get_char(i) != prefix.get_char(i) {
            assert(s@.subrange(0, n as int)[i as int] != prefix@[i as int]);
            return false;
        }
        i += 1;
    }
    assert(s@.subrange(0, n as int) =~= prefix@);
    true
}

/// Picks the variables out of environment entries, as name and value pairs.
pub fn determine_variables(environment: &Vec<(String, String)>) -> (r: Variables)
    ensures
        r@ == environment_variables(environment@),
{
    let mut r = NameMap::new();
    let prefix = VARIABLE_PREFIX;
    let mut i: usize = 0;
    assert(environment@.subrange(0, 0) =~= Seq::<(String, String)>::empty());
    while i < environment.len()
        invariant
            i <= environment@.len(),
            prefix@ == VARIABLE_PREFIX@,
            r@ == environment_variables(environment@.subrange(0, i as int)),
        decreases environment@.len() - i,
    {
        let ghost next = environment@.subrange(0, i + 1);
        assert(next.drop_last() =~= environment@.subrange(0, i as int));
        let (name, value) = &environment[i];
        if has_prefix(name.as_str(), prefix) {
            let stripped = name.as_str().substring_char(prefix.unicode_len(), name.as_str().unicode_len());
            r.insert(stripped.to_string(), value.clone());
        }
        i += 1;
    }
    assert(environment@.subrange(0, i as int) =~= environment@);
    r
}

} // verus!
