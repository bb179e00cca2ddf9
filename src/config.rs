//! The configuration read from the configuration files that exist. Later files
//! extend or override what earlier ones set.

use vstd::prelude::*;

use crate::text::chars_of;

verus! {

/// Extends a configuration instance with overriding config.
pub trait ExtendConfig {
    fn extend(&mut self, other: &Self);
}

/// The settings that configuration files may hold. No setting is defined yet,
/// so any well-formed TOML document is a valid configuration.
#[derive(Debug, Default, PartialEq, Eq)]
pub struct RawConfig {}

impl ExtendConfig for RawConfig {
    fn extend(&mut self, _other: &RawConfig) {
    }
}

/// A configuration file that is too deeply nested or not a well-formed TOML document.
#[derive(Clone, Copy, Debug, PartialEq, Eq)]
pub struct ConfigError {
    /// The position of the file among those read.
    pub file_index: usize,
}

/// Whether `text` is a well-formed TOML document.
pub uninterp spec fn toml_accepts(text: Seq<char>) -> bool;

/// Whether `c` can open a level of nesting in a TOML document: an array, an
/// inline table, or one more segment of a dotted key or table header.
pub open spec fn is_nesting_mark(c: char) -> bool {
    c == '[' || c == '{' || c == '.'
}

/// How many characters of `text` can open a level of nesting.
pub open spec fn nesting_marks(text: Seq<char>) -> nat
    decreases text.len(),
{
    if text.len() == 0 {
        0
    } else {
        nesting_marks(text.drop_last()) + if is_nesting_mark(text.last()) {
            1nat
        } else {
            0nat
        }
    }
}

/// The most nesting marks a configuration file may hold. The TOML parser
/// recurses once per level of nesting without a limit of its own, so deeper
/// documents are refused before they reach it.
pub const MAX_NESTING_MARKS: usize = 128;

/// Whether `text` is a configuration file this library reads: shallow enough
/// for the parser, and well-formed TOML.
pub open spec fn config_accepts(text: Seq<char>) -> bool {
    nesting_marks(text) <= MAX_NESTING_MARKS && toml_accepts(text)
}

/// Relies on `toml::from_str` into a TOML table: succeeds exactly on the
/// well-formed documents, which depends on the text alone. The parser recurses
/// per level of nesting, so the input is held to a bound on nesting marks,
/// which bounds that depth.
#[verifier::external_body]
fn parses_as_toml(text: &str) -> (ok: bool)
    requires
        nesting_marks(text@) <= MAX_NESTING_MARKS,
    ensures
        ok == toml_accepts(text@),
{
    toml::from_str::<toml::value::Table>(text).is_ok()
}

/// Counts the nesting marks of `text`, stopping early once the bound is passed.
fn shallow_enough(text: &str) -> (ok: bool)
    ensures
        ok == (nesting_marks(text@) <= MAX_NESTING_MARKS),
{
    let cs = chars_of(text);
    let mut count: usize = 0;
    let mut i: usize = 0;
    while i < cs.len()
        invariant
            i <= cs@.len(),
            cs@ == text@,
            count == nesting_marks(cs@.take(i as int)),
            count <= MAX_NESTING_MARKS,
        decreases cs.len() - i,
    {
        assert(cs@.take(i + 1).drop_last() =~= cs@.take(i as int));
        let c = cs[i];
        if c == '[' || c == '{' || c == '.' {
            if count == MAX_NESTING_MARKS {
                proof {
                    lemma_nesting_marks_prefix(cs@, i + 1);
                }
                return false;
            }
            count = count + 1;
        }
        i = i + 1;
    }
    assert(cs@.take(i as int) =~= cs@);
    true
}

/// A text holds at least the nesting marks of any of its prefixes.
proof fn lemma_nesting_marks_prefix(s: Seq<char>, n: int)
    requires
        0 <= n <= s.len(),
    ensures
        nesting_marks(s.take(n)) <= nesting_marks(s),
    decreases s.len() - n,
{
    if n < s.len() {
        lemma_nesting_marks_prefix(s, n + 1);
        assert(s.take(n + 1).drop_last() =~= s.take(n));
    } else {
        assert(s.take(n) =~= s);
    }
}

impl RawConfig {
    /// The configuration that one file holds; `None` where the file is too
    /// deeply nested or not well-formed TOML.
    pub fn from_toml(text: &str) -> (r: Option<RawConfig>)
        ensures
            r is Some == config_accepts(text@),
    {
        if shallow_enough(text) && parses_as_toml(text) {
            Some(RawConfig {  })
        } else {
            None
        }
    }

    /// Reads the configuration files found, in order, each extending what the
    /// earlier ones gave; fails at the first one that is too deeply nested or
    /// not well-formed.
    pub fn load(files: &Vec<String>) -> (r: Result<RawConfig, ConfigError>)
        ensures
            match r {
                Ok(_) => forall|i: int| 0 <= i < files@.len() ==> config_accepts(#[trigger] files@[i]@),
                Err(e) => e.file_index < files@.len() && !config_accepts(files@[e.file_index as int]@)
                    && forall|i: int| 0 <= i < e.file_index ==> config_accepts(#[trigger] files@[i]@),
            },
    {
        let mut cfg = RawConfig {  };
        let mut i: usize = 0;
        while i < files.len()
            invariant
                i <= files@.len(),
                forall|j: int| 0 <= j < i ==> config_accepts(#[trigger] files@[j]@),
            decreases files.len() - i,
        {
            match RawConfig::from_toml(files[i].as_str()) {
                Some(new_cfg) => cfg.extend(&new_cfg),
                None => return Err(ConfigError { file_index: i }),
            }
            i = i + 1;
        }
        Ok(cfg)
    }
}

} // verus!
