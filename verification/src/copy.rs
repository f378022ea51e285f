//! Copy patterns as a configuration declares them, and their normal form.

use crate::text::{lowercase_of, to_lowercase};
use vstd::prelude::*;

verus! {

/// A copy rule as the configuration loader hands it over.
#[derive(Debug, Clone)]
pub struct RawPattern {
    pub from: String,
    pub to: Option<String>,
    pub context: Option<String>,
    pub to_type: Option<String>,
    pub no_error_on_missing: bool,
    pub force: bool,
    pub priority: i32,
    pub glob_options: RawGlobOptions,
}

/// Glob-matching options as the configuration loader hands them over.
#[derive(Debug, Clone)]
pub struct RawGlobOptions {
    pub case_sensitive_match: Option<bool>,
    pub dot: Option<bool>,
}

/// The copy rules of one configuration, in the order of their declaration.
#[derive(Debug)]
pub struct RawCopyConfig {
    pub patterns: Vec<RawPattern>,
}

/// What kind of destination a pattern writes to.
#[derive(Debug, Clone, Copy, PartialEq, Eq, Structural)]
pub enum ToType {
    Dir,
    File,
    Template,
}

/// Glob-matching options of a pattern: whether letter case counts, and
/// whether names that start with a dot match.
#[derive(Debug, Clone)]
pub struct GlobOptions {
    pub case_sensitive_match: Option<bool>,
    pub dot: Option<bool>,
}

/// A copy rule in normal form.
#[derive(Debug, Clone)]
pub struct Pattern {
    pub from: String,
    pub to: Option<String>,
    /// The directory that the glob is evaluated in, where the rule names one.
    pub context: Option<String>,
    /// `None` where the rule leaves the kind to whoever executes it.
    pub to_type: Option<ToType>,
    pub no_error_on_missing: bool,
    pub force: bool,
    pub priority: i32,
    pub glob_options: GlobOptions,
}

/// The copy rules of one configuration in normal form, in the order of their
/// declaration.
#[derive(Debug)]
pub struct CopyPluginConfig {
    pub patterns: Vec<Pattern>,
}

/// The kind that a lower-case word names: one of `dir`, `file` and
/// `template`, and none for any other text.
pub open spec fn to_type_named(lower: Seq<char>) -> Option<ToType> {
    if lower == "dir"@ {
        Some(ToType::Dir)
    } else if lower == "file"@ {
        Some(ToType::File)
    } else if lower == "template"@ {
        Some(ToType::Template)
    } else {
        None
    }
}

/// The kind that a rule's `to_type` stands for: letter case does not count,
/// and a missing or unknown word leaves the kind open.
pub open spec fn to_type_of(word: Option<String>) -> Option<ToType> {
    match word {
        Some(w) => to_type_named(lowercase_of(w@)),
        None => None,
    }
}

/// The normal form of a rule.
pub open spec fn normalized(raw: RawPattern) -> Pattern {
    Pattern {
        from: raw.from,
        to: raw.to,
        context: raw.context,
        to_type: to_type_of(raw.to_type),
        no_error_on_missing: raw.no_error_on_missing,
        force: raw.force,
        priority: raw.priority,
        glob_options: GlobOptions {
            case_sensitive_match: raw.glob_options.case_sensitive_match,
            dot: raw.glob_options.dot,
        },
    }
}

impl ToType {
    /// The kind that the lower-case word `lower` names.
    pub fn from_lowercase(lower: &String) -> (kind: Option<ToType>)
        ensures
            kind == to_type_named(lower@),
    {
        if *lower == String::from_str("dir") {
            Some(ToType::Dir)
        } else if *lower == String::from_str("file") {
            Some(ToType::File)
        } else if *lower == String::from_str("template") {
            Some(ToType::Template)
        } else {
            None
        }
    }

    /// The kind that `word` names in any letter case.
    pub fn parse(word: &str) -> (kind: Option<ToType>)
        ensures
            kind == to_type_named(lowercase_of(word@)),
    {
        let lower = to_lowercase(word);
        ToType::from_lowercase(&lower)
    }
}

impl From<RawPattern> for Pattern {
    fn from(value: RawPattern) -> (pattern: Self) {
        let RawPattern {
            from,
            to,
            context,
            to_type,
            no_error_on_missing,
            force,
            priority,
            glob_options,
        } = value;
        Pattern {
            from,
            to,
            context,
            to_type: match to_type {
                Some(word) => ToType::parse(word.as_str()),
                None => None,
            },
            no_error_on_missing,
            force,
            priority,
            glob_options: GlobOptions {
                case_sensitive_match: glob_options.case_sensitive_match,
                dot: glob_options.dot,
            },
        }
    }
}

/// `Pattern::from` gives the normal form of the rule.
impl vstd::std_specs::convert::FromSpecImpl<RawPattern> for Pattern {
    open spec fn obeys_from_spec() -> bool {
        true
    }

    open spec fn from_spec(v: RawPattern) -> Self {
        normalized(v)
    }
}

/// The normal forms of `raws`, in the same order.
pub open spec fn normalized_all(raws: Seq<RawPattern>) -> Seq<Pattern> {
    Seq::new(raws.len(), |i: int| normalized(raws[i]))
}

impl From<RawCopyConfig> for CopyPluginConfig {
    fn from(val: RawCopyConfig) -> (config: Self)
        ensures
            config.patterns@ == normalized_all(val.patterns@),
    {
        let ghost declared = val.patterns@;
        let mut patterns: Vec<Pattern> = Vec::new();
        for raw in it: val.patterns
            invariant
                it.seq() == declared,
                patterns@ == normalized_all(declared.take(it.index())),
        {
            patterns.push(Pattern::from(raw));
        }
        CopyPluginConfig { patterns }
    }
}

/// What `CopyPluginConfig::from` gives is stated by its own `ensures`, over
/// the patterns that the result holds: two vectors with equal contents
/// need not be one value.
impl vstd::std_specs::convert::FromSpecImpl<RawCopyConfig> for CopyPluginConfig {
    open spec fn obeys_from_spec() -> bool {
        false
    }

    open spec fn from_spec(v: RawCopyConfig) -> Self {
        choose|config: CopyPluginConfig| config.patterns@ == normalized_all(v.patterns@)
    }
}

/// Normalizing a rule never fails on its `to_type`: the word stands for a
/// kind where its lower-case form is one of `dir`, `file` and `template`,
/// and for that kind alone; any other word, like a missing one, leaves the
/// kind open. Everything else is carried over as it is.
pub proof fn lemma_to_type_is_tolerant(raw: RawPattern)
    ensures
        normalized(raw).to_type == Some(ToType::Dir) <==> (raw.to_type matches Some(word)
            && lowercase_of(word@) == "dir"@),
        normalized(raw).to_type == Some(ToType::File) <==> (raw.to_type matches Some(word)
            && lowercase_of(word@) == "file"@),
        normalized(raw).to_type == Some(ToType::Template) <==> (raw.to_type matches Some(word)
            && lowercase_of(word@) == "template"@),
        normalized(raw).to_type is None <==> (raw.to_type matches Some(word) ==> lowercase_of(word@)
            != "dir"@ && lowercase_of(word@) != "file"@ && lowercase_of(word@) != "template"@),
        normalized(raw).force == raw.force,
        normalized(raw).no_error_on_missing == raw.no_error_on_missing,
        normalized(raw).priority == raw.priority,
{
    reveal_strlit("dir");
    reveal_strlit("file");
    reveal_strlit("template");
    assert("file"@.len() == 4);
    assert("template"@.len() == 8);
}

} // verus!
