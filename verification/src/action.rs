//! The rename transformations.
//!
//! A `Modify<Replace>` substitutes text in a file's base name: a literal
//! replace of the leftmost occurrence, a regex replace of the first match, or
//! a literal removal of every occurrence.  A `Modify<Affix>` inserts text at
//! the start or the end of the base name.  Applying a transformation to a
//! path touches only the stem: the directory part and the extension are
//! captured first and reattached afterwards, and a path without a file name
//! passes through unchanged.

use vstd::prelude::*;

use crate::paths;
use crate::text;

verus! {

/// Insertion of fixed text at one end of the base name.
#[derive(Debug)]
pub struct Affix {
    pub mode: InsertMode,
    pub str_to_add: String,
}

/// Substitution of text inside the base name.
#[derive(Debug)]
pub struct Replace {
    pub operation: Operation,
    pub pattern: String,
    pub replace_str: String,
}

/// Which kind of substitution a `Modify<Replace>` performs.
#[derive(Debug)]
pub enum Operation {
    ReplaceString,
    ReplaceRegex,
    Remove,
}

/// Which end of the base name a `Modify<Affix>` inserts at.
#[derive(Debug)]
pub enum InsertMode {
    Prefix,
    Suffix,
}

/// A bundle of edited text values handed to a transformation.
pub enum StateValue {
    AffixValue(String),
    ReplaceValue(String, String),
}

/// A transformation over file base names, parameterised by its state.
#[derive(Debug)]
pub struct Modify<Mode> {
    pub state: Mode,
}

/// Whether `pat` is a well-formed regular expression.
pub uninterp spec fn regex_compiles(pat: Seq<char>) -> bool;

/// The text `s` with the first match of the regex `pat` replaced by `rep`,
/// capture-group references in `rep` expanded.
pub uninterp spec fn regex_replace_first(pat: Seq<char>, rep: Seq<char>, s: Seq<char>) -> Seq<char>;

/// Relies on `regex::Regex::new` and `regex::Regex::replace`: whether a
/// pattern compiles, and the result of replacing the leftmost match,
/// depend only on the pattern, the replacement and the input text.
#[verifier::external_body]
fn try_regex_replace(pattern: &str, replacement: &str, value: &str) -> (r: Option<String>)
    ensures
        r is Some <==> regex_compiles(pattern@),
        r is Some ==> r->Some_0@ == regex_replace_first(pattern@, replacement@, value@),
{
    match regex::Regex::new(pattern) {
        Ok(re) => Some(re.replace(value, replacement).into_owned()),
        Err(_) => None,
    }
}

impl Modify<Replace> {
    /// The base name produced by this substitution.  A regex that does not
    /// compile degrades to the identity.
    pub open spec fn apply_spec(&self, base: Seq<char>) -> Seq<char> {
        match self.state.operation {
            Operation::ReplaceString => text::replace_first_spec(
                base,
                self.state.pattern@,
                self.state.replace_str@,
            ),
            Operation::ReplaceRegex => if regex_compiles(self.state.pattern@) {
                regex_replace_first(self.state.pattern@, self.state.replace_str@, base)
            } else {
                base
            },
            Operation::Remove => text::remove_all_spec(base, self.state.pattern@),
        }
    }

    /// The path produced by applying this substitution to the stem.
    pub open spec fn path_spec(&self, p: Seq<char>) -> Seq<char> {
        if paths::has_stem(p) {
            paths::rebuilt(p, self.apply_spec(paths::stem_of(p)))
        } else {
            p
        }
    }

    /// A fresh literal replace with empty pattern and replacement.
    pub fn new_op() -> (r: Modify<Replace>)
        ensures
            r.state.operation is ReplaceString,
            r.state.pattern@ == Seq::<char>::empty(),
            r.state.replace_str@ == Seq::<char>::empty(),
    {
        Modify {
            state: Replace {
                operation: Operation::ReplaceString,
                pattern: String::new(),
                replace_str: String::new(),
            },
        }
    }

    /// Set the pattern searched for, keeping operation and replacement.
    pub fn set_pattern(&mut self, pattern: &str)
        ensures
            final(self).state.pattern@ == pattern@,
            final(self).state.replace_str == old(self).state.replace_str,
            final(self).state.operation == old(self).state.operation,
    {
        self.state.pattern = String::from_str(pattern);
    }

    /// Make this a literal replace with the given replacement text.
    pub fn find_and_replace_op(&mut self, string_to_replace: &String)
        ensures
            final(self).state.operation is ReplaceString,
            final(self).state.replace_str@ == string_to_replace@,
            final(self).state.pattern == old(self).state.pattern,
    {
        self.state.replace_str = string_to_replace.clone();
        self.state.operation = Operation::ReplaceString;
    }

    /// Make this a regex replace with the given replacement text.
    pub fn regex_op(&mut self, string_to_replace: &String)
        ensures
            final(self).state.operation is ReplaceRegex,
            final(self).state.replace_str@ == string_to_replace@,
            final(self).state.pattern == old(self).state.pattern,
    {
        self.state.replace_str = string_to_replace.clone();
        self.state.operation = Operation::ReplaceRegex;
    }

    /// Make this a removal of every occurrence of the pattern.
    pub fn remove_op(&mut self)
        ensures
            final(self).state.operation is Remove,
            final(self).state.pattern == old(self).state.pattern,
            final(self).state.replace_str == old(self).state.replace_str,
    {
        self.state.operation = Operation::Remove;
    }

    /// Apply the substitution to a base name.
    pub fn perform_operation(&self, value: &str) -> (r: String)
        ensures
            r@ == self.apply_spec(value@),
    {
        match self.state.operation {
            Operation::ReplaceString => text::replace_first(
                value,
                self.state.pattern.as_str(),
                self.state.replace_str.as_str(),
            ),
            Operation::ReplaceRegex => {
                match try_regex_replace(
                    self.state.pattern.as_str(),
                    self.state.replace_str.as_str(),
                    value,
                ) {
                    Some(s) => s,
                    None => String::from_str(value),
                }
            },
            Operation::Remove => text::remove_all(value, self.state.pattern.as_str()),
        }
    }

    /// Apply the substitution to a path, stem only, extension kept.
    pub fn action(&self, file_name: &str) -> (r: String)
        ensures
            r@ == self.path_spec(file_name@),
    {
        let parts = paths::split_path(file_name);
        proof {
            paths::lemma_stem_empty_iff_no_stem(file_name@);
        }
        if parts.stem.as_str().unicode_len() == 0 {
            String::from_str(file_name)
        } else {
            let new_stem = self.perform_operation(parts.stem.as_str());
            paths::join_path(parts.dir.as_str(), new_stem.as_str(), &parts.ext)
        }
    }

    /// Take over freshly edited pattern and replacement text.
    pub fn update_values(&mut self, data: StateValue)
        ensures
            data matches StateValue::ReplaceValue(p, v) ==> final(self).state.pattern == p
                && final(self).state.replace_str == v
                && final(self).state.operation == old(self).state.operation,
            data matches StateValue::AffixValue(_) ==> *final(self) == *old(self),
    {
        if let StateValue::ReplaceValue(pattern, value) = data {
            self.state.pattern = pattern;
            self.state.replace_str = value;
        }
    }
}

impl Modify<Affix> {
    /// The base name produced by this insertion.
    pub open spec fn apply_spec(&self, base: Seq<char>) -> Seq<char> {
        match self.state.mode {
            InsertMode::Prefix => self.state.str_to_add@ + base,
            InsertMode::Suffix => base + self.state.str_to_add@,
        }
    }

    /// The path produced by applying this insertion to the stem.
    pub open spec fn path_spec(&self, p: Seq<char>) -> Seq<char> {
        if paths::has_stem(p) {
            paths::rebuilt(p, self.apply_spec(paths::stem_of(p)))
        } else {
            p
        }
    }

    /// A fresh suffix insertion of the empty text.
    pub fn new_affix() -> (r: Modify<Affix>)
        ensures
            r.state.mode is Suffix,
            r.state.str_to_add@ == Seq::<char>::empty(),
    {
        Modify { state: Affix { mode: InsertMode::Suffix, str_to_add: String::new() } }
    }

    /// Make this a prefix insertion of the given text.
    pub fn prefix_mode(&mut self, value: &str)
        ensures
            final(self).state.mode is Prefix,
            final(self).state.str_to_add@ == value@,
    {
        self.state.str_to_add = String::from_str(value);
        self.state.mode = InsertMode::Prefix;
    }

    /// Make this a suffix insertion of the given text.
    pub fn suffix_mode(&mut self, value: &str)
        ensures
            final(self).state.mode is Suffix,
            final(self).state.str_to_add@ == value@,
    {
        self.state.str_to_add = String::from_str(value);
        self.state.mode = InsertMode::Suffix;
    }

    /// Apply the insertion to a base name.
    pub fn add_affix(&self, value: &str) -> (r: String)
        ensures
            r@ == self.apply_spec(value@),
    {
        match self.state.mode {
            InsertMode::Prefix => {
                let mut out = String::from_str(self.state.str_to_add.as_str());
                out.append(value);
                out
            },
            InsertMode::Suffix => {
                let mut out = String::from_str(value);
                out.append(self.state.str_to_add.as_str());
                out
            },
        }
    }

    /// Apply the insertion to a path, stem only, extension kept.
    pub fn action(&self, file_name: &str) -> (r: String)
        ensures
            r@ == self.path_spec(file_name@),
    {
        let parts = paths::split_path(file_name);
        proof {
            paths::lemma_stem_empty_iff_no_stem(file_name@);
        }
        if parts.stem.as_str().unicode_len() == 0 {
            String::from_str(file_name)
        } else {
            let new_stem = self.add_affix(parts.stem.as_str());
            paths::join_path(parts.dir.as_str(), new_stem.as_str(), &parts.ext)
        }
    }

    /// Take over freshly edited affix text.
    pub fn update_values(&mut self, data: StateValue)
        ensures
            data matches StateValue::AffixValue(v) ==> final(self).state.str_to_add == v
                && final(self).state.mode == old(self).state.mode,
            data matches StateValue::ReplaceValue(_, _) ==> *final(self) == *old(self),
    {
        if let StateValue::AffixValue(value) = data {
            self.state.str_to_add = value;
        }
    }
}

/// Inserting text `t` as a prefix and then as a suffix brackets the base
/// name: the result is `t + base + t`, the prefix applied first.
pub proof fn lemma_prefix_then_suffix(
    pre: Modify<Affix>,
    suf: Modify<Affix>,
    base: Seq<char>,
    t: Seq<char>,
)
    requires
        pre.state.mode is Prefix,
        pre.state.str_to_add@ == t,
        suf.state.mode is Suffix,
        suf.state.str_to_add@ == t,
    ensures
        suf.apply_spec(pre.apply_spec(base)) == t + base + t,
{
}

} // verus!
