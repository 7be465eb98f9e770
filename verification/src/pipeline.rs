//! The transformation pipeline.
//!
//! An ordered list of transformations, applied left to right, each consuming
//! the path the previous one produced.  Slots can be added, edited in place
//! and removed by position; a batch preview recomputes every job's target
//! from its current source by one full run of the pipeline.

use vstd::prelude::*;

use crate::action::{Affix, Modify, Replace};
use crate::executor::RenameJob;
use crate::paths;

verus! {

/// One slot of the pipeline: a substitution or an insertion.
#[derive(Debug)]
pub enum Transformation {
    Substitute(Modify<Replace>),
    Insert(Modify<Affix>),
}

impl Transformation {
    /// The path this slot produces from `p`.
    pub open spec fn path_spec(&self, p: Seq<char>) -> Seq<char> {
        match self {
            Transformation::Substitute(m) => m.path_spec(p),
            Transformation::Insert(m) => m.path_spec(p),
        }
    }

    /// The stem this slot computes from `p`'s stem.
    pub open spec fn stem_spec(&self, p: Seq<char>) -> Seq<char> {
        match self {
            Transformation::Substitute(m) => m.apply_spec(paths::stem_of(p)),
            Transformation::Insert(m) => m.apply_spec(paths::stem_of(p)),
        }
    }

    /// Apply this slot to a path, stem only, extension kept.
    pub fn action(&self, file_name: &str) -> (r: String)
        ensures
            r@ == self.path_spec(file_name@),
    {
        match self {
            Transformation::Substitute(m) => m.action(file_name),
            Transformation::Insert(m) => m.action(file_name),
        }
    }
}

/// The choice of transformation kind offered for one slot.
#[derive(Debug, Clone, Copy, PartialEq, Eq, Structural, Default)]
pub enum ActionOptions {
    #[default]
    MatchAndReplace,
    RegexReplace,
    Prefix,
    Suffix,
}

impl ActionOptions {
    /// The human-readable name of this choice.
    pub fn label(&self) -> (r: String)
        ensures
            self is MatchAndReplace ==> r@ == "Match and Replace"@,
            self is RegexReplace ==> r@ == "Regex Replace"@,
            self is Prefix ==> r@ == "Add Prefix"@,
            self is Suffix ==> r@ == "Add Suffix"@,
    {
        match self {
            ActionOptions::MatchAndReplace => String::from_str("Match and Replace"),
            ActionOptions::RegexReplace => String::from_str("Regex Replace"),
            ActionOptions::Prefix => String::from_str("Add Prefix"),
            ActionOptions::Suffix => String::from_str("Add Suffix"),
        }
    }
}

/// The edited texts of one slot: the pattern, the replacement or affix
/// text, and the chosen kind.
pub struct TextState {
    pub pattern: String,
    pub value: String,
    pub action_option: Option<ActionOptions>,
}

impl Default for TextState {
    /// A fresh slot: empty texts, literal replace selected.
    fn default() -> (r: Self)
        ensures
            r.pattern@ == Seq::<char>::empty(),
            r.value@ == Seq::<char>::empty(),
            r.action_option == Some(ActionOptions::MatchAndReplace),
    {
        TextState {
            pattern: String::new(),
            value: String::new(),
            action_option: Some(ActionOptions::MatchAndReplace),
        }
    }
}

/// The slot that the choice `option` builds from a pattern and a text.
pub open spec fn step_built_from(
    t: Transformation,
    option: ActionOptions,
    pattern: Seq<char>,
    value: Seq<char>,
) -> bool {
    match option {
        ActionOptions::MatchAndReplace => t matches Transformation::Substitute(m)
            && m.state.operation is ReplaceString && m.state.pattern@ == pattern
            && m.state.replace_str@ == value,
        ActionOptions::RegexReplace => t matches Transformation::Substitute(m)
            && m.state.operation is ReplaceRegex && m.state.pattern@ == pattern
            && m.state.replace_str@ == value,
        ActionOptions::Prefix => t matches Transformation::Insert(m) && m.state.mode is Prefix
            && m.state.str_to_add@ == value,
        ActionOptions::Suffix => t matches Transformation::Insert(m) && m.state.mode is Suffix
            && m.state.str_to_add@ == value,
    }
}

/// Build the slot that a choice and its edited texts call for.
pub fn step_for(option: ActionOptions, pattern: &str, value: &str) -> (t: Transformation)
    ensures
        step_built_from(t, option, pattern@, value@),
{
    match option {
        ActionOptions::MatchAndReplace => {
            let mut m = Modify::<Replace>::new_op();
            m.set_pattern(pattern);
            m.find_and_replace_op(&String::from_str(value));
            Transformation::Substitute(m)
        },
        ActionOptions::RegexReplace => {
            let mut m = Modify::<Replace>::new_op();
            m.set_pattern(pattern);
            m.regex_op(&String::from_str(value));
            Transformation::Substitute(m)
        },
        ActionOptions::Prefix => {
            let mut m = Modify::<Affix>::new_affix();
            m.prefix_mode(value);
            Transformation::Insert(m)
        },
        ActionOptions::Suffix => {
            let mut m = Modify::<Affix>::new_affix();
            m.suffix_mode(value);
            Transformation::Insert(m)
        },
    }
}

/// The path that a list of slots computes from `p`, applied left to right.
pub open spec fn pipeline_spec(steps: Seq<Transformation>, p: Seq<char>) -> Seq<char>
    decreases steps.len(),
{
    if steps.len() == 0 {
        p
    } else {
        pipeline_spec(steps.skip(1), steps[0].path_spec(p))
    }
}

/// An ordered, editable list of transformations.
#[derive(Debug)]
pub struct Pipeline {
    pub steps: Vec<Transformation>,
}

impl Pipeline {
    /// A pipeline with no transformations: the identity.
    pub fn new() -> (r: Pipeline)
        ensures
            r.steps@.len() == 0,
    {
        Pipeline { steps: Vec::new() }
    }

    /// Append a fresh slot: a literal replace with empty pattern and
    /// replacement.
    pub fn add_action(&mut self)
        ensures
            final(self).steps@.len() == old(self).steps@.len() + 1,
            forall|k: int|
                0 <= k < old(self).steps@.len() ==> final(self).steps@[k] == old(self).steps@[k],
            step_built_from(
                final(self).steps@.last(),
                ActionOptions::MatchAndReplace,
                Seq::empty(),
                Seq::empty(),
            ),
    {
        self.steps.push(Transformation::Substitute(Modify::<Replace>::new_op()));
    }

    /// Rebuild the slot at `i` from a choice and its edited texts; other
    /// slots keep their place and state.
    pub fn update_action(&mut self, i: usize, option: ActionOptions, pattern: &str, value: &str)
        requires
            i < old(self).steps@.len(),
        ensures
            final(self).steps@.len() == old(self).steps@.len(),
            forall|k: int|
                0 <= k < old(self).steps@.len() && k != i ==> final(self).steps@[k] == old(
                    self,
                ).steps@[k],
            step_built_from(final(self).steps@[i as int], option, pattern@, value@),
    {
        let t = step_for(option, pattern, value);
        self.steps.set(i, t);
    }

    /// Remove the slot at `i`; later slots shift down one place.
    pub fn remove_action(&mut self, i: usize)
        requires
            i < old(self).steps@.len(),
        ensures
            final(self).steps@ == old(self).steps@.remove(i as int),
    {
        self.steps.remove(i);
    }

    /// Run every slot over `path`, left to right.  With no slots the path
    /// comes back unchanged.
    pub fn compute_target(&self, path: &str) -> (r: String)
        ensures
            r@ == pipeline_spec(self.steps@, path@),
            self.steps@.len() == 0 ==> r@ == path@,
    {
        let n: usize = self.steps.len();
        let mut cur = String::from_str(path);
        let mut i: usize = 0;
        proof {
            assert(self.steps@.skip(0) =~= self.steps@);
        }
        while i < n
            invariant
                n == self.steps@.len(),
                i <= n,
                pipeline_spec(self.steps@, path@) == pipeline_spec(
                    self.steps@.skip(i as int),
                    cur@,
                ),
            decreases n - i,
        {
            let next = self.steps[i].action(cur.as_str());
            proof {
                assert(self.steps@.skip(i as int)[0] == self.steps@[i as int]);
                assert(self.steps@.skip(i as int).skip(1) =~= self.steps@.skip(i + 1));
            }
            cur = next;
            i += 1;
        }
        cur
    }

    /// Recompute every job's target from its current source by one full run
    /// of the pipeline.  Sources are untouched.
    pub fn preview_new_filename(&self, jobs: &mut Vec<RenameJob>)
        ensures
            final(jobs)@.len() == old(jobs)@.len(),
            forall|k: int|
                0 <= k < old(jobs)@.len() ==> final(jobs)@[k].source@ == old(jobs)@[k].source@
                    && final(jobs)@[k].target@ == pipeline_spec(
                    self.steps@,
                    old(jobs)@[k].source@,
                ),
    {
        let n: usize = jobs.len();
        let mut out: Vec<RenameJob> = Vec::new();
        let mut i: usize = 0;
        while i < n
            invariant
                n == jobs@.len(),
                i <= n,
                out@.len() == i,
                forall|k: int|
                    0 <= k < i ==> out@[k].source@ == jobs@[k].source@ && out@[k].target@
                        == pipeline_spec(self.steps@, jobs@[k].source@),
            decreases n - i,
        {
            let target = self.compute_target(jobs[i].source.as_str());
            out.push(RenameJob { source: jobs[i].source.clone(), target });
            i += 1;
        }
        *jobs = out;
    }
}

/// A character that may not appear in edited replacement or affix text:
/// the separators and wildcards that file names cannot carry, and the dot,
/// which would smuggle in an extension change.
pub open spec fn is_invalid_char(c: char) -> bool {
    c == '<' || c == '>' || c == ':' || c == '"' || c == '/' || c == '\\' || c == '|' || c == '?'
        || c == '*' || c == '.'
}

/// `s` with every invalid character dropped, order kept.
pub open spec fn filter_invalid_spec(s: Seq<char>) -> Seq<char>
    decreases s.len(),
{
    if s.len() == 0 {
        s
    } else {
        filter_invalid_spec(s.drop_last()) + (if is_invalid_char(s.last()) {
            Seq::empty()
        } else {
            seq![s.last()]
        })
    }
}

/// Drop from freshly edited text every character that a file name cannot
/// carry.
pub fn filter_invalid(input: &str) -> (r: String)
    ensures
        r@ == filter_invalid_spec(input@),
{
    let n: usize = input.unicode_len();
    let mut out = String::new();
    let mut i: usize = 0;
    proof {
        assert(input@.take(0).len() == 0);
    }
    while i < n
        invariant
            n == input@.len(),
            i <= n,
            out@ == filter_invalid_spec(input@.take(i as int)),
        decreases n - i,
    {
        let c = input.get_char(i);
        if !(c == '<' || c == '>' || c == ':' || c == '"' || c == '/' || c == '\\' || c == '|'
            || c == '?' || c == '*' || c == '.') {
            out.append(input.substring_char(i, i + 1));
            proof {
                assert(input@.subrange(i as int, i + 1) =~= seq![input@[i as int]]);
            }
        } else {
            proof {
                assert(out@ + Seq::<char>::empty() =~= out@);
            }
        }
        proof {
            assert(input@.take(i + 1).drop_last() =~= input@.take(i as int));
            assert(input@.take(i + 1).last() == input@[i as int]);
        }
        i += 1;
    }
    proof {
        assert(input@.take(n as int) =~= input@);
    }
    out
}

/// Extension invariance: a transformation never changes the extension of a
/// path that has one.  Stated for a step whose computed stem is non-empty
/// and free of `/`: a removal that empties the stem turns the file name
/// into a hidden one with no extension, and a replacement holding a
/// separator would move text into the directory part.
pub proof fn lemma_step_keeps_extension(t: Transformation, p: Seq<char>)
    requires
        paths::ext_of(p) is Some,
        t.stem_spec(p).len() > 0,
        forall|j: int| 0 <= j < t.stem_spec(p).len() ==> t.stem_spec(p)[j] != '/',
    ensures
        paths::ext_of(t.path_spec(p)) == paths::ext_of(p),
{
    paths::lemma_last_index_of(paths::file_name_of(p), '.');
    assert(paths::has_stem(p));
    paths::lemma_extension_invariant(p, t.stem_spec(p));
    match t {
        Transformation::Substitute(m) => {},
        Transformation::Insert(m) => {},
    }
}

/// A pipeline with no transformations maps every path to itself.
pub proof fn lemma_empty_pipeline_identity(steps: Seq<Transformation>, p: Seq<char>)
    requires
        steps.len() == 0,
    ensures
        pipeline_spec(steps, p) == p,
{
}

} // verus!
