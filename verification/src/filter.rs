use vstd::prelude::*;

use crate::strutil::str_eq;

verus! {

// ---------------------------------------------------------------------------
// What is assumed of the regex crate
// ---------------------------------------------------------------------------

#[verifier::external_type_specification]
#[verifier::external_body]
pub struct ExRegex(regex::Regex);

/// The pattern a compiled regex holds, the text `Regex::as_str` returns.
pub uninterp spec fn regex_pat(re: regex::Regex) -> Seq<char>;

/// Whether `regex::Regex::new` accepts a pattern: success depends on the
/// pattern text alone.
pub uninterp spec fn regex_compiles(pat: Seq<char>) -> bool;

/// Whether the regex built from `pat` matches anywhere in `text`: a function
/// of the pattern and the text alone.
pub uninterp spec fn regex_is_match(pat: Seq<char>, text: Seq<char>) -> bool;

/// Relies on regex::Regex::new: compilation succeeds or fails on the pattern
/// text alone, and the built value holds that pattern.
#[verifier::external_body]
pub(crate) fn regex_new(pat: &str) -> (r: Option<regex::Regex>)
    ensures
        (r is Some) == regex_compiles(pat@),
        r matches Some(re) ==> regex_pat(re) == pat@,
{
    regex::Regex::new(pat).ok()
}

/// Relies on regex::Regex::is_match: whether the pattern matches anywhere in
/// the haystack, decided by the pattern and the haystack alone.
#[verifier::external_body]
pub(crate) fn regex_match(re: &regex::Regex, text: &str) -> (r: bool)
    ensures
        r == regex_is_match(regex_pat(*re), text@),
{
    re.is_match(text)
}

// ---------------------------------------------------------------------------
// The filter
// ---------------------------------------------------------------------------

/// Decides, from the path alone, whether a request is exempt from logging:
/// exempt iff the path stands in the exact set or matches one of the compiled
/// patterns. An empty filter matches nothing.
pub struct ExclusionFilter {
    /// Paths excluded by exact comparison.
    pub exact: Vec<String>,
    /// The pattern texts, kept beside their compiled form.
    pub patterns: Vec<String>,
    /// The compiled patterns, one per entry of `patterns`.
    pub regexes: Vec<regex::Regex>,
}

impl ExclusionFilter {
    /// Each compiled regex holds the pattern text recorded beside it.
    pub open spec fn wf(&self) -> bool {
        &&& self.regexes@.len() == self.patterns@.len()
        &&& forall|i: int|
            0 <= i < self.patterns@.len() ==> regex_pat(#[trigger] self.regexes@[i])
                == self.patterns@[i]@
    }

    /// A filter that excludes nothing.
    pub fn empty() -> (r: ExclusionFilter)
        ensures
            r.wf(),
            r.exact@.len() == 0,
            r.patterns@.len() == 0,
    {
        ExclusionFilter { exact: Vec::new(), patterns: Vec::new(), regexes: Vec::new() }
    }

    /// Adds a path excluded by exact comparison.
    pub fn add_exact(&mut self, path: &str)
        ensures
            final(self).exact@ == old(self).exact@.push(final(self).exact@.last()),
            final(self).exact@.len() == old(self).exact@.len() + 1,
            final(self).exact@.last()@ == path@,
            final(self).patterns == old(self).patterns,
            final(self).regexes == old(self).regexes,
            old(self).wf() ==> final(self).wf(),
    {
        self.exact.push(path.to_owned());
    }

    /// Adds an exclusion pattern known to compile.
    pub fn add_pattern(&mut self, pat: &str)
        requires
            old(self).wf(),
            regex_compiles(pat@),
        ensures
            final(self).wf(),
            final(self).patterns@.len() == old(self).patterns@.len() + 1,
            final(self).patterns@ == old(self).patterns@.push(final(self).patterns@.last()),
            final(self).patterns@.last()@ == pat@,
            final(self).exact == old(self).exact,
    {
        match regex_new(pat) {
            Some(re) => {
                self.patterns.push(pat.to_owned());
                self.regexes.push(re);
            },
            None => {
                proof {
                    assert(false);
                }
            },
        }
    }

    /// Tries to add an exclusion pattern; reports whether it compiled, and
    /// leaves the filter unchanged when it did not.
    pub fn try_add_pattern(&mut self, pat: &str) -> (r: bool)
        requires
            old(self).wf(),
        ensures
            final(self).wf(),
            r == regex_compiles(pat@),
            r ==> final(self).patterns@.len() == old(self).patterns@.len() + 1
                && final(self).patterns@ == old(self).patterns@.push(final(self).patterns@.last())
                && final(self).patterns@.last()@ == pat@ && final(self).exact == old(self).exact,
            !r ==> *final(self) == *old(self),
    {
        match regex_new(pat) {
            Some(_) => {
                self.add_pattern(pat);
                true
            },
            None => false,
        }
    }

    /// Whether logging is skipped for a path.
    pub open spec fn spec_excluded(&self, path: Seq<char>) -> bool {
        (exists|i: int| 0 <= i < self.exact@.len() && (#[trigger] self.exact@[i])@ == path)
            || (exists|i: int|
            0 <= i < self.patterns@.len() && regex_is_match((#[trigger] self.patterns@[i])@, path))
    }

    /// Decides whether logging is skipped for a path: a pure function of the
    /// path string.
    pub fn is_excluded(&self, path: &str) -> (r: bool)
        requires
            self.wf(),
        ensures
            r == self.spec_excluded(path@),
    {
        let mut i: usize = 0;
        let n = self.exact.len();
        while i < n
            invariant
                i <= n,
                n == self.exact@.len(),
                forall|j: int| 0 <= j < i ==> (#[trigger] self.exact@[j])@ != path@,
            decreases n - i,
        {
            if str_eq(self.exact[i].as_str(), path) {
                return true;
            }
            i += 1;
        }
        let m = self.regexes.len();
        let mut k: usize = 0;
        while k < m
            invariant
                k <= m,
                m == self.patterns@.len(),
                m == self.regexes@.len(),
                self.wf(),
                forall|j: int|
                    0 <= j < k ==> !regex_is_match((#[trigger] self.patterns@[j])@, path@),
                forall|j: int| 0 <= j < self.exact@.len() ==> (#[trigger] self.exact@[j])@ != path@,
            decreases m - k,
        {
            if regex_match(&self.regexes[k], path) {
                return true;
            }
            k += 1;
        }
        false
    }
}

} // verus!
