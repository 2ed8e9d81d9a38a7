//! Memoisation of compiled word-bounded matchers, keyed by pattern text.
//!
//! A request for a pattern that was already compiled returns a matcher with
//! the same pattern, and hence identical match behaviour, without a second
//! compilation. The cache is owned by its user: one is built fresh per
//! invocation, or injected for reuse across invocations.

use vstd::prelude::*;

use crate::config::ConfigError;
use crate::matcher::has_bounded_match;
use crate::matcher::replace_all_spec;
use crate::matcher::CompiledMatcher;

verus! {

/// A memo table from pattern text to its compiled matcher, with a count of
/// the compilations performed.
pub struct PatternCache {
    entries: Vec<(String, CompiledMatcher)>,
    compilations: usize,
}

impl PatternCache {
    /// Every entry maps a nonempty pattern to the matcher compiled from it,
    /// no pattern has two entries, and the compilation count equals the
    /// number of entries.
    pub closed spec fn wf(&self) -> bool {
        &&& forall|k: int|
            0 <= k < self.entries@.len() ==> (#[trigger] self.entries@[k].1)@
                == self.entries@[k].0@ && self.entries@[k].0@.len() > 0
        &&& forall|j: int, k: int|
            0 <= j < k < self.entries@.len() ==> (#[trigger] self.entries@[j]).0@ != (
            #[trigger] self.entries@[k]).0@
        &&& self.compilations == self.entries@.len()
    }

    /// Whether a matcher for this pattern text is already cached.
    pub closed spec fn has_pattern(&self, p: Seq<char>) -> bool {
        exists|k: int| 0 <= k < self.entries@.len() && (#[trigger] self.entries@[k]).0@ == p
    }

    /// How many compilations this cache has performed.
    pub closed spec fn spec_compilations(&self) -> nat {
        self.compilations as nat
    }

    /// An empty cache that has compiled nothing.
    pub fn new() -> (c: PatternCache)
        ensures
            c.wf(),
            c.spec_compilations() == 0,
            forall|p: Seq<char>| !c.has_pattern(p),
    {
        PatternCache { entries: Vec::new(), compilations: 0 }
    }

    /// The number of compilations performed so far: a probe for observing
    /// that repeated requests do not recompile.
    pub fn compilations(&self) -> (n: usize)
        ensures
            n == self.spec_compilations(),
    {
        self.compilations
    }

    /// Returns the word-bounded matcher for a pattern, compiling it only if
    /// no request for the same pattern text came before. Fails with
    /// `PatternInvalid` exactly for the empty pattern, which cannot be
    /// compiled into a word-bounded matcher; the cache is then unchanged.
    pub fn get_or_compile(&mut self, pattern: &str) -> (r: Result<CompiledMatcher, ConfigError>)
        requires
            old(self).wf(),
        ensures
            final(self).wf(),
            pattern@.len() == 0 ==> (r matches Err(e) && e is PatternInvalid) && *final(self)
                == *old(self),
            pattern@.len() > 0 ==> (r matches Ok(m) && m@ == pattern@ && m.wf()),
            pattern@.len() > 0 ==> final(self).spec_compilations() == old(self).spec_compilations()
                + (if old(self).has_pattern(pattern@) {
                0int
            } else {
                1int
            }),
            forall|q: Seq<char>|
                #[trigger] final(self).has_pattern(q) <==> old(self).has_pattern(q) || (q == pattern@
                    && pattern@.len() > 0),
    {
        let mut k: usize = 0;
        while k < self.entries.len()
            invariant
                self.wf(),
                self == old(self),
                k <= self.entries@.len(),
                forall|j: int| 0 <= j < k ==> (#[trigger] self.entries@[j]).0@ != pattern@,
            decreases self.entries@.len() - k,
        {
            if crate::text::str_eq(self.entries[k].0.as_str(), pattern) {
                proof {
                    assert(self.entries@[k as int].1@ == self.entries@[k as int].0@);
                    assert(pattern@.len() > 0);
                }
                let m = CompiledMatcher::compile(pattern);
                match m {
                    Some(m) => {
                        return Ok(m);
                    },
                    None => {
                        // An empty pattern never has an entry, so the scan
                        // cannot reach this arm.
                        assert(false);
                        return Err(ConfigError::PatternInvalid(String::from_str("")));
                    },
                }
            }
            k = k + 1;
        }
        match CompiledMatcher::compile(pattern) {
            Some(m) => {
                let m2 = CompiledMatcher::compile(pattern);
                match m2 {
                    Some(m2) => {
                        self.entries.push((String::from_str(pattern), m2));
                        self.compilations = self.entries.len();
                        proof {
                            let n = self.entries@.len();
                            assert(self.entries@[n - 1].0@ == pattern@);
                            assert(forall|j: int|
                                0 <= j < n - 1 ==> self.entries@[j] == old(self).entries@[j]);
                            assert forall|q: Seq<char>|
                                #[trigger] self.has_pattern(q) <==> (old(self).has_pattern(q) || q
                                    == pattern@) by {
                                if self.has_pattern(q) {
                                    let k0 = choose|k0: int|
                                        0 <= k0 < n && (#[trigger] self.entries@[k0]).0@ == q;
                                    if k0 < n - 1 {
                                        assert(old(self).entries@[k0].0@ == q);
                                        assert(old(self).has_pattern(q));
                                    }
                                }
                                if old(self).has_pattern(q) {
                                    let k0 = choose|k0: int|
                                        0 <= k0 < old(self).entries@.len() && (
                                        #[trigger] old(self).entries@[k0]).0@ == q;
                                    assert(self.entries@[k0].0@ == q);
                                }
                                if q == pattern@ {
                                    assert(self.entries@[n - 1].0@ == q);
                                }
                            }
                        }
                        Ok(m)
                    },
                    None => {
                        assert(false);
                        Err(ConfigError::PatternInvalid(String::from_str("")))
                    },
                }
            },
            None => {
                Err(
                    ConfigError::PatternInvalid(
                        String::from_str("Empty pattern cannot be compiled into a word-bounded matcher"),
                    ),
                )
            },
        }
    }
}

/// Matchers obtained for the same pattern text have identical match
/// behaviour: requesting a pattern twice yields a matcher equivalent to the
/// first.
pub proof fn lemma_same_pattern_same_behavior(
    m1: CompiledMatcher,
    m2: CompiledMatcher,
    command: Seq<char>,
    replacement: Seq<char>,
)
    requires
        m1@ == m2@,
    ensures
        has_bounded_match(command, m1@) == has_bounded_match(command, m2@),
        replace_all_spec(command, m1@, replacement) == replace_all_spec(command, m2@, replacement),
{
}

} // verus!
