//! Word-bounded literal matching and substitution.
//!
//! A pattern is a nonempty literal text. It matches a command at a position
//! where it occurs verbatim and both ends of the occurrence sit on a word
//! boundary: the adjoining character is not a word character, or the
//! occurrence touches an end of the command. This is deliberately
//! substring-permissive: `npm` matches inside `my-npm-tool`, because the
//! hyphens are word boundaries.
//!
//! Substitution rewrites every bounded occurrence, scanning left to right
//! without overlap, and preserves all other characters verbatim.

use vstd::prelude::*;

use crate::text::chars_of;
use crate::text::is_word_char;
use crate::text::string_of_chars;
use crate::text::word_char;

verus! {

/// The pattern `p` occurs verbatim in `c` at position `i`.
pub open spec fn occurs_at(c: Seq<char>, p: Seq<char>, i: int) -> bool {
    &&& 0 <= i
    &&& i + p.len() <= c.len()
    &&& c.subrange(i, i + p.len()) == p
}

/// The pattern `p` occurs at `i` with a word boundary on both sides:
/// each neighbour of the occurrence is a non-word character or an end
/// of the command.
pub open spec fn bounded_at(c: Seq<char>, p: Seq<char>, i: int) -> bool {
    &&& occurs_at(c, p, i)
    &&& (i == 0 || !is_word_char(c[i - 1]))
    &&& (i + p.len() == c.len() || !is_word_char(c[i + p.len()]))
}

/// Some bounded occurrence of `p` exists in `c`.
pub open spec fn has_bounded_match(c: Seq<char>, p: Seq<char>) -> bool {
    exists|i: int| bounded_at(c, p, i)
}

/// The suffix of `c` from position `i` with every bounded occurrence of `p`
/// replaced by `r`, scanning left to right without overlap. For an empty
/// pattern the suffix is returned unchanged; matchers never hold one.
pub open spec fn replace_from(c: Seq<char>, p: Seq<char>, r: Seq<char>, i: int) -> Seq<char>
    decreases c.len() - i,
{
    if p.len() == 0 || i < 0 || i >= c.len() {
        if 0 <= i && i <= c.len() {
            c.subrange(i, c.len() as int)
        } else {
            Seq::empty()
        }
    } else if bounded_at(c, p, i) {
        r + replace_from(c, p, r, i + p.len())
    } else {
        seq![c[i]] + replace_from(c, p, r, i + 1)
    }
}

/// The command with every bounded occurrence of `p` replaced by `r`.
pub open spec fn replace_all_spec(c: Seq<char>, p: Seq<char>, r: Seq<char>) -> Seq<char> {
    replace_from(c, p, r, 0)
}

/// The positions at which the left-to-right non-overlapping scan of `c`
/// from position `i` rewrites an occurrence of `p`.
pub open spec fn selected_positions(c: Seq<char>, p: Seq<char>, i: int) -> Seq<int>
    decreases c.len() - i,
{
    if p.len() == 0 || i < 0 || i >= c.len() {
        Seq::empty()
    } else if bounded_at(c, p, i) {
        seq![i] + selected_positions(c, p, i + p.len())
    } else {
        selected_positions(c, p, i + 1)
    }
}

/// `c` from position `i` rebuilt around the positions `ps`: the characters
/// between consecutive positions are kept verbatim, and `r` stands at each
/// position in place of the `plen` characters of the occurrence.
pub open spec fn rebuild(c: Seq<char>, r: Seq<char>, plen: int, i: int, ps: Seq<int>) -> Seq<char>
    decreases ps.len(),
{
    if ps.len() == 0 {
        if 0 <= i && i <= c.len() {
            c.subrange(i, c.len() as int)
        } else {
            Seq::empty()
        }
    } else if i <= ps[0] && 0 <= i && ps[0] + plen <= c.len() {
        c.subrange(i, ps[0]) + r + rebuild(c, r, plen, ps[0] + plen, ps.drop_first())
    } else {
        Seq::empty()
    }
}

/// The positions ascend and consecutive ones lie at least `plen` apart:
/// the occurrences they carry do not overlap.
pub open spec fn ascending_apart(ps: Seq<int>, plen: int) -> bool
    decreases ps.len(),
{
    ps.len() <= 1 || (ps[0] + plen <= ps[1] && ascending_apart(ps.drop_first(), plen))
}

/// Every position selected by the scan carries a bounded occurrence, none
/// lies before the start of the scan, and the selected occurrences do not
/// overlap.
pub proof fn lemma_selected_are_matches(c: Seq<char>, p: Seq<char>, i: int)
    ensures
        forall|k: int|
            0 <= k < selected_positions(c, p, i).len() ==> bounded_at(
                c,
                p,
                #[trigger] selected_positions(c, p, i)[k],
            ) && selected_positions(c, p, i)[k] >= i,
        ascending_apart(selected_positions(c, p, i), p.len() as int),
    decreases c.len() - i,
{
    if p.len() == 0 || i < 0 || i >= c.len() {
    } else if bounded_at(c, p, i) {
        lemma_selected_are_matches(c, p, i + p.len());
        let ps = selected_positions(c, p, i);
        assert(ps[0] == i);
        assert(forall|k: int|
            1 <= k < ps.len() ==> #[trigger] ps[k] == selected_positions(c, p, i + p.len())[k - 1]);
        assert(forall|k: int|
            0 <= k < ps.len() ==> bounded_at(c, p, #[trigger] ps[k]) && ps[k] >= i);
        assert(ps.drop_first() =~= selected_positions(c, p, i + p.len()));
        if ps.len() >= 2 {
            assert(selected_positions(c, p, i + p.len())[0] >= i + p.len());
            assert(ps[1] == selected_positions(c, p, i + p.len())[0]);
        }
    } else {
        lemma_selected_are_matches(c, p, i + 1);
        assert(selected_positions(c, p, i) == selected_positions(c, p, i + 1));
    }
}

/// Every bounded occurrence at or after the start of the scan overlaps a
/// selected position: no bounded occurrence is passed over.
pub proof fn lemma_selected_cover(c: Seq<char>, p: Seq<char>, i: int, j: int)
    requires
        p.len() > 0,
        i >= 0,
        j >= i,
        bounded_at(c, p, j),
    ensures
        exists|k: int|
            0 <= k < selected_positions(c, p, i).len() && #[trigger] selected_positions(
                c,
                p,
                i,
            )[k] <= j < selected_positions(c, p, i)[k] + p.len(),
    decreases c.len() - i,
{
    if i >= c.len() {
        assert(j + p.len() <= c.len());
        assert(false);
    } else if bounded_at(c, p, i) {
        if j < i + p.len() {
            assert(selected_positions(c, p, i)[0] == i);
        } else {
            lemma_selected_cover(c, p, i + p.len(), j);
            let k0 = choose|k: int|
                0 <= k < selected_positions(c, p, i + p.len()).len() && #[trigger] selected_positions(
                    c,
                    p,
                    i + p.len(),
                )[k] <= j < selected_positions(c, p, i + p.len())[k] + p.len();
            assert(selected_positions(c, p, i)[k0 + 1] == selected_positions(c, p, i + p.len())[k0]);
        }
    } else {
        assert(j != i);
        lemma_selected_cover(c, p, i + 1, j);
        let k0 = choose|k: int|
            0 <= k < selected_positions(c, p, i + 1).len() && #[trigger] selected_positions(
                c,
                p,
                i + 1,
            )[k] <= j < selected_positions(c, p, i + 1)[k] + p.len();
        assert(selected_positions(c, p, i)[k0] == selected_positions(c, p, i + 1)[k0]);
    }
}

/// The replacement result is the command rebuilt around the selected
/// positions: `r` stands at each bounded occurrence the scan takes, and all
/// characters outside those occurrences are preserved verbatim.
pub proof fn lemma_replace_is_rebuild(c: Seq<char>, p: Seq<char>, r: Seq<char>, i: int)
    requires
        p.len() > 0,
        0 <= i <= c.len(),
    ensures
        replace_from(c, p, r, i) == rebuild(c, r, p.len() as int, i, selected_positions(c, p, i)),
    decreases c.len() - i,
{
    if i >= c.len() {
        assert(replace_from(c, p, r, i) =~= rebuild(
            c,
            r,
            p.len() as int,
            i,
            selected_positions(c, p, i),
        ));
    } else if bounded_at(c, p, i) {
        lemma_replace_is_rebuild(c, p, r, i + p.len());
        lemma_selected_are_matches(c, p, i);
        let ps = selected_positions(c, p, i);
        assert(ps.drop_first() =~= selected_positions(c, p, i + p.len()));
        assert(c.subrange(i, i) =~= Seq::<char>::empty());
        assert(replace_from(c, p, r, i) =~= rebuild(c, r, p.len() as int, i, ps));
    } else {
        lemma_replace_is_rebuild(c, p, r, i + 1);
        let ps = selected_positions(c, p, i);
        let ps1 = selected_positions(c, p, i + 1);
        if ps1.len() == 0 {
            assert(replace_from(c, p, r, i + 1) =~= c.subrange(i + 1, c.len() as int));
            assert(replace_from(c, p, r, i) =~= c.subrange(i, c.len() as int));
        } else {
            lemma_selected_are_matches(c, p, i + 1);
            assert(seq![c[i]] + c.subrange(i + 1, ps1[0]) =~= c.subrange(i, ps1[0]));
            assert(replace_from(c, p, r, i) =~= seq![c[i]] + (c.subrange(i + 1, ps1[0]) + r
                + rebuild(c, r, p.len() as int, ps1[0] + p.len(), ps1.drop_first())));
            assert(seq![c[i]] + (c.subrange(i + 1, ps1[0]) + r + rebuild(
                c,
                r,
                p.len() as int,
                ps1[0] + p.len(),
                ps1.drop_first(),
            )) =~= c.subrange(i, ps1[0]) + r + rebuild(
                c,
                r,
                p.len() as int,
                ps1[0] + p.len(),
                ps1.drop_first(),
            ));
        }
    }
}

/// A command without a bounded occurrence of the pattern is left unchanged.
pub proof fn lemma_no_match_unchanged(c: Seq<char>, p: Seq<char>, r: Seq<char>)
    requires
        p.len() > 0,
        !has_bounded_match(c, p),
    ensures
        replace_all_spec(c, p, r) == c,
{
    lemma_no_match_unchanged_from(c, p, r, 0);
    assert(c.subrange(0, c.len() as int) =~= c);
}

proof fn lemma_no_match_unchanged_from(c: Seq<char>, p: Seq<char>, r: Seq<char>, i: int)
    requires
        p.len() > 0,
        0 <= i <= c.len(),
        !has_bounded_match(c, p),
    ensures
        replace_from(c, p, r, i) == c.subrange(i, c.len() as int),
    decreases c.len() - i,
{
    if i >= c.len() {
    } else {
        assert(!bounded_at(c, p, i));
        lemma_no_match_unchanged_from(c, p, r, i + 1);
        assert(seq![c[i]] + c.subrange(i + 1, c.len() as int) =~= c.subrange(i, c.len() as int));
    }
}

/// A compiled word-bounded matcher for one nonempty literal pattern.
pub struct CompiledMatcher {
    pattern: Vec<char>,
}

impl View for CompiledMatcher {
    type V = Seq<char>;

    closed spec fn view(&self) -> Seq<char> {
        self.pattern@
    }
}

impl CompiledMatcher {
    /// A matcher is well formed when its pattern is nonempty; an empty
    /// literal has no word-bounded occurrence semantics and is rejected
    /// at compilation.
    pub open spec fn wf(&self) -> bool {
        self@.len() > 0
    }

    /// Compiles a literal pattern; `None` exactly for the empty pattern,
    /// which cannot be compiled into a word-bounded matcher.
    pub fn compile(pattern: &str) -> (r: Option<CompiledMatcher>)
        ensures
            r is None <==> pattern@.len() == 0,
            r matches Some(m) ==> m@ == pattern@ && m.wf(),
    {
        let chars = chars_of(pattern);
        if chars.len() == 0 {
            None
        } else {
            Some(CompiledMatcher { pattern: chars })
        }
    }

    /// Whether the command holds a bounded occurrence of the pattern.
    pub fn is_match(&self, command: &str) -> (b: bool)
        requires
            self.wf(),
        ensures
            b == has_bounded_match(command@, self@),
    {
        let c = chars_of(command);
        let plen = self.pattern.len();
        if plen > c.len() {
            proof {
                assert(forall|i: int| !bounded_at(c@, self@, i)) by {
                    assert forall|i: int| !bounded_at(c@, self@, i) by {
                        if bounded_at(c@, self@, i) {
                            assert(i + self@.len() <= c@.len());
                        }
                    }
                }
            }
            return false;
        }
        let mut i: usize = 0;
        while i <= c.len() - plen
            invariant
                plen == self@.len(),
                plen >= 1,
                plen <= c@.len(),
                c@ == command@,
                i <= c@.len() - plen + 1,
                forall|j: int| 0 <= j < i ==> !bounded_at(c@, self@, j),
            decreases c@.len() - plen - i + 1,
        {
            if bounded_at_exec(&c, &self.pattern, i) {
                return true;
            }
            i = i + 1;
        }
        proof {
            assert forall|j: int| !bounded_at(command@, self@, j) by {
                if bounded_at(command@, self@, j) {
                    assert(0 <= j && j + self@.len() <= command@.len());
                    assert(j < i);
                }
            }
        }
        false
    }

    /// The command with every bounded occurrence of the pattern replaced.
    pub fn replace_all(&self, command: &str, replacement: &str) -> (out: String)
        requires
            self.wf(),
        ensures
            out@ == replace_all_spec(command@, self@, replacement@),
    {
        let c = chars_of(command);
        let r = chars_of(replacement);
        let plen = self.pattern.len();
        let mut out: Vec<char> = Vec::new();
        let mut i: usize = 0;
        while i < c.len()
            invariant
                plen == self@.len(),
                plen >= 1,
                c@ == command@,
                r@ == replacement@,
                i <= c@.len(),
                replace_from(c@, self@, r@, 0) == out@ + replace_from(c@, self@, r@, i as int),
            decreases c@.len() - i,
        {
            let ghost out_before = out@;
            if bounded_at_exec(&c, &self.pattern, i) {
                let mut k: usize = 0;
                while k < r.len()
                    invariant
                        k <= r@.len(),
                        out@ == out_before + r@.subrange(0, k as int),
                    decreases r@.len() - k,
                {
                    out.push(r[k]);
                    proof {
                        assert(out_before + r@.subrange(0, k as int) + seq![r@[k as int]]
                            =~= out_before + r@.subrange(0, k + 1));
                    }
                    k = k + 1;
                }
                proof {
                    assert(r@.subrange(0, r@.len() as int) =~= r@);
                    assert(replace_from(c@, self@, r@, i as int) == r@ + replace_from(
                        c@,
                        self@,
                        r@,
                        i + plen,
                    ));
                    assert(out_before + (r@ + replace_from(c@, self@, r@, i + plen)) =~= out@
                        + replace_from(c@, self@, r@, i + plen));
                }
                i = i + plen;
            } else {
                out.push(c[i]);
                proof {
                    assert(replace_from(c@, self@, r@, i as int) == seq![c@[i as int]]
                        + replace_from(c@, self@, r@, i + 1));
                    assert(out_before + (seq![c@[i as int]] + replace_from(c@, self@, r@, i + 1))
                        =~= out@ + replace_from(c@, self@, r@, i + 1));
                }
                i = i + 1;
            }
        }
        proof {
            assert(replace_from(c@, self@, r@, i as int) =~= Seq::<char>::empty());
            assert(out@ + Seq::<char>::empty() =~= out@);
        }
        string_of_chars(&out)
    }
}

/// Whether the pattern occurs word-bounded at position `i` of the command.
fn bounded_at_exec(c: &Vec<char>, p: &Vec<char>, i: usize) -> (b: bool)
    requires
        p@.len() >= 1,
        i <= c@.len(),
    ensures
        b == bounded_at(c@, p@, i as int),
{
    if p.len() > c.len() - i {
        proof {
            assert(!occurs_at(c@, p@, i as int));
        }
        return false;
    }
    let mut k: usize = 0;
    while k < p.len()
        invariant
            k <= p@.len(),
            i + p@.len() <= c@.len(),
            c@.len() <= usize::MAX,
            forall|j: int| 0 <= j < k ==> c@[i + j] == p@[j],
        decreases p@.len() - k,
    {
        if c[i + k] != p[k] {
            proof {
                assert(c@.subrange(i as int, i + p@.len())[k as int] == c@[i + k]);
            }
            return false;
        }
        k = k + 1;
    }
    proof {
        assert(c@.subrange(i as int, i + p@.len()) =~= p@);
    }
    if i > 0 && word_char(c[i - 1]) {
        return false;
    }
    if i + p.len() < c.len() && word_char(c[i + p.len()]) {
        return false;
    }
    true
}

} // verus!
