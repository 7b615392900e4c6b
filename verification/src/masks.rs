//! File masks with `*` (any run of characters) and `?` (any single character).

use vstd::prelude::*;

use crate::text::chars_of;

verus! {

/// Whether `text` matches the glob `pattern`: `*` stands for any sequence of
/// characters (the empty one included), `?` for exactly one character, and
/// every other character for itself.
pub open spec fn glob_matches(pattern: Seq<char>, text: Seq<char>) -> bool
    decreases pattern.len() + text.len(),
{
    if pattern.len() == 0 {
        text.len() == 0
    } else if pattern[0] == '*' {
        glob_matches(pattern.drop_first(), text) || (text.len() > 0 && glob_matches(
            pattern,
            text.drop_first(),
        ))
    } else {
        &&& text.len() > 0
        &&& (pattern[0] == '?' || pattern[0] == text[0])
        &&& glob_matches(pattern.drop_first(), text.drop_first())
    }
}

/// Matching of the suffixes that start at `i` in the pattern and `j` in the text.
spec fn sm(p: Seq<char>, t: Seq<char>, i: int, j: int) -> bool {
    glob_matches(p.subrange(i, p.len() as int), t.subrange(j, t.len() as int))
}

proof fn lemma_sm_unfold(p: Seq<char>, t: Seq<char>, i: int, j: int)
    requires
        0 <= i <= p.len(),
        0 <= j <= t.len(),
    ensures
        i == p.len() ==> (sm(p, t, i, j) <==> j == t.len()),
        i < p.len() && p[i] == '*' ==> (sm(p, t, i, j) <==> (sm(p, t, i + 1, j) || (j < t.len()
            && sm(p, t, i, j + 1)))),
        i < p.len() && p[i] != '*' ==> (sm(p, t, i, j) <==> (j < t.len() && (p[i] == '?' || p[i]
            == t[j]) && sm(p, t, i + 1, j + 1))),
{
    let ps = p.subrange(i, p.len() as int);
    let ts = t.subrange(j, t.len() as int);
    if i < p.len() {
        assert(ps.drop_first() =~= p.subrange(i + 1, p.len() as int));
        assert(ps[0] == p[i]);
    }
    if j < t.len() {
        assert(ts.drop_first() =~= t.subrange(j + 1, t.len() as int));
        assert(ts[0] == t[j]);
    }
}

/// A star at `i` matches from `j` exactly when the rest of the pattern matches
/// from some position at or after `j`.
proof fn lemma_star_exists(p: Seq<char>, t: Seq<char>, i: int, j: int)
    requires
        0 <= i < p.len(),
        p[i] == '*',
        0 <= j <= t.len(),
    ensures
        sm(p, t, i, j) <==> exists|k: int| j <= k <= t.len() && #[trigger] sm(p, t, i + 1, k),
    decreases t.len() - j,
{
    lemma_sm_unfold(p, t, i, j);
    if j < t.len() {
        lemma_star_exists(p, t, i, j + 1);
        if sm(p, t, i, j) {
            if !sm(p, t, i + 1, j) {
                let k = choose|k: int| j + 1 <= k <= t.len() && #[trigger] sm(p, t, i + 1, k);
                assert(j <= k <= t.len() && sm(p, t, i + 1, k));
            }
        }
        if exists|k: int| j <= k <= t.len() && #[trigger] sm(p, t, i + 1, k) {
            let k = choose|k: int| j <= k <= t.len() && #[trigger] sm(p, t, i + 1, k);
            if k > j {
                assert(j + 1 <= k <= t.len() && sm(p, t, i + 1, k));
            }
        }
    } else {
        if exists|k: int| j <= k <= t.len() && #[trigger] sm(p, t, i + 1, k) {
            let k = choose|k: int| j <= k <= t.len() && #[trigger] sm(p, t, i + 1, k);
            assert(k == j);
        }
    }
}

/// The segment `p[a..b]` holds no star and matches `t[c..c + (b - a)]`
/// character by character.
spec fn segment_matches(p: Seq<char>, t: Seq<char>, a: int, b: int, c: int) -> bool {
    &&& 0 <= a <= b <= p.len()
    &&& 0 <= c
    &&& c + (b - a) <= t.len()
    &&& forall|x: int| a <= x < b ==> #[trigger] p[x] != '*' && (p[x] == '?' || p[x] == t[c + x - a])
}

/// A star-free segment that matches the text lets the matching skip over it.
proof fn lemma_segment_skip(p: Seq<char>, t: Seq<char>, a: int, b: int, c: int)
    requires
        segment_matches(p, t, a, b, c),
    ensures
        sm(p, t, a, c) <==> sm(p, t, b, c + (b - a)),
    decreases b - a,
{
    if a < b {
        lemma_sm_unfold(p, t, a, c);
        assert(p[a] != '*' && (p[a] == '?' || p[a] == t[c]));
        assert(segment_matches(p, t, a + 1, b, c + 1));
        lemma_segment_skip(p, t, a + 1, b, c + 1);
    }
}

/// A star-free segment that matches from `k` consumes exactly its length.
proof fn lemma_starfree_forward(p: Seq<char>, t: Seq<char>, a: int, b: int, k: int)
    requires
        0 <= a <= b <= p.len(),
        forall|x: int| a <= x < b ==> #[trigger] p[x] != '*',
        0 <= k <= t.len(),
        sm(p, t, a, k),
    ensures
        k + (b - a) <= t.len(),
        sm(p, t, b, k + (b - a)),
    decreases b - a,
{
    if a < b {
        lemma_sm_unfold(p, t, a, k);
        assert(p[a] != '*');
        lemma_starfree_forward(p, t, a + 1, b, k + 1);
    }
}

/// When a star follows the segment, a later start of the segment is subsumed by
/// the earliest one.
proof fn lemma_later_start(p: Seq<char>, t: Seq<char>, a: int, b: int, c: int, k: int)
    requires
        segment_matches(p, t, a, b, c),
        b < p.len(),
        p[b] == '*',
        c <= k <= t.len(),
        sm(p, t, a, k),
    ensures
        sm(p, t, b, c + (b - a)),
{
    assert forall|x: int| a <= x < b implies #[trigger] p[x] != '*' by {
        assert(segment_matches(p, t, a, b, c));
    }
    lemma_starfree_forward(p, t, a, b, k);
    lemma_star_exists(p, t, b, k + (b - a));
    let m = choose|m: int| k + (b - a) <= m <= t.len() && #[trigger] sm(p, t, b + 1, m);
    lemma_star_exists(p, t, b, c + (b - a));
    assert(c + (b - a) <= m <= t.len() && sm(p, t, b + 1, m));
}

/// Matches `text` against `pattern` with `*` and `?` wildcards.
pub fn wildcard_match(pattern: &str, text: &str) -> (r: bool)
    ensures
        r == glob_matches(pattern@, text@),
{
    let pv = chars_of(pattern);
    let tv = chars_of(text);
    let ghost pp = pv@;
    let ghost tt = tv@;
    assert(pp.subrange(0, pp.len() as int) =~= pp);
    assert(tt.subrange(0, tt.len() as int) =~= tt);
    let ghost whole = glob_matches(pattern@, text@);
    assert(sm(pp, tt, 0, 0) == whole);
    let mut p: usize = 0;
    let mut t: usize = 0;
    let mut star: Option<usize> = None;
    let mut star_text: usize = 0;
    while t < tv.len()
        invariant
            pp == pv@,
            tt == tv@,
            whole == sm(pp, tt, 0, 0),
            whole == glob_matches(pattern@, text@),
            p <= pv.len(),
            t <= tv.len(),
            star_text <= t,
            match star {
                None => {
                    &&& sm(pp, tt, 0, 0) == sm(pp, tt, p as int, t as int)
                },
                Some(s) => {
                    &&& s < p
                    &&& pp[s as int] == '*'
                    &&& segment_matches(pp, tt, s + 1, p as int, star_text as int)
                    &&& t == star_text + (p - s - 1)
                    &&& sm(pp, tt, 0, 0) == exists|k: int|
                        star_text <= k <= tt.len() && #[trigger] sm(pp, tt, s + 1, k)
                },
            },
        decreases tv.len() - star_text, tv.len() - t, pv.len() - p,
    {
        if p < pv.len() && pv[p] == '*' {
            proof {
                lemma_star_exists(pp, tt, p as int, t as int);
                match star {
                    None => {},
                    Some(s) => {
                        lemma_segment_skip(pp, tt, s + 1, p as int, star_text as int);
                        assert forall|k: int|
                            star_text <= k <= tt.len() && #[trigger] sm(pp, tt, s + 1, k) implies sm(
                            pp,
                            tt,
                            p as int,
                            t as int,
                        ) by {
                            lemma_later_start(pp, tt, s + 1, p as int, star_text as int, k);
                        }
                        if sm(pp, tt, p as int, t as int) {
                            assert(sm(pp, tt, s + 1, star_text as int));
                        }
                    },
                }
            }
            star = Some(p);
            p = p + 1;
            star_text = t;
        } else if p < pv.len() && (pv[p] == '?' || pv[p] == tv[t]) {
            proof {
                lemma_sm_unfold(pp, tt, p as int, t as int);
            }
            p = p + 1;
            t = t + 1;
        } else if let Some(s) = star {
            proof {
                lemma_sm_unfold(pp, tt, p as int, t as int);
                lemma_segment_skip(pp, tt, s + 1, p as int, star_text as int);
                assert(!sm(pp, tt, s + 1, star_text as int));
                assert(sm(pp, tt, 0, 0) == exists|k: int|
                    star_text + 1 <= k <= tt.len() && #[trigger] sm(pp, tt, s + 1, k)) by {
                    if exists|k: int| star_text <= k <= tt.len() && #[trigger] sm(pp, tt, s + 1, k) {
                        let k = choose|k: int|
                            star_text <= k <= tt.len() && #[trigger] sm(pp, tt, s + 1, k);
                        assert(k != star_text);
                        assert(star_text + 1 <= k <= tt.len() && sm(pp, tt, s + 1, k));
                    }
                }
            }
            p = s + 1;
            star_text = star_text + 1;
            t = star_text;
        } else {
            proof {
                lemma_sm_unfold(pp, tt, p as int, t as int);
            }
            return false;
        }
    }
    proof {
        match star {
            None => {},
            Some(s) => {
                lemma_segment_skip(pp, tt, s + 1, p as int, star_text as int);
                if exists|k: int| star_text <= k <= tt.len() && #[trigger] sm(pp, tt, s + 1, k) {
                    let k = choose|k: int| star_text <= k <= tt.len() && #[trigger] sm(pp, tt, s + 1, k);
                    assert forall|x: int| s + 1 <= x < p implies #[trigger] pp[x] != '*' by {
                        assert(segment_matches(pp, tt, s + 1, p as int, star_text as int));
                    }
                    lemma_starfree_forward(pp, tt, s + 1, p as int, k);
                    assert(k == star_text);
                }
                if sm(pp, tt, p as int, t as int) {
                    assert(sm(pp, tt, s + 1, star_text as int));
                }
            },
        }
    }
    while p < pv.len() && pv[p] == '*'
        invariant
            pp == pv@,
            tt == tv@,
            p <= pv.len(),
            t == tv.len(),
            whole == sm(pp, tt, p as int, t as int),
        decreases pv.len() - p,
    {
        proof {
            lemma_sm_unfold(pp, tt, p as int, t as int);
        }
        p = p + 1;
    }
    proof {
        lemma_sm_unfold(pp, tt, p as int, t as int);
    }
    p == pv.len()
}

/// A single glob-like file mask.
#[derive(Clone, Debug, PartialEq, Eq)]
pub struct FileMask {
    pattern: String,
}

impl FileMask {
    /// The mask's pattern.
    pub closed spec fn pattern_spec(&self) -> Seq<char> {
        self.pattern@
    }

    /// Builds a mask from a pattern supporting `*` and `?` wildcards.
    pub fn new(pattern: &str) -> (r: Self)
        ensures
            r.pattern_spec() == pattern@,
    {
        FileMask { pattern: pattern.to_owned() }
    }

    /// Returns true when `path` matches this mask.
    pub fn matches(&self, path: &str) -> (r: bool)
        ensures
            r == glob_matches(self.pattern_spec(), path@),
    {
        wildcard_match(self.pattern.as_str(), path)
    }
}

/// Include/exclude decision after evaluating a mask set.
#[derive(Clone, Copy, Debug, PartialEq, Eq)]
pub enum MaskDecision {
    Included,
    Excluded,
}

/// Some pattern of `masks` matches `path`.
pub open spec fn any_matches(masks: Seq<Seq<char>>, path: Seq<char>) -> bool {
    exists|i: int| 0 <= i < masks.len() && glob_matches(#[trigger] masks[i], path)
}

/// The decision of a mask set with the given include and exclude patterns:
/// an exclusion that matches wins; otherwise the path is included when there
/// are no include masks or one of them matches.
pub open spec fn mask_decision(
    includes: Seq<Seq<char>>,
    excludes: Seq<Seq<char>>,
    path: Seq<char>,
) -> MaskDecision {
    if any_matches(excludes, path) {
        MaskDecision::Excluded
    } else if includes.len() == 0 || any_matches(includes, path) {
        MaskDecision::Included
    } else {
        MaskDecision::Excluded
    }
}

/// Ordered include/exclude masks. Exclusions win over inclusions.
#[derive(Clone, Debug, PartialEq, Eq)]
pub struct MaskSet {
    includes: Vec<FileMask>,
    excludes: Vec<FileMask>,
}

impl MaskSet {
    /// The include patterns, in the order they were added.
    pub closed spec fn include_patterns(&self) -> Seq<Seq<char>> {
        self.includes@.map_values(|m: FileMask| m.pattern_spec())
    }

    /// The exclude patterns, in the order they were added.
    pub closed spec fn exclude_patterns(&self) -> Seq<Seq<char>> {
        self.excludes@.map_values(|m: FileMask| m.pattern_spec())
    }

    pub fn new() -> (r: Self)
        ensures
            r.include_patterns() == Seq::<Seq<char>>::empty(),
            r.exclude_patterns() == Seq::<Seq<char>>::empty(),
    {
        let r = MaskSet { includes: Vec::new(), excludes: Vec::new() };
        assert(r.include_patterns() =~= Seq::<Seq<char>>::empty());
        assert(r.exclude_patterns() =~= Seq::<Seq<char>>::empty());
        r
    }

    /// Adds an include mask.
    pub fn include_pattern(self, pattern: &str) -> (r: Self)
        ensures
            r.include_patterns() == self.include_patterns().push(pattern@),
            r.exclude_patterns() == self.exclude_patterns(),
    {
        let mut r = self;
        r.includes.push(FileMask::new(pattern));
        assert(r.include_patterns() =~= self.include_patterns().push(pattern@));
        r
    }

    /// Adds an exclude mask.
    pub fn exclude(self, pattern: &str) -> (r: Self)
        ensures
            r.exclude_patterns() == self.exclude_patterns().push(pattern@),
            r.include_patterns() == self.include_patterns(),
    {
        let mut r = self;
        r.excludes.push(FileMask::new(pattern));
        assert(r.exclude_patterns() =~= self.exclude_patterns().push(pattern@));
        r
    }

    fn any_mask_matches(masks: &Vec<FileMask>, path: &str) -> (r: bool)
        ensures
            r == any_matches(masks@.map_values(|m: FileMask| m.pattern_spec()), path@),
    {
        let ghost pats = masks@.map_values(|m: FileMask| m.pattern_spec());
        let mut i: usize = 0;
        while i < masks.len()
            invariant
                i <= masks.len(),
                pats == masks@.map_values(|m: FileMask| m.pattern_spec()),
                forall|j: int| 0 <= j < i ==> !glob_matches(#[trigger] pats[j], path@),
            decreases masks.len() - i,
        {
            if masks[i].matches(path) {
                assert(glob_matches(pats[i as int], path@));
                return true;
            }
            i = i + 1;
        }
        false
    }

    /// Decides whether `path` is included by this mask set.
    pub fn decide(&self, path: &str) -> (r: MaskDecision)
        ensures
            r == mask_decision(self.include_patterns(), self.exclude_patterns(), path@),
            (exists|k: int| 0 <= k < self.exclude_patterns().len() && glob_matches(#[trigger] self.exclude_patterns()[k], path@))
                ==> r == MaskDecision::Excluded,
            (forall|k: int| 0 <= k < self.exclude_patterns().len() ==> !glob_matches(#[trigger] self.exclude_patterns()[k], path@))
                && (exists|k: int| 0 <= k < self.include_patterns().len() && glob_matches(#[trigger] self.include_patterns()[k], path@))
                ==> r == MaskDecision::Included,
            (forall|k: int| 0 <= k < self.exclude_patterns().len() ==> !glob_matches(#[trigger] self.exclude_patterns()[k], path@))
                && self.include_patterns().len() == 0 ==> r == MaskDecision::Included,
            self.include_patterns().len() > 0 && (forall|k: int| 0 <= k < self.include_patterns().len() ==> !glob_matches(#[trigger] self.include_patterns()[k], path@))
                ==> r == MaskDecision::Excluded,
    {
        proof {
            lemma_mask_decision_cases(self.include_patterns(), self.exclude_patterns(), path@);
        }
        if Self::any_mask_matches(&self.excludes, path) {
            return MaskDecision::Excluded;
        }
        if self.includes.len() == 0 || Self::any_mask_matches(&self.includes, path) {
            MaskDecision::Included
        } else {
            MaskDecision::Excluded
        }
    }
}

/// How a mask set decides, mask by mask: a matching exclusion excludes;
/// without one, a path that any include mask matches (whichever its
/// position) is included, every path is included when there are no include
/// masks, and a path that no include mask matches is excluded.
pub proof fn lemma_mask_decision_cases(includes: Seq<Seq<char>>, excludes: Seq<Seq<char>>, path: Seq<char>)
    ensures
        (exists|k: int| 0 <= k < excludes.len() && glob_matches(#[trigger] excludes[k], path)) ==> mask_decision(
            includes,
            excludes,
            path,
        ) == MaskDecision::Excluded,
        (forall|k: int| 0 <= k < excludes.len() ==> !glob_matches(#[trigger] excludes[k], path)) && (exists|k: int|
            0 <= k < includes.len() && glob_matches(#[trigger] includes[k], path)) ==> mask_decision(
            includes,
            excludes,
            path,
        ) == MaskDecision::Included,
        (forall|k: int| 0 <= k < excludes.len() ==> !glob_matches(#[trigger] excludes[k], path)) && includes.len()
            == 0 ==> mask_decision(includes, excludes, path) == MaskDecision::Included,
        includes.len() > 0 && (forall|k: int| 0 <= k < includes.len() ==> !glob_matches(#[trigger] includes[k], path))
            ==> mask_decision(includes, excludes, path) == MaskDecision::Excluded,
{
}

/// An exclusion that matches a path excludes it, whatever the include masks are.
pub proof fn lemma_exclusion_wins(
    includes: Seq<Seq<char>>,
    excludes: Seq<Seq<char>>,
    path: Seq<char>,
    k: int,
)
    requires
        0 <= k < excludes.len(),
        glob_matches(excludes[k], path),
    ensures
        mask_decision(includes, excludes, path) == MaskDecision::Excluded,
{
    assert(any_matches(excludes, path));
}

/// With no include masks, a path is included exactly when no exclusion matches it.
pub proof fn lemma_no_includes_admits_unexcluded(excludes: Seq<Seq<char>>, path: Seq<char>)
    ensures
        mask_decision(Seq::empty(), excludes, path) == MaskDecision::Included <==> !any_matches(
            excludes,
            path,
        ),
{
}

/// A star matches every text, the empty one included.
pub proof fn lemma_star_matches_everything(text: Seq<char>)
    ensures
        glob_matches(seq!['*'], text),
    decreases text.len(),
{
    let p = seq!['*'];
    assert(p[0] == '*');
    assert(p.drop_first() =~= Seq::<char>::empty());
    if text.len() > 0 {
        lemma_star_matches_everything(text.drop_first());
    } else {
        assert(glob_matches(p.drop_first(), text));
    }
}

/// A pattern without wildcards matches exactly the text equal to it.
pub proof fn lemma_literal_pattern(pattern: Seq<char>, text: Seq<char>)
    requires
        forall|i: int| 0 <= i < pattern.len() ==> #[trigger] pattern[i] != '*' && pattern[i] != '?',
    ensures
        glob_matches(pattern, text) <==> pattern == text,
    decreases pattern.len(),
{
    if pattern.len() > 0 {
        lemma_literal_pattern(pattern.drop_first(), text.drop_first());
        if text.len() > 0 && pattern[0] == text[0] && pattern.drop_first() == text.drop_first() {
            assert(pattern =~= seq![pattern[0]] + pattern.drop_first());
            assert(text =~= seq![text[0]] + text.drop_first());
        }
        if pattern == text {
            assert(pattern.drop_first() =~= text.drop_first());
        }
    } else {
        if text.len() == 0 {
            assert(pattern =~= text);
        }
    }
}

} // verus!
