//! Route paths: patterns of static segments, named parameters and
//! wildcards, and matching them against request paths.

use crate::text::{
    bounds_match, chars_of, path_components, range_eq, split_nonempty, split_nonempty_bounds,
    unix_path_components,
};
use vstd::prelude::*;
use vstd::slice::slice_to_vec;
use vstd::std_specs::convert::FromSpecImpl;
use vstd::string::*;

verus! {

/// One segment of a route pattern.
#[derive(Debug, Copy, Clone, Eq, PartialEq, PartialOrd, Ord, Hash)]
pub enum PathComponent<'a> {
    /// Matches exactly this text.
    Static(&'a str),
    /// A named parameter (`:name`); matches any segment.
    Param(&'a str),
    /// `*`; matches any segment.
    Wildcard,
}

/// What a pattern segment stands for, as text.
pub enum PatternPart {
    Static(Seq<char>),
    Param(Seq<char>),
    Wildcard,
}

impl<'a> View for PathComponent<'a> {
    type V = PatternPart;

    open spec fn view(&self) -> PatternPart {
        match self {
            PathComponent::Static(s) => PatternPart::Static(s@),
            PathComponent::Param(s) => PatternPart::Param(s@),
            PathComponent::Wildcard => PatternPart::Wildcard,
        }
    }
}

/// The pattern segment that a piece of a pattern text reads as: `*` is a
/// wildcard, `:name` a parameter, anything else static text.
pub open spec fn component_of(seg: Seq<char>) -> PatternPart {
    if seg == seq!['*'] {
        PatternPart::Wildcard
    } else if seg.len() > 0 && seg[0] == ':' {
        PatternPart::Param(seg.drop_first())
    } else {
        PatternPart::Static(seg)
    }
}

/// The pattern that a pattern text reads as: one segment per non-empty
/// piece between the `/`s.
pub open spec fn parse_pattern(path: Seq<char>) -> Seq<PatternPart> {
    split_nonempty(path, '/').map_values(|seg: Seq<char>| component_of(seg))
}

/// Whether a pattern segment accepts a path segment.
pub open spec fn part_matches(p: PatternPart, seg: Seq<char>) -> bool {
    match p {
        PatternPart::Static(e) => e == seg,
        _ => true,
    }
}

/// Whether a pattern accepts a path: the path has as many non-empty segments
/// as the pattern, and each is accepted by the pattern segment in its place.
pub open spec fn pattern_matches(ps: Seq<PatternPart>, path: Seq<char>) -> bool {
    let segs = split_nonempty(path, '/');
    &&& segs.len() == ps.len()
    &&& forall|i: int| 0 <= i < ps.len() ==> part_matches(#[trigger] ps[i], segs[i])
}

/// A pattern accepts a path only if the path has as many non-empty segments
/// between its `/`s, and every static segment of the pattern (the last one
/// too) is equal to the path segment in its place.
pub proof fn lemma_accepted_path_has_static_segments(ps: Seq<PatternPart>, path: Seq<char>, i: int)
    requires
        pattern_matches(ps, path),
        0 <= i < ps.len(),
    ensures
        split_nonempty(path, '/').len() == ps.len(),
        ps[i] matches PatternPart::Static(e) ==> split_nonempty(path, '/')[i] == e,
{
    assert(part_matches(ps[i], split_nonempty(path, '/')[i]));
}

/// A path whose non-empty segments are as many as the pattern's, and equal
/// to each static segment in its place, is accepted: parameters and
/// wildcards accept any segment.
pub proof fn lemma_path_with_static_segments_accepted(ps: Seq<PatternPart>, path: Seq<char>)
    requires
        split_nonempty(path, '/').len() == ps.len(),
        forall|i: int|
            0 <= i < ps.len() ==> (#[trigger] ps[i] matches PatternPart::Static(e) ==> split_nonempty(
                path,
                '/',
            )[i] == e),
    ensures
        pattern_matches(ps, path),
{
    assert forall|i: int| 0 <= i < ps.len() implies part_matches(#[trigger] ps[i], split_nonempty(path, '/')[i]) by {
        match ps[i] {
            PatternPart::Static(e) => assert(split_nonempty(path, '/')[i] == e),
            _ => {},
        }
    }
}

impl<'a> PathComponent<'a> {
    /// Whether this segment accepts `actual`: static text must be equal,
    /// parameters and wildcards accept anything.
    pub fn matches_segment(&self, actual: &str) -> (b: bool)
        ensures
            b == part_matches(self@, actual@),
    {
        match self {
            PathComponent::Static(expected) => {
                let v = chars_of(actual);
                assert(v@.subrange(0, v@.len() as int) =~= v@);
                range_eq(&v, 0, v.len(), expected)
            },
            _ => true,
        }
    }

    /// The segment that one piece of a pattern text reads as.
    fn of_segment(seg: &'a str) -> (c: PathComponent<'a>)
        ensures
            c@ == component_of(seg@),
    {
        let n = seg.unicode_len();
        if n == 1 && seg.get_char(0) == '*' {
            assert(seg@ =~= seq!['*']);
            PathComponent::Wildcard
        } else if n > 0 && seg.get_char(0) == ':' {
            let name = seg.substring_char(1, n);
            assert(name@ =~= seg@.drop_first());
            PathComponent::Param(name)
        } else {
            PathComponent::Static(seg)
        }
    }
}

/// A route pattern: the segments a request path must have.
#[derive(Debug, Clone, Eq, PartialEq)]
pub struct PathMatcher<'a>(pub Vec<PathComponent<'a>>);

impl<'a> View for PathMatcher<'a> {
    type V = Seq<PatternPart>;

    open spec fn view(&self) -> Seq<PatternPart> {
        self.0@.map_values(|c: PathComponent<'a>| c@)
    }
}

impl<'a> PathMatcher<'a> {
    /// Reads a pattern text: each non-empty piece between the `/`s becomes a
    /// segment; `*` is a wildcard, `:name` a parameter named `name`, anything
    /// else static text. The segments borrow from `path`.
    pub fn parse(path: &'a str) -> (m: PathMatcher<'a>)
        ensures
            m@ == parse_pattern(path@),
    {
        let v = chars_of(path);
        let bounds = split_nonempty_bounds(&v, '/');
        let ghost segs = split_nonempty(v@, '/');
        let mut comps: Vec<PathComponent<'a>> = Vec::new();
        let mut i: usize = 0;
        while i < bounds.len()
            invariant
                v@ == path@,
                bounds_match(v@, bounds@, segs),
                segs == split_nonempty(path@, '/'),
                i <= bounds@.len(),
                comps@.len() == i,
                forall|j: int| 0 <= j < i ==> (#[trigger] comps@[j])@ == component_of(segs[j]),
            decreases bounds@.len() - i,
        {
            let (a, b) = bounds[i];
            assert(bounds@[i as int].0 <= bounds@[i as int].1 <= v@.len());
            let seg = path.substring_char(a, b);
            comps.push(PathComponent::of_segment(seg));
            i = i + 1;
        }
        let m = PathMatcher(comps);
        assert(m@ =~= parse_pattern(path@));
        m
    }

    /// A pattern made of these segments.
    pub fn from_components(components: &[PathComponent<'a>]) -> (m: PathMatcher<'a>)
        ensures
            m.0@ == components@,
    {
        PathMatcher(slice_to_vec(components))
    }

    /// Whether `path` has as many non-empty segments between its `/`s as this
    /// pattern, each accepted by the segment in its place (static text must be
    /// equal; parameters and wildcards accept anything). The empty pattern
    /// accepts `/`.
    pub fn matches(&self, path: &str) -> (b: bool)
        ensures
            b == pattern_matches(self@, path@),
    {
        let v = chars_of(path);
        let bounds = split_nonempty_bounds(&v, '/');
        let ghost segs = split_nonempty(v@, '/');
        if bounds.len() != self.0.len() {
            return false;
        }
        let mut i: usize = 0;
        while i < bounds.len()
            invariant
                v@ == path@,
                bounds_match(v@, bounds@, segs),
                segs == split_nonempty(path@, '/'),
                bounds@.len() == self.0@.len(),
                i <= bounds@.len(),
                forall|j: int| 0 <= j < i ==> part_matches(#[trigger] self@[j], segs[j]),
            decreases bounds@.len() - i,
        {
            let (a, b) = bounds[i];
            assert(bounds@[i as int].0 <= bounds@[i as int].1 <= v@.len());
            match self.0[i] {
                PathComponent::Static(expected) => {
                    if !range_eq(&v, a, b, expected) {
                        assert(!part_matches(self@[i as int], segs[i as int]));
                        return false;
                    }
                },
                _ => {},
            }
            i = i + 1;
        }
        true
    }
}

/// A pattern read from its own text accepts that text as a path: every route
/// matches the path it was declared with.
pub proof fn lemma_pattern_matches_own_path(path: Seq<char>)
    ensures
        pattern_matches(parse_pattern(path), path),
{
    let segs = split_nonempty(path, '/');
    let ps = parse_pattern(path);
    assert forall|i: int| 0 <= i < ps.len() implies part_matches(#[trigger] ps[i], segs[i]) by {
        assert(ps[i] == component_of(segs[i]));
    }
}

impl<'a> From<&'a str> for PathMatcher<'a> {
    /// Same as [`PathMatcher::parse`].
    fn from(path: &'a str) -> (m: PathMatcher<'a>)
        ensures
            m@ == parse_pattern(path@),
    {
        PathMatcher::parse(path)
    }
}

impl<'a> PathMatcher<'a> {
    /// A pattern of static segments, one per component of the Unix
    /// file-system path with this text, as `Path::iter` yields them (see
    /// [`unix_path_components`]): the root `/` is a component of its own.
    pub fn from_path(path: &'a str) -> (m: PathMatcher<'a>)
        ensures
            m.0@.len() == unix_path_components(path@).len(),
            forall|i: int|
                0 <= i < m.0@.len() ==> (#[trigger] m@[i]) == PatternPart::Static(
                    unix_path_components(path@)[i],
                ),
    {
        let comps = path_components(path);
        let mut out: Vec<PathComponent<'a>> = Vec::new();
        let mut i: usize = 0;
        while i < comps.len()
            invariant
                i <= comps@.len(),
                out@.len() == i,
                forall|j: int| 0 <= j < i ==> (#[trigger] out@[j]) == PathComponent::Static(comps@[j]),
            decreases comps@.len() - i,
        {
            out.push(PathComponent::Static(comps[i]));
            i = i + 1;
        }
        let m = PathMatcher(out);
        assert forall|j: int| 0 <= j < m.0@.len() implies (#[trigger] m@[j]) == PatternPart::Static(
            unix_path_components(path@)[j],
        ) by {
            assert(m@[j] == m.0@[j]@);
        }
        m
    }
}

impl<'a> From<&'a String> for PathMatcher<'a> {
    /// Same as [`PathMatcher::parse`] on the text of the string.
    fn from(path: &'a String) -> (m: PathMatcher<'a>)
        ensures
            m@ == parse_pattern(path@),
    {
        PathMatcher::parse(path.as_str())
    }
}

impl<'a> From<&'a [PathComponent<'a>]> for PathMatcher<'a> {
    /// Same as [`PathMatcher::from_components`].
    fn from(path: &'a [PathComponent<'a>]) -> (m: PathMatcher<'a>)
        ensures
            m.0@ == path@,
    {
        PathMatcher::from_components(path)
    }
}

impl<'a> From<Vec<PathComponent<'a>>> for PathMatcher<'a> {
    /// A pattern made of these segments.
    fn from(path: Vec<PathComponent<'a>>) -> (m: PathMatcher<'a>)
        ensures
            m.0 == path,
    {
        PathMatcher(path)
    }
}

impl<'a> FromSpecImpl<&'a str> for PathMatcher<'a> {
    /// The conversion is stated by the inherent constructor it calls.
    open spec fn obeys_from_spec() -> bool {
        false
    }

    open spec fn from_spec(v: &'a str) -> PathMatcher<'a> {
        arbitrary()
    }
}

impl<'a> FromSpecImpl<&'a String> for PathMatcher<'a> {
    /// The conversion is stated by the inherent constructor it calls.
    open spec fn obeys_from_spec() -> bool {
        false
    }

    open spec fn from_spec(v: &'a String) -> PathMatcher<'a> {
        arbitrary()
    }
}

impl<'a> FromSpecImpl<&'a [PathComponent<'a>]> for PathMatcher<'a> {
    /// The conversion is stated by the inherent constructor it calls.
    open spec fn obeys_from_spec() -> bool {
        false
    }

    open spec fn from_spec(v: &'a [PathComponent<'a>]) -> PathMatcher<'a> {
        arbitrary()
    }
}

impl<'a> FromSpecImpl<Vec<PathComponent<'a>>> for PathMatcher<'a> {
    open spec fn obeys_from_spec() -> bool {
        true
    }

    open spec fn from_spec(v: Vec<PathComponent<'a>>) -> PathMatcher<'a> {
        PathMatcher(v)
    }
}

} // verus!
