//! Route patterns: templates such as `/a/<x>/b`, made of literal segments and
//! placeholders, and the test of a path against one.

use crate::text::chars_of;
use crate::text::count_of;
use crate::text::same_chars;
use crate::text::slice_chars;
use crate::text::split_chars;
use crate::text::split_on;
use crate::text::views_of;
use std::collections::HashMap;
use vstd::prelude::*;

verus! {

broadcast use vstd::std_specs::hash::group_hash_axioms;

/// Why a pattern cannot be registered.
#[derive(PartialEq, Eq, Clone, Copy, Debug, Structural)]
pub enum RegistrationError {
    /// A `<` is followed by no `>`.
    UnclosedPlaceholder,
    /// A `>` stands before the first `/`, so that the placeholder lies in no
    /// segment of a path.
    PlaceholderOutsidePath,
}

/// For each `>` of the pattern, from left to right, the offset of the segment
/// it closes a placeholder in: the number of `/` before it, less one, so that
/// the segment after the leading `/` has offset 0.
pub open spec fn param_offsets(pattern: Seq<char>) -> Seq<int>
    decreases pattern.len(),
{
    if pattern.len() == 0 {
        Seq::<int>::empty()
    } else {
        let before = param_offsets(pattern.drop_last());
        if pattern.last() == '>' {
            before.push(count_of(pattern.drop_last(), '/') - 1)
        } else {
            before
        }
    }
}

/// Whether some `<` of the pattern has no `>` after it.
pub open spec fn placeholder_left_open(pattern: Seq<char>) -> bool {
    exists|i: int|
        0 <= i < pattern.len() && #[trigger] pattern[i] == '<' && forall|j: int|
            i < j < pattern.len() ==> #[trigger] pattern[j] != '>'
}

/// Whether some `>` of the pattern has no `/` before it.
pub open spec fn placeholder_outside_path(pattern: Seq<char>) -> bool {
    exists|i: int|
        0 <= i < pattern.len() && #[trigger] pattern[i] == '>' && count_of(pattern.take(i), '/')
            == 0
}

/// The map from the ordinal of a placeholder to its segment offset.
pub open spec fn ordinal_map(offsets: Seq<int>) -> Map<usize, usize> {
    Map::new(|k: usize| k < offsets.len(), |k: usize| offsets[k as int] as usize)
}

/// What registering `pattern` gives: the map from placeholder ordinals to
/// segment offsets, or the reason why the pattern is refused.
pub open spec fn param_segments_of(pattern: Seq<char>) -> Result<
    Map<usize, usize>,
    RegistrationError,
> {
    if placeholder_outside_path(pattern) {
        Err(RegistrationError::PlaceholderOutsidePath)
    } else if placeholder_left_open(pattern) {
        Err(RegistrationError::UnclosedPlaceholder)
    } else {
        Ok(ordinal_map(param_offsets(pattern)))
    }
}

/// Whether the last of the characters `<` and `>` in the pattern is a `<`.
spec fn ends_open(pattern: Seq<char>) -> bool
    decreases pattern.len(),
{
    if pattern.len() == 0 {
        false
    } else if pattern.last() == '<' {
        true
    } else if pattern.last() == '>' {
        false
    } else {
        ends_open(pattern.drop_last())
    }
}

proof fn lemma_ends_open(pattern: Seq<char>)
    ensures
        ends_open(pattern) == placeholder_left_open(pattern),
    decreases pattern.len(),
{
    if pattern.len() == 0 {
    } else {
        let front = pattern.drop_last();
        let n = pattern.len() - 1;
        lemma_ends_open(front);
        if pattern.last() == '<' {
            assert(pattern[n] == '<');
        } else if pattern.last() == '>' {
            assert forall|i: int| 0 <= i < pattern.len() && pattern[i] == '<' implies !(forall|
                j: int,
            |
                i < j < pattern.len() ==> #[trigger] pattern[j] != '>') by {
                assert(pattern[n] == '>');
            }
        } else {
            if placeholder_left_open(front) {
                let i = choose|i: int|
                    0 <= i < front.len() && #[trigger] front[i] == '<' && forall|j: int|
                        i < j < front.len() ==> #[trigger] front[j] != '>';
                assert(pattern[i] == '<');
                assert forall|j: int| i < j < pattern.len() implies #[trigger] pattern[j]
                    != '>' by {
                    if j < n {
                        assert(front[j] != '>');
                    }
                }
            }
            if placeholder_left_open(pattern) {
                let i = choose|i: int|
                    0 <= i < pattern.len() && #[trigger] pattern[i] == '<' && forall|j: int|
                        i < j < pattern.len() ==> #[trigger] pattern[j] != '>';
                assert(front[i] == '<');
                assert forall|j: int| i < j < front.len() implies #[trigger] front[j] != '>' by {
                    assert(pattern[j] != '>');
                }
            }
        }
    }
}

/// Every offset of a pattern whose placeholders all lie in the path is a
/// natural number below the pattern's length.
pub proof fn lemma_param_offsets_bounds(pattern: Seq<char>)
    requires
        !placeholder_outside_path(pattern),
    ensures
        forall|k: int|
            0 <= k < param_offsets(pattern).len() ==> 0 <= #[trigger] param_offsets(pattern)[k]
                < pattern.len(),
        param_offsets(pattern).len() <= pattern.len(),
    decreases pattern.len(),
{
    if pattern.len() > 0 {
        let front = pattern.drop_last();
        let n = pattern.len() - 1;
        assert forall|i: int| 0 <= i < front.len() && #[trigger] front[i] == '>' implies count_of(
            front.take(i),
            '/',
        ) != 0 by {
            assert(pattern[i] == '>');
            assert(pattern.take(i) =~= front.take(i));
        }
        lemma_param_offsets_bounds(front);
        lemma_count_bound(front, '/');
        if pattern.last() == '>' {
            assert(pattern[n] == '>');
            assert(pattern.take(n) =~= front);
        }
    }
}

/// The offsets of the placeholders of a pattern never fall from one
/// placeholder to the next, and none lies beyond the last segment.
pub proof fn lemma_param_offsets_ascend(pattern: Seq<char>)
    ensures
        forall|i: int, j: int|
            0 <= i <= j < param_offsets(pattern).len() ==> param_offsets(pattern)[i]
                <= param_offsets(pattern)[j],
        forall|k: int|
            0 <= k < param_offsets(pattern).len() ==> #[trigger] param_offsets(pattern)[k]
                <= count_of(pattern, '/') - 1,
    decreases pattern.len(),
{
    if pattern.len() > 0 {
        let front = pattern.drop_last();
        lemma_param_offsets_ascend(front);
        let before = param_offsets(front);
        let now = param_offsets(pattern);
        assert(count_of(front, '/') <= count_of(pattern, '/'));
        assert forall|k: int| 0 <= k < now.len() implies #[trigger] now[k] <= count_of(
            pattern,
            '/',
        ) - 1 by {
            if k < before.len() {
                assert(now[k] == before[k]);
            }
        }
        assert forall|i: int, j: int| 0 <= i <= j < now.len() implies now[i] <= now[j] by {
            if j < before.len() {
                assert(now[i] == before[i] && now[j] == before[j]);
            } else if i < before.len() {
                assert(now[i] == before[i]);
            }
        }
    }
}

/// A character occurs in a text at most as often as the text is long.
pub proof fn lemma_count_bound(s: Seq<char>, c: char)
    ensures
        count_of(s, c) <= s.len(),
    decreases s.len(),
{
    if s.len() > 0 {
        lemma_count_bound(s.drop_last(), c);
    }
}

/// Reads a pattern and gives the map from the ordinal of each placeholder to
/// the offset of its segment, or refuses the pattern.
pub fn parse_param_segments(value: String) -> (r: Result<HashMap<usize, usize>, RegistrationError>)
    ensures
        match r {
            Ok(map) => param_segments_of(value@) == Ok::<Map<usize, usize>, RegistrationError>(
                map@,
            ),
            Err(e) => param_segments_of(value@) == Err::<Map<usize, usize>, RegistrationError>(e),
        },
{
    let chars = chars_of(value.as_str());
    let mut param_segments: HashMap<usize, usize> = HashMap::new();
    let mut beginning_found = false;
    let mut slash_counter: usize = 0;
    let mut found: usize = 0;
    let mut i: usize = 0;
    assert(param_segments@ =~= ordinal_map(param_offsets(chars@.take(0))));
    while i < chars.len()
        invariant
            i <= chars.len(),
            chars@ == value@,
            beginning_found == ends_open(chars@.take(i as int)),
            slash_counter == count_of(chars@.take(i as int), '/'),
            found == param_offsets(chars@.take(i as int)).len(),
            found <= i,
            slash_counter <= i,
            param_segments@ == ordinal_map(param_offsets(chars@.take(i as int))),
            forall|k: int|
                0 <= k < i && #[trigger] chars@[k] == '>' ==> count_of(chars@.take(k), '/') != 0,
        decreases chars.len() - i,
    {
        let c = chars[i];
        let ghost seen = chars@.take(i as int);
        let ghost now = chars@.take(i + 1);
        proof {
            assert(now.drop_last() =~= seen);
            assert(now.last() == c);
        }
        if c == '/' {
            slash_counter += 1;
        } else if c == '<' {
            beginning_found = true;
        } else if c == '>' {
            if slash_counter == 0 {
                proof {
                    assert(value@[i as int] == '>');
                    assert(value@.take(i as int) =~= seen);
                }
                return Err(RegistrationError::PlaceholderOutsidePath);
            }
            beginning_found = false;
            param_segments.insert(found, slash_counter - 1);
            proof {
                let offsets = param_offsets(seen);
                assert(param_offsets(now) == offsets.push(slash_counter - 1));
                assert(param_segments@ =~= ordinal_map(param_offsets(now)));
            }
            found += 1;
        }
        i += 1;
    }
    proof {
        assert(chars@.take(chars.len() as int) =~= chars@);
        lemma_ends_open(value@);
        assert(!placeholder_outside_path(value@)) by {
            if placeholder_outside_path(value@) {
                let k = choose|k: int|
                    0 <= k < value@.len() && #[trigger] value@[k] == '>' && count_of(
                        value@.take(k),
                        '/',
                    ) == 0;
                assert(chars@[k] == '>');
            }
        }
    }
    if beginning_found {
        return Err(RegistrationError::UnclosedPlaceholder);
    }
    Ok(param_segments)
}

/// Whether a segment of a pattern is a placeholder: it starts with `<` and
/// ends with `>`.
pub open spec fn is_placeholder(segment: Seq<char>) -> bool {
    segment.len() > 0 && segment.first() == '<' && segment.last() == '>'
}

/// Whether a segment of a path fits a segment of a pattern: a placeholder
/// takes any segment that is not empty, a literal takes only itself.
pub open spec fn segment_matches(pattern_segment: Seq<char>, path_segment: Seq<char>) -> bool {
    if is_placeholder(pattern_segment) {
        path_segment.len() > 0
    } else {
        pattern_segment == path_segment
    }
}

/// Whether the segments of a path fit the segments of a pattern, one by one
/// and with none left over on either side.
pub open spec fn segments_match(pattern: Seq<Seq<char>>, path: Seq<Seq<char>>) -> bool {
    &&& pattern.len() == path.len()
    &&& forall|i: int| 0 <= i < pattern.len() ==> segment_matches(#[trigger] pattern[i], path[i])
}

/// Whether `path` matches `pattern`: both are split at `/` and compared
/// segment by segment.
pub open spec fn path_matches(pattern: Seq<char>, path: Seq<char>) -> bool {
    segments_match(split_on(pattern, '/'), split_on(path, '/'))
}

/// A path matches a pattern exactly when both have the same number of
/// segments and each literal segment of the pattern equals the segment of
/// the path at its place, provided that no empty segment of the path faces a
/// placeholder.
pub proof fn lemma_matches_by_literals(pattern: Seq<char>, path: Seq<char>)
    requires
        forall|i: int|
            0 <= i < split_on(pattern, '/').len() && i < split_on(path, '/').len()
                && is_placeholder(#[trigger] split_on(pattern, '/')[i]) ==> split_on(
                path,
                '/',
            )[i].len() > 0,
    ensures
        path_matches(pattern, path) <==> {
            &&& split_on(pattern, '/').len() == split_on(path, '/').len()
            &&& forall|i: int|
                0 <= i < split_on(pattern, '/').len() && !is_placeholder(
                    #[trigger] split_on(pattern, '/')[i],
                ) ==> split_on(pattern, '/')[i] == split_on(path, '/')[i]
        },
{
}

/// Whether a segment of a pattern is a placeholder.
pub fn segment_is_placeholder(segment: &Vec<char>) -> (r: bool)
    ensures
        r == is_placeholder(segment@),
{
    segment.len() > 0 && segment[0] == '<' && segment[segment.len() - 1] == '>'
}

/// Whether the segments of a path fit the segments of a pattern.
pub fn segments_fit(pattern: &Vec<Vec<char>>, path: &Vec<Vec<char>>) -> (r: bool)
    ensures
        r == segments_match(views_of(pattern@), views_of(path@)),
{
    if pattern.len() != path.len() {
        return false;
    }
    let mut i: usize = 0;
    while i < pattern.len()
        invariant
            i <= pattern.len(),
            pattern.len() == path.len(),
            forall|k: int|
                0 <= k < i ==> segment_matches(
                    #[trigger] views_of(pattern@)[k],
                    views_of(path@)[k],
                ),
        decreases pattern.len() - i,
    {
        let fits = if segment_is_placeholder(&pattern[i]) {
            path[i].len() > 0
        } else {
            same_chars(&pattern[i], &path[i])
        };
        if !fits {
            assert(!segment_matches(views_of(pattern@)[i as int], views_of(path@)[i as int]));
            return false;
        }
        i += 1;
    }
    true
}

/// The offsets of the segments of the placeholders of a pattern, in the
/// order of the placeholders.
pub open spec fn offsets_in_order(pattern: Seq<char>) -> Seq<usize> {
    Seq::new(param_offsets(pattern).len(), |k: int| param_offsets(pattern)[k] as usize)
}

/// A copy of a list of offsets.
pub fn copy_offsets(offsets: &Vec<usize>) -> (copy: Vec<usize>)
    ensures
        copy@ == offsets@,
{
    let mut copy: Vec<usize> = Vec::new();
    let mut i: usize = 0;
    while i < offsets.len()
        invariant
            i <= offsets.len(),
            copy@ == offsets@.take(i as int),
        decreases offsets.len() - i,
    {
        copy.push(offsets[i]);
        assert(copy@ =~= offsets@.take(i + 1));
        i += 1;
    }
    assert(offsets@.take(offsets.len() as int) =~= offsets@);
    copy
}

/// A copy of a list of segments.
pub fn copy_segments(segments: &Vec<Vec<char>>) -> (copy: Vec<Vec<char>>)
    ensures
        views_of(copy@) == views_of(segments@),
{
    let mut copy: Vec<Vec<char>> = Vec::new();
    let mut i: usize = 0;
    while i < segments.len()
        invariant
            i <= segments.len(),
            views_of(copy@) == views_of(segments@).take(i as int),
        decreases segments.len() - i,
    {
        let ghost done = views_of(copy@);
        let piece = slice_chars(&segments[i], 0, segments[i].len());
        assert(piece@ =~= segments@[i as int]@);
        copy.push(piece);
        assert(views_of(copy@) =~= done.push(segments@[i as int]@));
        assert(views_of(segments@).take(i + 1) =~= done.push(segments@[i as int]@));
        i += 1;
    }
    assert(views_of(segments@).take(segments.len() as int) =~= views_of(segments@));
    copy
}

/// What a route keeps of its pattern: the pattern as registered, its
/// segments, and the offsets of its placeholders.
#[derive(Debug)]
pub struct RouteMetadata {
    origin: String,
    segments: Vec<Vec<char>>,
    param_segments: HashMap<usize, usize>,
    ordered: Vec<usize>,
}

impl RouteMetadata {
    #[verifier::type_invariant]
    spec fn well_formed(self) -> bool {
        &&& views_of(self.segments@) == split_on(self.origin@, '/')
        &&& param_segments_of(self.origin@) == Ok::<Map<usize, usize>, RegistrationError>(
            self.param_segments@,
        )
        &&& self.ordered@ == offsets_in_order(self.origin@)
    }

    /// The pattern as it was registered.
    pub closed spec fn pattern(self) -> Seq<char> {
        self.origin@
    }

    /// The map from the ordinal of a placeholder to its segment offset.
    pub closed spec fn offsets(self) -> Map<usize, usize> {
        self.param_segments@
    }

    /// Reads a pattern; refuses one that `parse_param_segments` refuses.
    pub fn try_from(value: String) -> (r: Result<RouteMetadata, RegistrationError>)
        ensures
            match r {
                Ok(meta) => meta.pattern() == value@ && param_segments_of(value@) == Ok::<
                    Map<usize, usize>,
                    RegistrationError,
                >(meta.offsets()),
                Err(e) => param_segments_of(value@) == Err::<Map<usize, usize>, RegistrationError>(
                    e,
                ),
            },
    {
        let chars = chars_of(value.as_str());
        let segments = split_chars(&chars, '/');
        match parse_param_segments(value.clone()) {
            Ok(param_segments) => {
                let ghost offsets = param_offsets(value@);
                proof {
                    lemma_param_offsets_bounds(value@);
                }
                let mut ordered: Vec<usize> = Vec::new();
                let mut k: usize = 0;
                while k < chars.len() && param_segments.contains_key(&k)
                    invariant
                        k <= chars.len(),
                        chars@.len() == value@.len(),
                        offsets == param_offsets(value@),
                        offsets.len() <= value@.len(),
                        param_segments@ == ordinal_map(offsets),
                        k <= offsets.len(),
                        ordered@ == offsets_in_order(value@).take(k as int),
                    decreases chars.len() - k,
                {
                    let at = *param_segments.get(&k).unwrap();
                    ordered.push(at);
                    assert(ordered@ =~= offsets_in_order(value@).take(k + 1));
                    k += 1;
                }
                assert(k == offsets.len());
                assert(offsets_in_order(value@).take(k as int) =~= offsets_in_order(value@));
                Ok(RouteMetadata { origin: value, segments, param_segments, ordered })
            },
            Err(e) => Err(e),
        }
    }

    /// The pattern as it was registered.
    pub fn origin(&self) -> (s: &String)
        ensures
            s@ == self.pattern(),
    {
        &self.origin
    }

    /// The map from the ordinal of a placeholder to its segment offset: for
    /// `/test/<a>/<b>` it maps 0 to 1 and 1 to 2.
    pub fn param_segments(&self) -> (map: &HashMap<usize, usize>)
        ensures
            map@ == self.offsets(),
            param_segments_of(self.pattern()) == Ok::<Map<usize, usize>, RegistrationError>(
                map@,
            ),
    {
        proof {
            use_type_invariant(self);
        }
        &self.param_segments
    }

    /// Whether a path, given by its segments, matches the pattern.
    pub fn fits(&self, path: &Vec<Vec<char>>) -> (r: bool)
        ensures
            r == segments_match(split_on(self.pattern(), '/'), views_of(path@)),
    {
        proof {
            use_type_invariant(self);
        }
        segments_fit(&self.segments, path)
    }

    /// A copy with the same pattern and the same offsets.
    pub fn duplicate(&self) -> (copy: RouteMetadata)
        ensures
            copy.pattern() == self.pattern(),
            copy.offsets() == self.offsets(),
    {
        proof {
            use_type_invariant(self);
        }
        RouteMetadata {
            origin: self.origin.clone(),
            segments: copy_segments(&self.segments),
            param_segments: self.param_segments.clone(),
            ordered: copy_offsets(&self.ordered),
        }
    }

    /// The offsets of the segments of the placeholders, in the order of the
    /// placeholders.
    pub fn offsets_list(&self) -> (list: Vec<usize>)
        ensures
            list@ == offsets_in_order(self.pattern()),
    {
        proof {
            use_type_invariant(self);
        }
        copy_offsets(&self.ordered)
    }

    /// Whether `path` matches the pattern.
    pub fn matches_path(&self, path: &str) -> (r: bool)
        ensures
            r == path_matches(self.pattern(), path@),
    {
        let segments = split_chars(&chars_of(path), '/');
        self.fits(&segments)
    }
}

} // verus!
