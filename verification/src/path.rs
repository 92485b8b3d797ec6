//! Request paths and their resolution below the shared root.
//!
//! A decoded request path is cut at every `/` into segments. Walking the
//! segments from the left keeps a stack of names: an empty segment and `.`
//! change nothing, `..` drops the last name, anything else is pushed. A walk
//! that meets `..` on an empty stack would leave the root, and is refused.

use vstd::prelude::*;

verus! {

/// The separator of path segments.
pub open spec fn is_separator(c: char) -> bool {
    c == '/'
}

/// The segment `.`.
pub open spec fn is_current(s: Seq<char>) -> bool {
    s.len() == 1 && s[0] == '.'
}

/// The segment `..`.
pub open spec fn is_parent(s: Seq<char>) -> bool {
    s.len() == 2 && s[0] == '.' && s[1] == '.'
}

/// A segment that names an entry of a directory: not empty, neither `.` nor
/// `..`, and without a separator in it.
pub open spec fn is_plain_name(s: Seq<char>) -> bool {
    &&& s.len() > 0
    &&& !is_current(s)
    &&& !is_parent(s)
    &&& forall|i: int| 0 <= i < s.len() ==> !is_separator(#[trigger] s[i])
}

/// Every element of `names` is a plain name.
pub open spec fn all_plain(names: Seq<Seq<char>>) -> bool {
    forall|i: int| 0 <= i < names.len() ==> is_plain_name(#[trigger] names[i])
}

/// The segments of `p`: the pieces between its separators, in order. A path
/// with `n` separators has `n + 1` segments, some of which may be empty.
pub open spec fn split(p: Seq<char>) -> Seq<Seq<char>>
    decreases p.len(),
{
    if p.len() == 0 {
        seq![Seq::<char>::empty()]
    } else {
        let before = split(p.drop_last());
        if is_separator(p.last()) {
            before.push(Seq::<char>::empty())
        } else {
            before.drop_last().push(before.last().push(p.last()))
        }
    }
}

/// The segments put together again, with one separator between neighbours.
pub open spec fn join(segments: Seq<Seq<char>>) -> Seq<char>
    decreases segments.len(),
{
    if segments.len() == 0 {
        Seq::<char>::empty()
    } else if segments.len() == 1 {
        segments[0]
    } else {
        join(segments.drop_last()).push('/') + segments.last()
    }
}

/// No segment holds a separator.
pub open spec fn separator_free(segments: Seq<Seq<char>>) -> bool {
    forall|i: int, j: int|
        0 <= i < segments.len() && 0 <= j < segments[i].len() ==> !is_separator(
            #[trigger] segments[i][j],
        )
}

/// What a vector of segments stands for.
pub open spec fn segments_of(v: Seq<Vec<char>>) -> Seq<Seq<char>> {
    Seq::new(v.len(), |i: int| v[i]@)
}

/// `split` never returns an empty sequence, and no segment holds a separator.
pub proof fn lemma_split_shape(p: Seq<char>)
    ensures
        split(p).len() >= 1,
        separator_free(split(p)),
    decreases p.len(),
{
    if p.len() > 0 {
        lemma_split_shape(p.drop_last());
    }
}

/// Cutting a path into segments loses nothing: joined again they give the path.
pub proof fn lemma_join_split(p: Seq<char>)
    ensures
        join(split(p)) == p,
    decreases p.len(),
{
    if p.len() == 0 {
    } else {
        let q = p.drop_last();
        let before = split(q);
        lemma_split_shape(q);
        lemma_join_split(q);
        if is_separator(p.last()) {
            let s = before.push(Seq::<char>::empty());
            assert(s.drop_last() == before);
            assert(join(s) == join(before).push('/') + Seq::<char>::empty());
            assert(join(s) == q.push('/'));
            assert(q.push(p.last()) == p);
        } else {
            let s = before.drop_last().push(before.last().push(p.last()));
            lemma_join_push_last(before, p.last());
            assert(q.push(p.last()) == p);
        }
    }
}

/// Appending a character to the last segment appends it to the joined path.
pub proof fn lemma_join_push_last(segments: Seq<Seq<char>>, c: char)
    requires
        segments.len() >= 1,
    ensures
        join(segments.drop_last().push(segments.last().push(c))) == join(segments).push(c),
{
    let s = segments.drop_last().push(segments.last().push(c));
    if segments.len() == 1 {
        assert(s[0] == segments[0].push(c));
    } else {
        assert(s.drop_last() == segments.drop_last());
        assert(join(s) == join(segments.drop_last()).push('/') + segments.last().push(c));
        assert(join(segments) == join(segments.drop_last()).push('/') + segments.last());
        assert(join(segments.drop_last()).push('/') + segments.last().push(c) == (join(
            segments.drop_last(),
        ).push('/') + segments.last()).push(c));
    }
}

/// What one segment does to the stack of names that the walk has reached:
/// `None` where it would leave the root.
pub open spec fn step(stack: Seq<Seq<char>>, segment: Seq<char>) -> Option<Seq<Seq<char>>> {
    if segment.len() == 0 || is_current(segment) {
        Some(stack)
    } else if is_parent(segment) {
        if stack.len() == 0 {
            None
        } else {
            Some(stack.drop_last())
        }
    } else {
        Some(stack.push(segment))
    }
}

/// The names that a walk over `segments` ends on, or `None` where some step
/// of it would leave the root.
pub open spec fn walk(segments: Seq<Seq<char>>) -> Option<Seq<Seq<char>>>
    decreases segments.len(),
{
    if segments.len() == 0 {
        Some(Seq::<Seq<char>>::empty())
    } else {
        match walk(segments.drop_last()) {
            None => None,
            Some(stack) => step(stack, segments.last()),
        }
    }
}

/// By how much one segment changes the depth below the root.
pub open spec fn rise(segment: Seq<char>) -> int {
    if segment.len() == 0 || is_current(segment) {
        0
    } else if is_parent(segment) {
        -1
    } else {
        1
    }
}

/// The depth below the root after all of `segments`: names count up, `..`
/// counts down, and nothing stops the count at the root.
pub open spec fn depth(segments: Seq<Seq<char>>) -> int
    decreases segments.len(),
{
    if segments.len() == 0 {
        0
    } else {
        depth(segments.drop_last()) + rise(segments.last())
    }
}

/// Some prefix of `segments` ends above the root.
pub open spec fn climbs_out(segments: Seq<Seq<char>>) -> bool {
    exists|k: int| 0 <= k <= segments.len() && #[trigger] depth(segments.take(k)) < 0
}

/// The walk is refused exactly when some prefix of the segments ends above
/// the root. Where it is not refused, it ends on as many names as the depth
/// says, and each of them is a plain name.
pub proof fn lemma_walk_depth(segments: Seq<Seq<char>>)
    requires
        separator_free(segments),
    ensures
        walk(segments) is None <==> climbs_out(segments),
        walk(segments) matches Some(stack) ==> stack.len() == depth(segments) && all_plain(stack),
    decreases segments.len(),
{
    if segments.len() == 0 {
        assert forall|k: int| 0 <= k <= segments.len() implies depth(
            #[trigger] segments.take(k),
        ) >= 0 by {
            assert(segments.take(k) == segments);
        }
    } else {
        let init = segments.drop_last();
        let last = segments.last();
        assert(separator_free(init)) by {
            assert forall|i: int, j: int| 0 <= i < init.len() && 0 <= j < init[i].len() implies
                !is_separator(#[trigger] init[i][j]) by {
                assert(init[i][j] == segments[i][j]);
            }
        }
        lemma_walk_depth(init);
        assert(segments.take(segments.len() as int) == segments);
        match walk(init) {
            None => {
                let k = choose|k: int| 0 <= k <= init.len() && #[trigger] depth(init.take(k)) < 0;
                assert(segments.take(k) == init.take(k));
            },
            Some(stack) => {
                if step(stack, last) is None {
                    assert(depth(segments) < 0);
                } else {
                    let next = step(stack, last)->0;
                    assert(depth(segments) == next.len());
                    assert forall|k: int| 0 <= k <= segments.len() implies depth(
                        #[trigger] segments.take(k),
                    ) >= 0 by {
                        if k < segments.len() {
                            assert(segments.take(k) == init.take(k));
                        }
                    }
                    assert(all_plain(next)) by {
                        assert forall|i: int| 0 <= i < next.len() implies is_plain_name(
                            #[trigger] next[i],
                        ) by {
                            if i < stack.len() {
                                assert(next[i] == stack[i]);
                            } else {
                                assert(next[i] == last);
                                assert forall|j: int| 0 <= j < last.len() implies !is_separator(
                                    #[trigger] last[j],
                                ) by {
                                    assert(last[j] == segments[segments.len() - 1][j]);
                                }
                            }
                        }
                    }
                }
            },
        }
    }
}

/// Why a decoded request path is refused.
#[derive(Clone, Copy, Debug, PartialEq, Eq, Structural)]
pub enum Rejection {
    /// The path starts with a separator: joined to the root it would stand
    /// for itself, not for anything below the root.
    Absolute,
    /// Followed from the root, the path climbs above it.
    Escapes,
}

/// A path that lies at or below the shared root: the root, and the names
/// that lead down from it. Every name is a plain name, so the path cannot
/// point outside the root.
#[derive(Debug, PartialEq, Eq)]
pub struct ResolvedPath {
    root: String,
    names: Vec<Vec<char>>,
}

/// What a `ResolvedPath` stands for.
pub struct ResolvedPathView {
    pub root: Seq<char>,
    pub names: Seq<Seq<char>>,
}

impl ResolvedPath {
    #[verifier::type_invariant]
    spec fn names_are_plain(self) -> bool {
        all_plain(segments_of(self.names@))
    }
}

impl View for ResolvedPath {
    type V = ResolvedPathView;

    closed spec fn view(&self) -> ResolvedPathView {
        ResolvedPathView { root: self.root@, names: segments_of(self.names@) }
    }
}

/// The root as it stands in front of the names below it: with a separator
/// at its end, unless it is empty or ends in one already.
pub open spec fn with_separator(root: Seq<char>) -> Seq<char> {
    if root.len() == 0 || is_separator(root.last()) {
        root
    } else {
        root.push('/')
    }
}

/// The path in the filesystem of the entry that `names` lead to from `root`.
/// No separator is added where the root is empty or already ends in one.
pub open spec fn located(root: Seq<char>, names: Seq<Seq<char>>) -> Seq<char> {
    if names.len() == 0 {
        root
    } else {
        with_separator(root) + join(names)
    }
}

/// What `resolve` returns for a root and a decoded request path.
pub open spec fn resolution(root: Seq<char>, decoded: Seq<char>) -> Result<
    ResolvedPathView,
    Rejection,
> {
    if decoded.len() > 0 && is_separator(decoded[0]) {
        Err(Rejection::Absolute)
    } else {
        match walk(split(decoded)) {
            None => Err(Rejection::Escapes),
            Some(names) => Ok(ResolvedPathView { root, names }),
        }
    }
}

/// Applies one segment to the stack of names. Returns `false`, and leaves
/// the stack as it was, where the segment would leave the root.
fn apply_segment(stack: &mut Vec<Vec<char>>, segment: Vec<char>) -> (inside: bool)
    ensures
        match step(segments_of(old(stack)@), segment@) {
            Some(next) => inside && segments_of(final(stack)@) == next,
            None => !inside && final(stack)@ == old(stack)@,
        },
{
    let n = segment.len();
    if n == 0 || (n == 1 && segment[0] == '.') {
        true
    } else if n == 2 && segment[0] == '.' && segment[1] == '.' {
        if stack.len() == 0 {
            false
        } else {
            let ghost before = segments_of(stack@);
            stack.pop();
            assert(segments_of(stack@) == before.drop_last());
            true
        }
    } else {
        let ghost before = segments_of(stack@);
        let ghost added = segment@;
        stack.push(segment);
        assert(segments_of(stack@) == before.push(added));
        true
    }
}

/// Walks the segments of `path` from the root.
fn walk_path(path: &Vec<char>) -> (r: Option<Vec<Vec<char>>>)
    ensures
        match r {
            Some(names) => walk(split(path@)) == Some(segments_of(names@)),
            None => walk(split(path@)) is None,
        },
{
    let mut stack: Vec<Vec<char>> = Vec::new();
    let mut current: Vec<char> = Vec::new();
    let mut inside = true;
    let mut i: usize = 0;
    assert(path@.take(0) == Seq::<char>::empty());
    assert(split(path@.take(0)).drop_last() == Seq::<Seq<char>>::empty());
    assert(segments_of(stack@) == Seq::<Seq<char>>::empty());
    while i < path.len()
        invariant
            i <= path.len(),
            split(path@.take(i as int)).len() >= 1,
            split(path@.take(i as int)).last() == current@,
            walk(split(path@.take(i as int)).drop_last()) == (if inside {
                Some(segments_of(stack@))
            } else {
                None
            }),
        decreases path.len() - i,
    {
        let c = path[i];
        let ghost before = split(path@.take(i as int));
        proof {
            assert(path@.take(i + 1).drop_last() == path@.take(i as int));
            assert(path@.take(i + 1).last() == c);
            lemma_split_shape(path@.take(i + 1));
        }
        if c == '/' {
            if inside {
                inside = apply_segment(&mut stack, current);
            }
            current = Vec::new();
            proof {
                assert(split(path@.take(i + 1)) == before.push(Seq::<char>::empty()));
                assert(before.push(Seq::<char>::empty()).drop_last() == before);
            }
        } else {
            current.push(c);
            proof {
                let after = before.drop_last().push(before.last().push(c));
                assert(split(path@.take(i + 1)) == after);
                assert(after.drop_last() == before.drop_last());
            }
        }
        i = i + 1;
    }
    assert(path@.take(i as int) == path@);
    if inside && apply_segment(&mut stack, current) {
        Some(stack)
    } else {
        None
    }
}

/// Resolves a decoded request path against the shared root, without looking
/// at the filesystem. A path that starts with a separator is refused, and so
/// is one that climbs above the root at any point on its way; every other
/// path resolves to the root and the names that are left once `.`, `..` and
/// empty segments are worked off.
pub fn resolve(root: &str, decoded: &str) -> (r: Result<ResolvedPath, Rejection>)
    ensures
        match r {
            Ok(resolved) => resolution(root@, decoded@) == Ok::<ResolvedPathView, Rejection>(
                resolved@,
            ),
            Err(rejection) => resolution(root@, decoded@) == Err::<ResolvedPathView, Rejection>(
                rejection,
            ),
        },
        r is Ok ==> all_plain(r->Ok_0@.names),
        r == Err::<ResolvedPath, Rejection>(Rejection::Escapes) <==> !(decoded@.len() > 0
            && is_separator(decoded@[0])) && climbs_out(split(decoded@)),
{
    let path = crate::text::chars_of(decoded);
    proof {
        lemma_split_shape(decoded@);
        lemma_walk_depth(split(decoded@));
    }
    if path.len() > 0 && path[0] == '/' {
        return Err(Rejection::Absolute);
    }
    match walk_path(&path) {
        None => Err(Rejection::Escapes),
        Some(names) => Ok(ResolvedPath { root: root.to_owned(), names }),
    }
}

/// Joins the names with one separator between neighbours.
fn join_names(names: &Vec<Vec<char>>) -> (joined: Vec<char>)
    ensures
        joined@ == join(segments_of(names@)),
{
    let ghost all = segments_of(names@);
    let mut joined: Vec<char> = Vec::new();
    let mut i: usize = 0;
    assert(all.take(0) == Seq::<Seq<char>>::empty());
    while i < names.len()
        invariant
            i <= names.len(),
            all == segments_of(names@),
            joined@ == join(all.take(i as int)),
        decreases names.len() - i,
    {
        proof {
            assert(all.take(i + 1).drop_last() == all.take(i as int));
            assert(all.take(i + 1).last() == names@[i as int]@);
        }
        if i > 0 {
            joined.push('/');
        }
        joined.extend_from_slice(names[i].as_slice());
        i = i + 1;
    }
    assert(all.take(i as int) == all);
    joined
}

impl ResolvedPath {
    /// The path in the filesystem that this stands for: the root itself
    /// where no names follow it, else the root, a separator unless the root
    /// brings its own, and the names with separators between them.
    pub fn to_path(&self) -> (path: String)
        ensures
            path@ == located(self@.root, self@.names),
    {
        if self.names.len() == 0 {
            return self.root.clone();
        }
        let mut text = crate::text::chars_of(self.root.as_str());
        let n = text.len();
        if n > 0 && text[n - 1] != '/' {
            text.push('/');
        }
        let joined = join_names(&self.names);
        text.extend_from_slice(joined.as_slice());
        crate::text::string_of(text.as_slice())
    }

    /// The path relative to the root: the names with separators between
    /// them, empty for the root itself.
    pub fn relative(&self) -> (path: String)
        ensures
            path@ == join(self@.names),
    {
        let joined = join_names(&self.names);
        crate::text::string_of(joined.as_slice())
    }

    /// The path, relative to the root, of the entry called `name` in the
    /// directory that this stands for.
    pub fn child_relative(&self, name: &str) -> (path: String)
        ensures
            path@ == join(self@.names.push(name@)),
    {
        let mut joined = join_names(&self.names);
        if self.names.len() > 0 {
            joined.push('/');
        }
        let tail = crate::text::chars_of(name);
        joined.extend_from_slice(tail.as_slice());
        proof {
            let longer = self@.names.push(name@);
            assert(longer.drop_last() == self@.names);
            assert(longer.last() == name@);
        }
        crate::text::string_of(joined.as_slice())
    }

    /// Whether this is the root itself.
    pub fn is_root(&self) -> (b: bool)
        ensures
            b == (self@.names.len() == 0),
    {
        self.names.len() == 0
    }
}

/// The last segment that counts, looking from the right past empty segments
/// and `.`; `None` where there is none, or where it is `..`.
pub open spec fn last_name(segments: Seq<Seq<char>>) -> Option<Seq<char>>
    decreases segments.len(),
{
    if segments.len() == 0 {
        None
    } else if segments.last().len() == 0 || is_current(segments.last()) {
        last_name(segments.drop_last())
    } else if is_parent(segments.last()) {
        None
    } else {
        Some(segments.last())
    }
}

/// What one more segment makes of the last name found so far.
fn note_segment(found: Option<Vec<char>>, segment: Vec<char>) -> (r: Option<Vec<char>>)
    ensures
        match r {
            Some(name) => (segment@.len() == 0 || is_current(segment@)) && found == Some(name)
                || !(segment@.len() == 0 || is_current(segment@)) && !is_parent(segment@) && name
                == segment,
            None => (segment@.len() == 0 || is_current(segment@)) && found is None || is_parent(
                segment@,
            ),
        },
{
    let n = segment.len();
    if n == 0 || (n == 1 && segment[0] == '.') {
        found
    } else if n == 2 && segment[0] == '.' && segment[1] == '.' {
        None
    } else {
        Some(segment)
    }
}

/// The name under which the entry at `path` is known: its last segment,
/// not counting separators and `.` at the end. There is none where the path
/// is empty, is made of separators and `.` only, or ends in `..`.
pub fn file_name(path: &str) -> (name: Option<String>)
    ensures
        match name {
            Some(n) => last_name(split(path@)) == Some(n@),
            None => last_name(split(path@)) is None,
        },
        name matches Some(n) ==> is_plain_name(n@),
{
    let text = crate::text::chars_of(path);
    let mut found: Option<Vec<char>> = None;
    let mut current: Vec<char> = Vec::new();
    let mut i: usize = 0;
    assert(text@.take(0) == Seq::<char>::empty());
    assert(split(text@.take(0)).drop_last() == Seq::<Seq<char>>::empty());
    while i < text.len()
        invariant
            i <= text.len(),
            split(text@.take(i as int)).len() >= 1,
            split(text@.take(i as int)).last() == current@,
            match found {
                Some(name) => last_name(split(text@.take(i as int)).drop_last()) == Some(name@),
                None => last_name(split(text@.take(i as int)).drop_last()) is None,
            },
        decreases text.len() - i,
    {
        let c = text[i];
        let ghost before = split(text@.take(i as int));
        proof {
            assert(text@.take(i + 1).drop_last() == text@.take(i as int));
            assert(text@.take(i + 1).last() == c);
            lemma_split_shape(text@.take(i + 1));
        }
        if c == '/' {
            found = note_segment(found, current);
            current = Vec::new();
            proof {
                assert(split(text@.take(i + 1)) == before.push(Seq::<char>::empty()));
                assert(before.push(Seq::<char>::empty()).drop_last() == before);
            }
        } else {
            current.push(c);
            proof {
                let after = before.drop_last().push(before.last().push(c));
                assert(split(text@.take(i + 1)) == after);
                assert(after.drop_last() == before.drop_last());
            }
        }
        i = i + 1;
    }
    assert(text@.take(i as int) == text@);
    proof {
        lemma_split_shape(path@);
        lemma_last_name_plain(split(path@));
    }
    match note_segment(found, current) {
        Some(name) => Some(crate::text::string_of(name.as_slice())),
        None => None,
    }
}

/// The last name of separator-free segments is a plain name.
pub proof fn lemma_last_name_plain(segments: Seq<Seq<char>>)
    requires
        separator_free(segments),
    ensures
        last_name(segments) matches Some(name) ==> is_plain_name(name),
    decreases segments.len(),
{
    if segments.len() > 0 {
        let init = segments.drop_last();
        let last = segments.last();
        assert forall|i: int, j: int| 0 <= i < init.len() && 0 <= j < init[i].len() implies
            !is_separator(#[trigger] init[i][j]) by {
            assert(init[i][j] == segments[i][j]);
        }
        lemma_last_name_plain(init);
        assert forall|j: int| 0 <= j < last.len() implies !is_separator(#[trigger] last[j]) by {
            assert(last[j] == segments[segments.len() - 1][j]);
        }
    }
}

/// A segment without a separator is the only segment of itself.
pub proof fn lemma_split_one(segment: Seq<char>)
    requires
        forall|j: int| 0 <= j < segment.len() ==> !is_separator(#[trigger] segment[j]),
    ensures
        split(segment) == seq![segment],
    decreases segment.len(),
{
    if segment.len() == 0 {
        assert(segment == Seq::<char>::empty());
    } else {
        let init = segment.drop_last();
        assert forall|j: int| 0 <= j < init.len() implies !is_separator(#[trigger] init[j]) by {
            assert(init[j] == segment[j]);
        }
        lemma_split_one(init);
        assert(!is_separator(segment[segment.len() - 1]));
        let before = seq![init];
        assert(before.last() == init);
        assert(init.push(segment.last()) == segment);
        assert(before.drop_last().push(segment) == seq![segment]);
    }
}

/// After a separator, a segment without one is one more segment.
pub proof fn lemma_split_append(front: Seq<char>, segment: Seq<char>)
    requires
        forall|j: int| 0 <= j < segment.len() ==> !is_separator(#[trigger] segment[j]),
    ensures
        split(front.push('/') + segment) == split(front).push(segment),
    decreases segment.len(),
{
    let whole = front.push('/') + segment;
    if segment.len() == 0 {
        assert(whole == front.push('/'));
        assert(whole.drop_last() == front);
        assert(is_separator(whole.last()));
        assert(segment == Seq::<char>::empty());
    } else {
        let init = segment.drop_last();
        assert forall|j: int| 0 <= j < init.len() implies !is_separator(#[trigger] init[j]) by {
            assert(init[j] == segment[j]);
        }
        lemma_split_append(front, init);
        assert(whole.drop_last() == front.push('/') + init);
        assert(whole.last() == segment.last());
        assert(!is_separator(segment[segment.len() - 1]));
        let before = split(front).push(init);
        assert(before.drop_last() == split(front));
        assert(before.last() == init);
        assert(init.push(segment.last()) == segment);
        assert(split(whole) == before.drop_last().push(before.last().push(whole.last())));
    }
}

/// Joining segments that hold no separator loses nothing: cut again they
/// give the segments.
pub proof fn lemma_split_join(segments: Seq<Seq<char>>)
    requires
        segments.len() >= 1,
        separator_free(segments),
    ensures
        split(join(segments)) == segments,
    decreases segments.len(),
{
    let last = segments.last();
    assert forall|j: int| 0 <= j < last.len() implies !is_separator(#[trigger] last[j]) by {
        assert(last[j] == segments[segments.len() - 1][j]);
    }
    if segments.len() == 1 {
        lemma_split_one(segments[0]);
        assert(seq![segments[0]] == segments);
    } else {
        let init = segments.drop_last();
        assert forall|i: int, j: int| 0 <= i < init.len() && 0 <= j < init[i].len() implies
            !is_separator(#[trigger] init[i][j]) by {
            assert(init[i][j] == segments[i][j]);
        }
        lemma_split_join(init);
        lemma_split_append(join(init), last);
        assert(init.push(last) == segments);
    }
}

/// A walk over plain names keeps them all.
pub proof fn lemma_walk_plain(names: Seq<Seq<char>>)
    requires
        all_plain(names),
    ensures
        walk(names) == Some(names),
    decreases names.len(),
{
    if names.len() == 0 {
        assert(names == Seq::<Seq<char>>::empty());
    } else {
        let init = names.drop_last();
        assert forall|i: int| 0 <= i < init.len() implies is_plain_name(#[trigger] init[i]) by {
            assert(init[i] == names[i]);
        }
        lemma_walk_plain(init);
        assert(is_plain_name(names[names.len() - 1]));
        assert(init.push(names.last()) == names);
    }
}

/// A path that climbs above the root is refused, whatever the root.
pub proof fn lemma_escape_is_refused(root: Seq<char>, decoded: Seq<char>)
    requires
        climbs_out(split(decoded)),
    ensures
        resolution(root, decoded) is Err,
{
    lemma_split_shape(decoded);
    lemma_walk_depth(split(decoded));
}

/// Whatever resolves, resolves to plain names below the root it was given.
pub proof fn lemma_resolution_is_contained(root: Seq<char>, decoded: Seq<char>)
    ensures
        resolution(root, decoded) matches Ok(resolved) ==> resolved.root == root && all_plain(
            resolved.names,
        ),
{
    lemma_split_shape(decoded);
    lemma_walk_depth(split(decoded));
}

/// Whatever resolves lies at or below the root: its path in the filesystem
/// starts with the root, and what follows the root is plain names with
/// separators between them, none of which can lead up or out.
pub proof fn lemma_located_below_root(root: Seq<char>, names: Seq<Seq<char>>)
    requires
        all_plain(names),
    ensures
        root.is_prefix_of(located(root, names)),
        names.len() > 0 ==> located(root, names) == with_separator(root) + join(names) && split(
            join(names),
        ) == names,
{
    if names.len() > 0 {
        assert(separator_free(names)) by {
            assert forall|i: int, j: int| 0 <= i < names.len() && 0 <= j < names[i].len() implies
                !is_separator(#[trigger] names[i][j]) by {
                assert(is_plain_name(names[i]));
            }
        }
        lemma_split_join(names);
        assert(root.is_prefix_of(with_separator(root)));
        assert(with_separator(root).is_prefix_of(with_separator(root) + join(names)));
    }
}

/// The path of an entry relative to the root resolves to that entry: plain
/// names, joined, resolve to themselves.
pub proof fn lemma_relative_path_resolves(root: Seq<char>, names: Seq<Seq<char>>)
    requires
        all_plain(names),
    ensures
        resolution(root, join(names)) == Ok::<ResolvedPathView, Rejection>(
            ResolvedPathView { root, names },
        ),
{
    lemma_walk_plain(names);
    if names.len() == 0 {
        assert(split(join(names)) == seq![Seq::<char>::empty()]);
        assert(seq![Seq::<char>::empty()].drop_last() == Seq::<Seq<char>>::empty());
        assert(walk(seq![Seq::<char>::empty()]) == Some(Seq::<Seq<char>>::empty()));
        assert(names == Seq::<Seq<char>>::empty());
    } else {
        assert(separator_free(names)) by {
            assert forall|i: int, j: int| 0 <= i < names.len() && 0 <= j < names[i].len() implies
                !is_separator(#[trigger] names[i][j]) by {
                assert(is_plain_name(names[i]));
            }
        }
        lemma_split_join(names);
        lemma_join_starts(names);
    }
}

/// Joined names start with the first character of the first name.
pub proof fn lemma_join_starts(names: Seq<Seq<char>>)
    requires
        names.len() >= 1,
        names[0].len() > 0,
    ensures
        join(names).len() > 0,
        join(names)[0] == names[0][0],
    decreases names.len(),
{
    if names.len() > 1 {
        let init = names.drop_last();
        assert(init[0] == names[0]);
        lemma_join_starts(init);
    }
}

/// The name of the entry that a resolved path stands for: the last of its
/// names, and for the root itself the name that the root's own path ends in.
pub open spec fn entry_name_of(resolved: ResolvedPathView) -> Option<Seq<char>> {
    if resolved.names.len() > 0 {
        Some(resolved.names.last())
    } else {
        last_name(split(resolved.root))
    }
}

impl ResolvedPath {
    /// The root itself, as a resolved path.
    pub fn at_root(root: &str) -> (resolved: ResolvedPath)
        ensures
            resolved@ == (ResolvedPathView { root: root@, names: Seq::<Seq<char>>::empty() }),
    {
        let names: Vec<Vec<char>> = Vec::new();
        assert(segments_of(names@) == Seq::<Seq<char>>::empty());
        ResolvedPath { root: root.to_owned(), names }
    }

    /// The name of the entry that this stands for, where it has one.
    pub fn entry_name(&self) -> (name: Option<String>)
        ensures
            crate::text::text_view(name) == entry_name_of(self@),
            name matches Some(n) ==> is_plain_name(n@),
    {
        let n = self.names.len();
        if n == 0 {
            file_name(self.root.as_str())
        } else {
            proof {
                use_type_invariant(self);
                assert(is_plain_name(segments_of(self.names@)[n - 1]));
            }
            Some(crate::text::string_of(self.names[n - 1].as_slice()))
        }
    }
}

} // verus!
