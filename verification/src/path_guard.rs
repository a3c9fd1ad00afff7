//! The guard of the shared folder: every path that reaches a file operation
//! is first brought into canonical form and held against the folder's root.
//!
//! Paths are read lexically, with `/` between the components. A component
//! `.` or an empty one is dropped, and `..` steps back to the parent; the
//! parent of `/` is `/`.
//!
//! The guard reads no file system itself. Links are ruled out in three
//! steps: [`PathGuard::places`] names the places to ask the file system
//! about, [`nearest_real`] picks the answer that counts, and
//! [`PathGuard::resolve_checked`] holds the real path against the folder.

use vstd::prelude::*;
use crate::error::{FsError, FsErrorView, FsStep};
use crate::text::{chars_of, copy_chars, push_char, same_chars};

verus! {

/// The pieces of `s` between its separators `/`. There is one piece more than
/// there are separators; a piece is empty where two separators meet and where
/// `s` starts or ends with one.
pub open spec fn segments(s: Seq<char>) -> Seq<Seq<char>>
    decreases s.len(),
{
    if s.len() == 0 {
        seq![Seq::empty()]
    } else {
        let front = segments(s.drop_last());
        if s.last() == '/' {
            front.push(Seq::empty())
        } else {
            front.update(front.len() - 1, front.last().push(s.last()))
        }
    }
}

/// The component `.`, which names the directory itself.
pub open spec fn is_dot(seg: Seq<char>) -> bool {
    seg.len() == 1 && seg[0] == '.'
}

/// The component `..`, which names the parent directory.
pub open spec fn is_dot_dot(seg: Seq<char>) -> bool {
    seg.len() == 2 && seg[0] == '.' && seg[1] == '.'
}

/// True when no character of `seg` is the separator `/`.
pub open spec fn separator_free(seg: Seq<char>) -> bool {
    forall|i: int| 0 <= i < seg.len() ==> #[trigger] seg[i] != '/'
}

/// A component that names an entry of a directory: not empty, neither `.`
/// nor `..`, and free of separators.
pub open spec fn is_name(seg: Seq<char>) -> bool {
    &&& seg.len() > 0
    &&& !is_dot(seg)
    &&& !is_dot_dot(seg)
    &&& separator_free(seg)
}

/// True when every component of `path` names an entry.
pub open spec fn is_canonical(path: Seq<Seq<char>>) -> bool {
    forall|i: int| 0 <= i < path.len() ==> is_name(#[trigger] path[i])
}

/// Where one piece of a path leads from the directory `at`.
pub open spec fn step(at: Seq<Seq<char>>, seg: Seq<char>) -> Seq<Seq<char>> {
    if seg.len() == 0 || is_dot(seg) {
        at
    } else if is_dot_dot(seg) {
        if at.len() > 0 {
            at.drop_last()
        } else {
            at
        }
    } else {
        at.push(seg)
    }
}

/// Where the pieces `segs`, taken in order, lead from the directory `at`.
pub open spec fn walk(at: Seq<Seq<char>>, segs: Seq<Seq<char>>) -> Seq<Seq<char>>
    decreases segs.len(),
{
    if segs.len() == 0 {
        at
    } else {
        step(walk(at, segs.drop_last()), segs.last())
    }
}

/// True for a path that starts at the root of the file system.
pub open spec fn is_absolute(s: Seq<char>) -> bool {
    s.len() > 0 && s[0] == '/'
}

/// The canonical components of the absolute path `s`.
pub open spec fn canonical(s: Seq<char>) -> Seq<Seq<char>> {
    walk(Seq::empty(), segments(s))
}

/// The canonical components of what `user` names for a folder at `root`:
/// an absolute path stands for itself, any other starts at `root`.
pub open spec fn resolved(root: Seq<Seq<char>>, user: Seq<char>) -> Seq<Seq<char>> {
    if is_absolute(user) {
        canonical(user)
    } else {
        walk(root, segments(user))
    }
}

/// True when `path` is `root` or lies below it: component by component,
/// `path` starts with `root`.
pub open spec fn within(root: Seq<Seq<char>>, path: Seq<Seq<char>>) -> bool {
    root.len() <= path.len() && path.take(root.len() as int) == root
}

/// Every component of `path` with a separator before it.
pub open spec fn joined(path: Seq<Seq<char>>) -> Seq<char>
    decreases path.len(),
{
    if path.len() == 0 {
        Seq::empty()
    } else {
        joined(path.drop_last()) + seq!['/'] + path.last()
    }
}

/// The text of an absolute path with the given components; `/` for none.
pub open spec fn rendered(path: Seq<Seq<char>>) -> Seq<char> {
    if path.len() == 0 {
        seq!['/']
    } else {
        joined(path)
    }
}

/// The text of the entry `name` of the directory `dir`.
pub open spec fn child_text(dir: Seq<Seq<char>>, name: Seq<char>) -> Seq<char> {
    joined(dir) + seq!['/'] + name
}

/// The places to ask the file system about before `path` is used for the
/// folder at `root`: the text of `path` itself, then of each folder above
/// it, down to `root`, the deepest first. None for a path that does not lie
/// within `root`.
pub open spec fn places_of(root: Seq<Seq<char>>, path: Seq<Seq<char>>) -> Seq<Seq<char>> {
    if within(root, path) {
        Seq::new((path.len() - root.len() + 1) as nat, |k: int| rendered(path.take(path.len() - k)))
    } else {
        Seq::empty()
    }
}

/// What the file system made of one place: where it really lies, once every
/// link on the way is followed.
#[derive(Debug)]
pub enum Resolved {
    /// Nothing exists at the place.
    Missing,
    /// The place exists; this is the absolute path it really has.
    Real(String),
    /// The file system could not tell, for the given reason.
    Failed { reason: String },
}

/// The mathematical value of a [`Resolved`].
pub enum ResolvedView {
    Missing,
    Real(Seq<char>),
    Failed { reason: Seq<char> },
}

impl View for Resolved {
    type V = ResolvedView;

    open spec fn view(&self) -> ResolvedView {
        match *self {
            Resolved::Missing => ResolvedView::Missing,
            Resolved::Real(text) => ResolvedView::Real(text@),
            Resolved::Failed { reason } => ResolvedView::Failed { reason: reason@ },
        }
    }
}

impl DeepView for Resolved {
    type V = ResolvedView;

    open spec fn deep_view(&self) -> ResolvedView {
        self@
    }
}

/// True when `i` is the first place of `found` of which the file system
/// gave an answer other than that nothing is there.
pub open spec fn is_first_answer(found: Seq<ResolvedView>, i: int) -> bool {
    &&& 0 <= i < found.len()
    &&& !(found[i] is Missing)
    &&& forall|j: int| 0 <= j < i ==> (#[trigger] found[j]) is Missing
}

/// The error for a place of which the file system could not tell.
pub open spec fn answer_error(answer: ResolvedView) -> FsErrorView {
    match answer {
        ResolvedView::Failed { reason } => FsErrorView::IoError { step: FsStep::ResolvePath, reason },
        _ => arbitrary(),
    }
}

/// The pieces of `s` between its separators.
pub fn split_path(s: &str) -> (segs: Vec<Vec<char>>)
    ensures
        segs.deep_view() == segments(s@),
{
    let chars = chars_of(s);
    let mut done: Vec<Vec<char>> = Vec::new();
    let mut piece: Vec<char> = Vec::new();
    let mut i: usize = 0;
    while i < chars.len()
        invariant
            i <= chars.len(),
            done.deep_view().push(piece@) == segments(chars@.take(i as int)),
        decreases chars.len() - i,
    {
        let c = chars[i];
        let ghost front = segments(chars@.take(i as int));
        let ghost shown = done.deep_view();
        proof {
            assert(chars@.take(i + 1).drop_last() == chars@.take(i as int));
            assert(chars@.take(i + 1).last() == c);
            assert(front.last() == piece@);
        }
        if c == '/' {
            done.push(piece);
            piece = Vec::new();
            proof {
                assert(done.deep_view() =~~= front);
            }
        } else {
            piece.push(c);
            proof {
                assert(shown.push(piece@) =~~= front.update(front.len() - 1, front.last().push(c)));
            }
        }
        i += 1;
    }
    proof {
        assert(chars@.take(i as int) == chars@);
    }
    let ghost shown = done.deep_view();
    let ghost last = piece@;
    done.push(piece);
    proof {
        assert(done.deep_view() =~~= shown.push(last));
    }
    done
}

/// A copy of the components `path`.
fn copy_components(path: &Vec<Vec<char>>) -> (out: Vec<Vec<char>>)
    ensures
        out.deep_view() == path.deep_view(),
{
    let mut out: Vec<Vec<char>> = Vec::new();
    let mut i: usize = 0;
    while i < path.len()
        invariant
            i <= path.len(),
            out.deep_view() == path.deep_view().take(i as int),
        decreases path.len() - i,
    {
        let ghost shown = out.deep_view();
        out.push(copy_chars(&path[i]));
        proof {
            assert(out.deep_view() =~~= shown.push(path[i as int]@));
            assert(path.deep_view().take(i + 1) =~~= shown.push(path[i as int]@));
        }
        i += 1;
    }
    proof {
        assert(path.deep_view().take(i as int) =~~= path.deep_view());
    }
    out
}

/// The components of the root of the file system: none.
fn no_components() -> (out: Vec<Vec<char>>)
    ensures
        out.deep_view() == Seq::<Seq<char>>::empty(),
{
    let out: Vec<Vec<char>> = Vec::new();
    proof {
        assert(out.deep_view() =~~= Seq::<Seq<char>>::empty());
    }
    out
}

/// Whether the pieces are those of an absolute path: an empty first piece
/// and at least one more.
fn starts_at_root(segs: &Vec<Vec<char>>) -> (absolute: bool)
    ensures
        absolute == (segs.deep_view().len() >= 2 && segs.deep_view()[0].len() == 0),
{
    if segs.len() >= 2 {
        proof {
            assert(segs.deep_view()[0] == segs[0]@);
        }
        segs[0].len() == 0
    } else {
        false
    }
}

/// Where the pieces `segs`, taken in order, lead from the directory `at`.
pub fn walk_from(at: Vec<Vec<char>>, segs: &Vec<Vec<char>>) -> (out: Vec<Vec<char>>)
    ensures
        out.deep_view() == walk(at.deep_view(), segs.deep_view()),
{
    let ghost start = at.deep_view();
    let mut out = at;
    let mut i: usize = 0;
    while i < segs.len()
        invariant
            i <= segs.len(),
            out.deep_view() == walk(start, segs.deep_view().take(i as int)),
        decreases segs.len() - i,
    {
        let seg = &segs[i];
        let ghost here = out.deep_view();
        proof {
            assert(segs.deep_view().take(i + 1).drop_last() =~~= segs.deep_view().take(i as int));
            assert(segs.deep_view().take(i + 1).last() == seg@);
        }
        if seg.len() == 0 || (seg.len() == 1 && seg[0] == '.') {
        } else if seg.len() == 2 && seg[0] == '.' && seg[1] == '.' {
            if out.len() > 0 {
                out.pop();
                proof {
                    assert(out.deep_view() =~~= here.drop_last());
                }
            }
        } else {
            out.push(copy_chars(seg));
            proof {
                assert(out.deep_view() =~~= here.push(seg@));
            }
        }
        i += 1;
    }
    proof {
        assert(segs.deep_view().take(i as int) =~~= segs.deep_view());
    }
    out
}

/// Whether `path` is `root` or lies below it.
pub fn is_within(root: &Vec<Vec<char>>, path: &Vec<Vec<char>>) -> (inside: bool)
    ensures
        inside == within(root.deep_view(), path.deep_view()),
{
    if root.len() > path.len() {
        return false;
    }
    let mut i: usize = 0;
    while i < root.len()
        invariant
            i <= root.len() <= path.len(),
            forall|j: int| 0 <= j < i ==> (#[trigger] root[j])@ == path[j]@,
        decreases root.len() - i,
    {
        if !same_chars(&root[i], &path[i]) {
            proof {
                let taken = path.deep_view().take(root.len() as int);
                assert(taken[i as int] == path[i as int]@);
                assert(root.deep_view()[i as int] == root[i as int]@);
            }
            return false;
        }
        i += 1;
    }
    proof {
        assert(path.deep_view().take(root.len() as int) =~~= root.deep_view());
    }
    true
}

/// The first `count` components of `path`, each with a separator before it.
fn join_first(path: &Vec<Vec<char>>, count: usize) -> (text: String)
    requires
        count <= path.len(),
    ensures
        text@ == joined(path.deep_view().take(count as int)),
{
    let mut text = String::new();
    let mut i: usize = 0;
    while i < count
        invariant
            i <= count <= path.len(),
            text@ == joined(path.deep_view().take(i as int)),
        decreases count - i,
    {
        let part = &path[i];
        let ghost before = text@;
        proof {
            assert(path.deep_view().take(i + 1).drop_last() =~~= path.deep_view().take(i as int));
            assert(path.deep_view().take(i + 1).last() == part@);
        }
        push_char(&mut text, '/');
        let mut k: usize = 0;
        while k < part.len()
            invariant
                k <= part.len(),
                text@ == before + seq!['/'] + part@.take(k as int),
            decreases part.len() - k,
        {
            push_char(&mut text, part[k]);
            proof {
                assert(part@.take(k + 1) == part@.take(k as int).push(part@[k as int]));
            }
            k += 1;
        }
        proof {
            assert(part@.take(k as int) == part@);
        }
        i += 1;
    }
    text
}

/// The text of the absolute path with the first `count` components of `path`.
fn render_first(path: &Vec<Vec<char>>, count: usize) -> (text: String)
    requires
        count <= path.len(),
    ensures
        text@ == rendered(path.deep_view().take(count as int)),
{
    if count == 0 {
        let mut text = String::new();
        push_char(&mut text, '/');
        text
    } else {
        join_first(path, count)
    }
}

/// The text of the absolute path with the components `path`.
pub fn render(path: &Vec<Vec<char>>) -> (text: String)
    ensures
        text@ == rendered(path.deep_view()),
{
    proof {
        assert(path.deep_view().take(path.len() as int) =~~= path.deep_view());
    }
    render_first(path, path.len())
}

/// Picks, from what the file system made of the places of a path, deepest
/// first, the answer that counts: that of the deepest place that exists.
///
/// Gives the real path of that place, or nothing where no place exists. A
/// place of which the file system could not tell, before any that exists,
/// makes the whole fail with that reason.
pub fn nearest_real(found: &Vec<Resolved>) -> (result: Result<Option<&String>, FsError>)
    ensures
        match result {
            Ok(None) => forall|i: int| 0 <= i < found.len() ==> (#[trigger] found[i]@) is Missing,
            Ok(Some(text)) => exists|i: int| #[trigger]
                is_first_answer(found.deep_view(), i) && found[i]@ == ResolvedView::Real(text@),
            Err(e) => exists|i: int| #[trigger]
                is_first_answer(found.deep_view(), i) && found[i]@ is Failed && e@ == answer_error(
                    found[i]@,
                ),
        },
{
    let mut i: usize = 0;
    while i < found.len()
        invariant
            i <= found.len(),
            forall|j: int| 0 <= j < i ==> (#[trigger] found[j]@) is Missing,
        decreases found.len() - i,
    {
        match &found[i] {
            Resolved::Missing => {},
            Resolved::Real(text) => {
                proof {
                    assert(is_first_answer(found.deep_view(), i as int));
                }
                return Ok(Some(text));
            },
            Resolved::Failed { reason } => {
                proof {
                    assert(is_first_answer(found.deep_view(), i as int));
                }
                return Err(FsError::IoError { step: FsStep::ResolvePath, reason: reason.clone() });
            },
        }
        i += 1;
    }
    Ok(None)
}

/// A path that the guard has checked: canonical, and inside the folder of
/// the guard that gave it. Only [`PathGuard::resolve`] makes one.
#[derive(Debug)]
pub struct GuardedPath {
    components: Vec<Vec<char>>,
}

impl View for GuardedPath {
    type V = Seq<Seq<char>>;

    closed spec fn view(&self) -> Seq<Seq<char>> {
        self.components.deep_view()
    }
}

impl GuardedPath {
    #[verifier::type_invariant]
    spec fn well_formed(self) -> bool {
        is_canonical(self.components.deep_view())
    }

    /// The text of the path: absolute, without `.`, `..` or doubled
    /// separators, so that reading it back gives this path again.
    pub fn to_text(&self) -> (text: String)
        ensures
            text@ == rendered(self@),
            is_canonical(self@),
            is_absolute(text@),
            canonical(text@) == self@,
    {
        proof {
            use_type_invariant(self);
            lemma_rendered_round_trip(self@);
        }
        render(&self.components)
    }

    /// The number of components below the root of the file system.
    pub fn depth(&self) -> (n: usize)
        ensures
            n == self@.len(),
    {
        self.components.len()
    }

    /// The text of the entry `name` of this directory: the text of the
    /// directory, a separator, and the name.
    pub fn child_text(&self, name: &str) -> (text: String)
        ensures
            text@ == child_text(self@, name@),
            is_name(name@) ==> is_canonical(self@.push(name@)) && canonical(text@) == self@.push(
                name@,
            ),
    {
        proof {
            assert(self.components.deep_view().take(self.components.len() as int)
                =~~= self.components.deep_view());
        }
        let mut text = join_first(&self.components, self.components.len());
        push_char(&mut text, '/');
        text.append(name);
        proof {
            use_type_invariant(self);
            assert(text@ =~= child_text(self@, name@));
            if is_name(name@) {
                assert(self@.take(self@.len() as int) =~= self@);
                lemma_child_within(self@, self@, name@);
            }
        }
        text
    }
}

/// The guard of one shared folder.
#[derive(Debug)]
pub struct PathGuard {
    root: Vec<Vec<char>>,
}

impl PathGuard {
    /// The canonical components of the folder that the guard protects.
    pub closed spec fn root(&self) -> Seq<Seq<char>> {
        self.root.deep_view()
    }

    #[verifier::type_invariant]
    spec fn well_formed(self) -> bool {
        is_canonical(self.root.deep_view())
    }

    /// A guard for the folder at `root`, which must be an absolute path:
    /// there is none for a relative one.
    pub fn new(root: &str) -> (guard: Option<PathGuard>)
        ensures
            guard is Some == is_absolute(root@),
            guard matches Some(g) ==> g.root() == canonical(root@) && is_canonical(g.root()),
    {
        let segs = split_path(root);
        proof {
            lemma_absolute_first_segment(root@);
            lemma_resolved_canonical(Seq::empty(), root@);
        }
        if starts_at_root(&segs) {
            Some(PathGuard { root: walk_from(no_components(), &segs) })
        } else {
            None
        }
    }

    /// The text of the guarded folder's path.
    pub fn root_text(&self) -> (text: String)
        ensures
            text@ == rendered(self.root()),
            is_canonical(self.root()),
            is_absolute(text@),
            canonical(text@) == self.root(),
    {
        proof {
            use_type_invariant(self);
            lemma_rendered_round_trip(self.root());
        }
        render(&self.root)
    }

    /// Brings `user` into canonical form and admits it if it names the
    /// guarded folder or something below it.
    ///
    /// A relative path starts at the guarded folder; an absolute one stands
    /// for itself. Anything that ends up elsewhere is a `PathEscape`.
    pub fn resolve(&self, user: &str) -> (result: Result<GuardedPath, FsError>)
        ensures
            match result {
                Ok(path) => {
                    &&& path@ == resolved(self.root(), user@)
                    &&& within(self.root(), path@)
                    &&& is_canonical(path@)
                },
                Err(e) => {
                    &&& e@ == FsErrorView::PathEscape
                    &&& !within(self.root(), resolved(self.root(), user@))
                },
            },
    {
        let segs = split_path(user);
        proof {
            use_type_invariant(self);
            lemma_absolute_first_segment(user@);
            lemma_resolved_canonical(self.root(), user@);
        }
        let start = if starts_at_root(&segs) {
            no_components()
        } else {
            copy_components(&self.root)
        };
        let components = walk_from(start, &segs);
        if is_within(&self.root, &components) {
            Ok(GuardedPath { components })
        } else {
            Err(FsError::PathEscape)
        }
    }

    /// Whether the absolute path `text` names the guarded folder or
    /// something below it; false for a relative path.
    pub fn contains(&self, text: &str) -> (inside: bool)
        ensures
            inside == (is_absolute(text@) && within(self.root(), canonical(text@))),
    {
        let segs = split_path(text);
        proof {
            lemma_absolute_first_segment(text@);
        }
        if starts_at_root(&segs) {
            let components = walk_from(no_components(), &segs);
            is_within(&self.root, &components)
        } else {
            false
        }
    }
}

impl PathGuard {
    /// The places to ask the file system about before `path` is used: see
    /// [`places_of`].
    pub fn places(&self, path: &GuardedPath) -> (places: Vec<String>)
        ensures
            places.deep_view() == places_of(self.root(), path@),
    {
        let mut places: Vec<String> = Vec::new();
        if !is_within(&self.root, &path.components) {
            proof {
                assert(places.deep_view() =~~= Seq::<Seq<char>>::empty());
            }
            return places;
        }
        let depth = path.components.len();
        let mut keep = depth;
        while keep > self.root.len()
            invariant
                self.root.len() <= keep <= depth,
                depth == path.components.len(),
                places.len() == depth - keep,
                forall|j: int|
                    0 <= j < places.len() ==> (#[trigger] places[j])@ == rendered(
                        path@.take(depth - j),
                    ),
            decreases keep,
        {
            let text = render_first(&path.components, keep);
            places.push(text);
            keep -= 1;
        }
        let text = render_first(&path.components, keep);
        places.push(text);
        proof {
            assert(places.deep_view() =~~= places_of(self.root(), path@));
        }
        places
    }

    /// Admits `user` if it names the guarded folder or something below it,
    /// both as it is written and as the file system resolves it.
    ///
    /// `real_path` is the real path of the deepest place of the path that exists,
    /// every link followed, or nothing where the file system knows none. A
    /// path that is admitted as written is still a `PathEscape` where `real_path`
    /// is not an absolute path within the guarded folder.
    pub fn resolve_checked(&self, user: &str, real_path: Option<&str>) -> (result: Result<GuardedPath, FsError>)
        ensures
            match result {
                Ok(path) => {
                    &&& path@ == resolved(self.root(), user@)
                    &&& within(self.root(), path@)
                    &&& is_canonical(path@)
                    &&& real_path matches Some(r) ==> is_absolute(r@) && within(
                        self.root(),
                        canonical(r@),
                    )
                },
                Err(e) => {
                    &&& e@ == FsErrorView::PathEscape
                    &&& (!within(self.root(), resolved(self.root(), user@)) || (real_path matches Some(r)
                        && !(is_absolute(r@) && within(self.root(), canonical(r@)))))
                },
            },
    {
        let path = match self.resolve(user) {
            Ok(path) => path,
            Err(e) => {
                return Err(e);
            },
        };
        match real_path {
            None => Ok(path),
            Some(r) => {
                if self.contains(r) {
                    Ok(path)
                } else {
                    Err(FsError::PathEscape)
                }
            },
        }
    }
}

/// A path is absolute exactly when splitting it gives an empty first piece
/// followed by at least one more.
pub proof fn lemma_absolute_first_segment(s: Seq<char>)
    ensures
        segments(s).len() >= 1,
        is_absolute(s) == (segments(s).len() >= 2 && segments(s)[0].len() == 0),
        s.len() == 0 ==> segments(s).len() == 1,
        s.len() > 0 && s[0] != '/' ==> segments(s)[0].len() > 0 && segments(s)[0][0] == s[0],
    decreases s.len(),
{
    if s.len() > 0 {
        let front = s.drop_last();
        lemma_absolute_first_segment(front);
        if front.len() > 0 {
            assert(front[0] == s[0]);
        }
    }
}

/// Splitting leaves no separator inside a piece.
pub proof fn lemma_segments_separator_free(s: Seq<char>)
    ensures
        forall|i: int| 0 <= i < segments(s).len() ==> separator_free(#[trigger] segments(s)[i]),
    decreases s.len(),
{
    if s.len() > 0 {
        lemma_segments_separator_free(s.drop_last());
        lemma_absolute_first_segment(s.drop_last());
    }
}

/// Walking from a canonical path over pieces without separators ends at a
/// canonical path.
pub proof fn lemma_walk_canonical(at: Seq<Seq<char>>, segs: Seq<Seq<char>>)
    requires
        is_canonical(at),
        forall|i: int| 0 <= i < segs.len() ==> separator_free(#[trigger] segs[i]),
    ensures
        is_canonical(walk(at, segs)),
    decreases segs.len(),
{
    if segs.len() > 0 {
        let front = segs.drop_last();
        assert forall|i: int| 0 <= i < front.len() implies separator_free(#[trigger] front[i]) by {
            assert(front[i] == segs[i]);
        }
        lemma_walk_canonical(at, front);
        let here = walk(at, front);
        let last = segs.last();
        assert(separator_free(last));
        let next = step(here, last);
        assert forall|i: int| 0 <= i < next.len() implies is_name(#[trigger] next[i]) by {
            if i < here.len() {
                assert(next[i] == here[i]);
            }
        }
    }
}

/// The canonical form of any path is canonical, and so is whatever a path
/// resolves to for a canonical root.
pub proof fn lemma_resolved_canonical(root: Seq<Seq<char>>, user: Seq<char>)
    requires
        is_canonical(root),
    ensures
        is_canonical(canonical(user)),
        is_canonical(resolved(root, user)),
{
    lemma_segments_separator_free(user);
    lemma_walk_canonical(Seq::empty(), segments(user));
    lemma_walk_canonical(root, segments(user));
}

/// Walking over a single piece is one step.
pub proof fn lemma_walk_single(at: Seq<Seq<char>>, seg: Seq<char>)
    ensures
        walk(at, seq![seg]) == step(at, seg),
{
    let one = seq![seg];
    assert(one.drop_last() =~= Seq::<Seq<char>>::empty());
    assert(walk(at, one.drop_last()) == at);
}

/// Walking over two runs of pieces is walking over the first and going on
/// over the second.
pub proof fn lemma_walk_concat(at: Seq<Seq<char>>, a: Seq<Seq<char>>, b: Seq<Seq<char>>)
    ensures
        walk(at, a + b) == walk(walk(at, a), b),
    decreases b.len(),
{
    if b.len() == 0 {
        assert(a + b =~= a);
    } else {
        lemma_walk_concat(at, a, b.drop_last());
        assert((a + b).drop_last() =~= a + b.drop_last());
        assert((a + b).last() == b.last());
    }
}

/// Walking over names only descends: the names are appended as they are.
pub proof fn lemma_walk_names(at: Seq<Seq<char>>, names: Seq<Seq<char>>)
    requires
        is_canonical(names),
    ensures
        walk(at, names) == at + names,
    decreases names.len(),
{
    if names.len() == 0 {
        assert(at + names =~= at);
    } else {
        let front = names.drop_last();
        assert forall|i: int| 0 <= i < front.len() implies is_name(#[trigger] front[i]) by {
            assert(front[i] == names[i]);
        }
        lemma_walk_names(at, front);
        assert(is_name(names.last()));
        assert((at + front).push(names.last()) =~= at + names);
    }
}

/// Text without a separator, put behind `a`, only lengthens the last piece.
pub proof fn lemma_segments_append(a: Seq<char>, b: Seq<char>)
    requires
        separator_free(b),
    ensures
        segments(a).len() >= 1,
        segments(a + b) == segments(a).update(segments(a).len() - 1, segments(a).last() + b),
    decreases b.len(),
{
    lemma_absolute_first_segment(a);
    let base = segments(a);
    if b.len() == 0 {
        assert(a + b =~= a);
        assert(base.last() + b =~= base.last());
        assert(base.update(base.len() - 1, base.last() + b) =~= base);
    } else {
        let shorter = b.drop_last();
        assert(separator_free(shorter)) by {
            assert forall|i: int| 0 <= i < shorter.len() implies #[trigger] shorter[i] != '/' by {
                assert(shorter[i] == b[i]);
            }
        }
        lemma_segments_append(a, shorter);
        assert((a + b).drop_last() =~= a + shorter);
        assert((a + b).last() == b.last());
        assert(b.last() != '/');
        let front = segments(a + shorter);
        assert(front.last() == base.last() + shorter);
        assert((base.last() + shorter).push(b.last()) =~= base.last() + b);
        assert(segments(a + b) =~= base.update(base.len() - 1, base.last() + b));
    }
}

/// Splitting the text of canonical components gives an empty piece and then
/// the components.
pub proof fn lemma_segments_of_joined(path: Seq<Seq<char>>)
    requires
        is_canonical(path),
    ensures
        segments(joined(path)) == seq![Seq::<char>::empty()] + path,
    decreases path.len(),
{
    let one = seq![Seq::<char>::empty()];
    if path.len() == 0 {
        assert(one + path =~= one);
    } else {
        let front = path.drop_last();
        assert forall|i: int| 0 <= i < front.len() implies is_name(#[trigger] front[i]) by {
            assert(front[i] == path[i]);
        }
        lemma_segments_of_joined(front);
        let head = joined(front) + seq!['/'];
        assert(head.drop_last() =~= joined(front));
        assert(head.last() == '/');
        assert(segments(head) == (one + front).push(Seq::<char>::empty()));
        assert(is_name(path.last()));
        lemma_segments_append(head, path.last());
        assert(Seq::<char>::empty() + path.last() =~= path.last());
        assert(joined(path) =~= head + path.last());
        assert(segments(joined(path)) =~= one + path);
    }
}

/// Writing a canonical path out and reading it back changes nothing: the
/// text is absolute, and its canonical form is the path.
pub proof fn lemma_rendered_round_trip(path: Seq<Seq<char>>)
    requires
        is_canonical(path),
    ensures
        is_absolute(rendered(path)),
        canonical(rendered(path)) == path,
{
    let none = Seq::<Seq<char>>::empty();
    let one = seq![Seq::<char>::empty()];
    lemma_walk_single(none, Seq::<char>::empty());
    if path.len() == 0 {
        let text = seq!['/'];
        assert(text.drop_last() =~= Seq::<char>::empty());
        assert(segments(text.drop_last()) =~= one);
        assert(segments(text) == one.push(Seq::<char>::empty()));
        let two = one.push(Seq::<char>::empty());
        assert(two.drop_last() =~= one);
        assert(walk(none, two) == none);
        assert(path =~= none);
    } else {
        lemma_segments_of_joined(path);
        lemma_absolute_first_segment(joined(path));
        lemma_walk_concat(none, one, path);
        lemma_walk_names(none, path);
        assert(none + path =~= path);
    }
}

/// Resolving the text of an admitted path admits it again, unchanged.
pub proof fn lemma_resolve_again(root: Seq<Seq<char>>, path: Seq<Seq<char>>)
    requires
        is_canonical(path),
        within(root, path),
    ensures
        resolved(root, rendered(path)) == path,
        within(root, resolved(root, rendered(path))),
{
    lemma_rendered_round_trip(path);
}

/// Walking over pieces none of which is `..` never leaves the directory it
/// started from.
pub proof fn lemma_walk_without_parent(at: Seq<Seq<char>>, segs: Seq<Seq<char>>)
    requires
        forall|i: int| 0 <= i < segs.len() ==> !is_dot_dot(#[trigger] segs[i]),
    ensures
        within(at, walk(at, segs)),
    decreases segs.len(),
{
    if segs.len() == 0 {
        assert(at.take(at.len() as int) =~= at);
    } else {
        let front = segs.drop_last();
        assert forall|i: int| 0 <= i < front.len() implies !is_dot_dot(#[trigger] front[i]) by {
            assert(front[i] == segs[i]);
        }
        lemma_walk_without_parent(at, front);
        let here = walk(at, front);
        assert(!is_dot_dot(segs.last()));
        let next = step(here, segs.last());
        assert(next.take(at.len() as int) =~= here.take(at.len() as int));
    }
}

/// A relative path that never steps back to a parent is always admitted.
pub proof fn lemma_relative_without_parent_admitted(root: Seq<Seq<char>>, user: Seq<char>)
    requires
        !is_absolute(user),
        forall|i: int| 0 <= i < segments(user).len() ==> !is_dot_dot(#[trigger] segments(user)[i]),
    ensures
        within(root, resolved(root, user)),
{
    lemma_walk_without_parent(root, segments(user));
}

/// The empty path and `.` name the guarded folder itself.
pub proof fn lemma_resolved_self(root: Seq<Seq<char>>)
    ensures
        resolved(root, Seq::empty()) == root,
        resolved(root, seq!['.']) == root,
        within(root, root),
{
    let none = Seq::<char>::empty();
    assert(segments(none) =~= seq![none]);
    lemma_walk_single(root, none);
    let dot = seq!['.'];
    assert(dot.drop_last() =~= none);
    assert(segments(dot.drop_last()) =~= seq![none]);
    assert(segments(dot) =~= seq![dot]);
    lemma_walk_single(root, dot);
    assert(root.take(root.len() as int) =~= root);
}

/// An entry of an admitted directory lies within the guarded folder too:
/// for a proper name, the entry's text is the text of a canonical path
/// below the directory.
pub proof fn lemma_child_within(root: Seq<Seq<char>>, dir: Seq<Seq<char>>, name: Seq<char>)
    requires
        within(root, dir),
        is_canonical(dir),
        is_name(name),
    ensures
        child_text(dir, name) == rendered(dir.push(name)),
        is_canonical(dir.push(name)),
        within(root, dir.push(name)),
        canonical(child_text(dir, name)) == dir.push(name),
{
    let child = dir.push(name);
    assert(child.drop_last() =~= dir);
    assert(child.take(root.len() as int) =~= dir.take(root.len() as int));
    assert forall|i: int| 0 <= i < child.len() implies is_name(#[trigger] child[i]) by {
        if i < dir.len() {
            assert(child[i] == dir[i]);
        }
    }
    lemma_rendered_round_trip(child);
}

} // verus!
