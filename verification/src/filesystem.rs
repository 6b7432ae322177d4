//! Access of a session to files: paths below a root, and what can go wrong.

use vstd::prelude::*;
use vstd::string::*;

use crate::text;

verus! {

broadcast use vstd::seq::group_seq_axioms;

/// Errors from filesystem operations.
#[derive(Debug)]
pub enum FsError {
    /// The requested file or directory was not found.
    NotFound { path: String },
    /// A permission or access error.
    PermissionDenied { path: String },
    /// The path escapes the allowed root directory.
    PathTraversal { path: String },
    /// An I/O error occurred.
    Io { message: String },
    /// The path is a directory, not a file, or the other way round.
    WrongEntryType { path: String, message: String },
}

/// The model of [`FsError`].
#[verifier::ext_equal]
pub enum FsErrorView {
    NotFound { path: Seq<char> },
    PermissionDenied { path: Seq<char> },
    PathTraversal { path: Seq<char> },
    Io { message: Seq<char> },
    WrongEntryType { path: Seq<char>, message: Seq<char> },
}

impl DeepView for FsError {
    type V = FsErrorView;

    open spec fn deep_view(&self) -> FsErrorView {
        match *self {
            FsError::NotFound { path } => FsErrorView::NotFound { path: path.deep_view() },
            FsError::PermissionDenied { path } => FsErrorView::PermissionDenied {
                path: path.deep_view(),
            },
            FsError::PathTraversal { path } => FsErrorView::PathTraversal {
                path: path.deep_view(),
            },
            FsError::Io { message } => FsErrorView::Io { message: message.deep_view() },
            FsError::WrongEntryType { path, message } => FsErrorView::WrongEntryType {
                path: path.deep_view(),
                message: message.deep_view(),
            },
        }
    }
}

impl Clone for FsError {
    fn clone(&self) -> (r: Self)
        ensures
            r.deep_view() == self.deep_view(),
    {
        match self {
            FsError::NotFound { path } => {
                FsError::NotFound { path: path.clone() }
            },
            FsError::PermissionDenied { path } => {
                FsError::PermissionDenied { path: path.clone() }
            },
            FsError::PathTraversal { path } => {
                FsError::PathTraversal { path: path.clone() }
            },
            FsError::Io { message } => {
                FsError::Io { message: message.clone() }
            },
            FsError::WrongEntryType { path, message } => {
                FsError::WrongEntryType { path: path.clone(), message: message.clone() }
            },
        }
    }
}

/// The kinds of I/O errors that are told apart.
#[derive(Clone, Copy, Debug, PartialEq, Eq, Structural)]
pub enum IoErrorKind {
    NotFound,
    PermissionDenied,
    Other,
}

impl DeepView for IoErrorKind {
    type V = IoErrorKind;

    open spec fn deep_view(&self) -> IoErrorKind {
        *self
    }
}

/// An entry of a directory.
#[derive(Debug)]
pub struct DirEntry {
    /// Name of the entry, not its full path.
    pub name: String,
    /// Whether this entry is a directory.
    pub is_dir: bool,
}

/// The model of [`DirEntry`].
#[verifier::ext_equal]
pub struct DirEntryView {
    pub name: Seq<char>,
    pub is_dir: bool,
}

impl DeepView for DirEntry {
    type V = DirEntryView;

    open spec fn deep_view(&self) -> DirEntryView {
        DirEntryView {
            name: self.name.deep_view(),
            is_dir: self.is_dir,
        }
    }
}

impl Clone for DirEntry {
    fn clone(&self) -> (r: Self)
        ensures
            r.deep_view() == self.deep_view(),
    {
        DirEntry {
            name: self.name.clone(),
            is_dir: self.is_dir,
        }
    }
}

impl FsErrorView {
    /// The error as it is shown to a user.
    pub open spec fn text(self) -> Seq<char> {
        match self {
            FsErrorView::NotFound { path } => "not found: "@ + path,
            FsErrorView::PermissionDenied { path } => "permission denied: "@ + path,
            FsErrorView::PathTraversal { path } => "path traversal denied: "@ + path,
            FsErrorView::Io { message } => "I/O error: "@ + message,
            FsErrorView::WrongEntryType { path, message } => "wrong entry type at "@ + path + ": "@
                + message,
        }
    }
}

/// The error for a failed operation of which no path is known.
pub open spec fn io_error(kind: IoErrorKind, message: Seq<char>) -> FsErrorView {
    match kind {
        IoErrorKind::NotFound => FsErrorView::NotFound { path: Seq::empty() },
        IoErrorKind::PermissionDenied => FsErrorView::PermissionDenied { path: Seq::empty() },
        IoErrorKind::Other => FsErrorView::Io { message },
    }
}

/// The error for a file that could not be read.
pub open spec fn read_error(
    path: Seq<char>,
    kind: IoErrorKind,
    message: Seq<char>,
) -> FsErrorView {
    match kind {
        IoErrorKind::NotFound => FsErrorView::NotFound { path },
        IoErrorKind::PermissionDenied => FsErrorView::PermissionDenied { path },
        IoErrorKind::Other => FsErrorView::Io { message },
    }
}

/// The error for an entry that could not be removed.
pub open spec fn remove_error(
    path: Seq<char>,
    kind: IoErrorKind,
    message: Seq<char>,
) -> FsErrorView {
    match kind {
        IoErrorKind::NotFound => FsErrorView::NotFound { path },
        _ => FsErrorView::Io { message },
    }
}

impl FsError {
    /// The error as it is shown to a user.
    pub fn text(&self) -> (r: String)
        ensures
            r@ == self.deep_view().text(),
    {
        match self {
            FsError::NotFound { path } => {
                let mut r = "not found: ".to_owned();
                r.append(path.as_str());
                r
            },
            FsError::PermissionDenied { path } => {
                let mut r = "permission denied: ".to_owned();
                r.append(path.as_str());
                r
            },
            FsError::PathTraversal { path } => {
                let mut r = "path traversal denied: ".to_owned();
                r.append(path.as_str());
                r
            },
            FsError::Io { message } => {
                let mut r = "I/O error: ".to_owned();
                r.append(message.as_str());
                r
            },
            FsError::WrongEntryType { path, message } => {
                let mut r = "wrong entry type at ".to_owned();
                r.append(path.as_str());
                r.append(": ");
                r.append(message.as_str());
                r
            },
        }
    }

    /// The error for a failed operation of which no path is known.
    pub fn from_io(kind: IoErrorKind, message: String) -> (r: FsError)
        ensures
            r.deep_view() == io_error(kind, message@),
    {
        match kind {
            IoErrorKind::NotFound => FsError::NotFound { path: String::new() },
            IoErrorKind::PermissionDenied => FsError::PermissionDenied { path: String::new() },
            IoErrorKind::Other => FsError::Io { message },
        }
    }

    /// The error for a file that could not be read.
    pub fn from_read(path: &str, kind: IoErrorKind, message: String) -> (r: FsError)
        ensures
            r.deep_view() == read_error(path@, kind, message@),
    {
        match kind {
            IoErrorKind::NotFound => FsError::NotFound { path: path.to_owned() },
            IoErrorKind::PermissionDenied => FsError::PermissionDenied { path: path.to_owned() },
            IoErrorKind::Other => FsError::Io { message },
        }
    }

    /// The error for an entry that could not be removed.
    pub fn from_remove(path: &str, kind: IoErrorKind, message: String) -> (r: FsError)
        ensures
            r.deep_view() == remove_error(path@, kind, message@),
    {
        match kind {
            IoErrorKind::NotFound => FsError::NotFound { path: path.to_owned() },
            _ => FsError::Io { message },
        }
    }
}

/// The names in a path: what stands between its slashes, without empty names and dots.
pub open spec fn path_names(path: Seq<char>) -> Seq<Seq<char>>
    decreases path.len(),
{
    if path.len() == 0 {
        Seq::empty()
    } else {
        let n = text::until(path, '/') as int;
        let rest = if n >= path.len() {
            Seq::empty()
        } else {
            path_names(path.skip(n + 1))
        };
        if n == 0 || path.take(n) == seq!['.'] {
            rest
        } else {
            seq![path.take(n)] + rest
        }
    }
}

/// Whether a path begins at the root of all files.
pub open spec fn is_absolute(path: Seq<char>) -> bool {
    path.len() > 0 && path[0] == '/'
}

/// Whether a name leads to the parent directory.
pub open spec fn is_parent(name: Seq<char>) -> bool {
    name == seq!['.', '.']
}

/// The directory that a walk along the names ends in, below where it began; none where it
/// would leave that directory on its way.
pub open spec fn walked(names: Seq<Seq<char>>) -> Option<Seq<Seq<char>>>
    decreases names.len(),
{
    if names.len() == 0 {
        Some(Seq::empty())
    } else {
        match walked(names.drop_last()) {
            Some(at) => if is_parent(names.last()) {
                if at.len() == 0 {
                    None
                } else {
                    Some(at.drop_last())
                }
            } else {
                Some(at.push(names.last()))
            },
            None => None,
        }
    }
}

/// The names of a path below the root directory; none for an absolute path elsewhere.
pub open spec fn names_below(root: Seq<char>, path: Seq<char>) -> Option<Seq<Seq<char>>> {
    if !is_absolute(path) {
        Some(path_names(path))
    } else if is_absolute(root) && path_names(root).is_prefix_of(path_names(path)) {
        Some(path_names(path).skip(path_names(root).len() as int))
    } else {
        None
    }
}

/// The names of the place that a path leads to, below the root directory; none where the
/// path leads, even on its way, out of it.
pub open spec fn place_below(root: Seq<char>, path: Seq<char>) -> Option<Seq<Seq<char>>> {
    match names_below(root, path) {
        Some(names) => walked(names),
        None => None,
    }
}

/// A path put behind a directory.
pub open spec fn path_join(directory: Seq<char>, path: Seq<char>) -> Seq<char> {
    if is_absolute(path) {
        path
    } else if directory.len() > 0 && directory.last() != '/' {
        directory + "/"@ + path
    } else {
        directory + path
    }
}

/// A place below the root never has a name that leads upwards, nor an empty one, nor one
/// with a slash in it: no accepted path leaves the root directory.
pub proof fn law_place_is_below_root(root: Seq<char>, path: Seq<char>)
    ensures
        place_below(root, path) matches Some(names) ==> forall|i: int|
            0 <= i < names.len() ==> {
                &&& !is_parent(#[trigger] names[i])
                &&& names[i].len() > 0
                &&& names[i] != seq!['.']
                &&& forall|k: int| 0 <= k < names[i].len() ==> names[i][k] != '/'
            },
{
    if let Some(names) = names_below(root, path) {
        lemma_path_names(path);
        assert forall|i: int| 0 <= i < names.len() implies plain_name(#[trigger] names[i]) by {
            if is_absolute(path) {
                assert(names[i] == path_names(path)[i + path_names(root).len()]);
            }
        }
        lemma_walked(names);
    }
}

/// A directory, taken from the current one where it is relative.
pub open spec fn absolute_directory(current: Seq<char>, directory: Seq<char>) -> Seq<char> {
    let path = path_join(current, directory);
    if is_absolute(path) {
        path
    } else {
        "/"@ + path
    }
}

/// The canonical absolute path that a path leads to below a root directory. A path that
/// leads out of the root, even on its way, is refused.
pub open spec fn resolved(root: Seq<char>, path: Seq<char>) -> Result<Seq<char>, FsErrorView> {
    match place_below(root, path) {
        Some(names) => Ok(path_join(root, text::joined(names, "/"@))),
        None => Err(FsErrorView::PathTraversal { path }),
    }
}

/// A path that is resolved below an absolute root is absolute and lies below the root, and
/// resolving it once more changes nothing.
pub proof fn law_resolved_path(root: Seq<char>, path: Seq<char>)
    requires
        is_absolute(root),
    ensures
        resolved(root, path) matches Ok(place) ==> {
            &&& is_absolute(place)
            &&& path_names(root).is_prefix_of(path_names(place))
            &&& path_names(place) == path_names(root) + place_below(root, path)->0
            &&& resolved(root, place) == resolved(root, path)
        },
{
    if let Some(names) = place_below(root, path) {
        law_place_is_below_root(root, path);
        assert forall|i: int| 0 <= i < names.len() implies plain_name(#[trigger] names[i])
            && !is_parent(names[i]) by {
        }
        let relative = text::joined(names, "/"@);
        let place = path_join(root, relative);
        lemma_names_of_joined(names);
        lemma_names_behind(root, relative);
        let all = path_names(place);
        assert(path_names(root) =~= all.subrange(0, path_names(root).len() as int));
        assert(all.skip(path_names(root).len() as int) =~= names);
        lemma_walked_straight(names);
    }
}

proof fn lemma_until_is(s: Seq<char>, c: char, n: int)
    requires
        0 <= n <= s.len(),
        forall|i: int| 0 <= i < n ==> s[i] != c,
        n < s.len() ==> s[n] == c,
    ensures
        text::until(s, c) == n,
    decreases n,
{
    if n > 0 {
        assert forall|i: int| 0 <= i < n - 1 implies s.drop_first()[i] != c by {
            assert(s.drop_first()[i] == s[i + 1]);
        }
        lemma_until_is(s.drop_first(), c, n - 1);
    }
}

/// The names of two paths with a slash between them are those of the first and then those of
/// the second.
proof fn lemma_names_with_slash(first: Seq<char>, second: Seq<char>)
    ensures
        path_names(first + "/"@ + second) == path_names(first) + path_names(second),
    decreases first.len(),
{
    reveal_strlit("/");
    let both = first + "/"@ + second;
    if first.len() == 0 {
        lemma_until_is(both, '/', 0);
        assert(both.skip(1) =~= second);
        assert(path_names(first) + path_names(second) =~= path_names(second));
        if second.len() == 0 {
            assert(both.skip(1) =~= Seq::empty());
        }
    } else {
        text::lemma_until(first, '/');
        let n = text::until(first, '/') as int;
        lemma_until_is(both, '/', n);
        assert(both.take(n) =~= first.take(n));
        if n < first.len() {
            assert(both.skip(n + 1) =~= first.skip(n + 1) + "/"@ + second);
            lemma_names_with_slash(first.skip(n + 1), second);
        } else {
            assert(both.skip(n + 1) =~= second);
        }
        assert(path_names(both) =~= path_names(first) + path_names(second));
    }
}

proof fn lemma_names_of_joined(names: Seq<Seq<char>>)
    requires
        forall|i: int| 0 <= i < names.len() ==> plain_name(#[trigger] names[i]),
    ensures
        path_names(text::joined(names, "/"@)) == names,
        !is_absolute(text::joined(names, "/"@)),
        names.len() > 0 ==> text::joined(names, "/"@).len() > 0,
    decreases names.len(),
{
    if names.len() == 0 {
        assert(path_names(Seq::empty()) =~= names);
    } else {
        let name = names.last();
        assert(plain_name(names[names.len() - 1]));
        lemma_until_is(name, '/', name.len() as int);
        assert(name.take(name.len() as int) =~= name);
        assert(path_names(name) =~= seq![name]);
        if names.len() > 1 {
            let front = names.drop_last();
            assert forall|i: int| 0 <= i < front.len() implies plain_name(#[trigger] front[i]) by {
                assert(front[i] == names[i]);
            }
            lemma_names_of_joined(front);
            lemma_names_with_slash(text::joined(front, "/"@), name);
            assert(front + seq![name] =~= names);
        } else {
            assert(names =~= seq![name]);
        }
    }
}

/// The names of a relative path behind a directory.
proof fn lemma_names_behind(directory: Seq<char>, path: Seq<char>)
    requires
        directory.len() > 0,
        !is_absolute(path),
    ensures
        path_names(path_join(directory, path)) == path_names(directory) + path_names(path),
{
    reveal_strlit("/");
    if directory.last() != '/' {
        lemma_names_with_slash(directory, path);
    } else {
        let front = directory.drop_last();
        lemma_names_with_slash(front, path);
        lemma_names_with_slash(front, Seq::empty());
        assert(front + "/"@ + path =~= directory + path);
        assert(front + "/"@ + Seq::<char>::empty() =~= directory);
        assert(path_names(front) + path_names(Seq::empty()) =~= path_names(front));
    }
}

proof fn lemma_walked_straight(names: Seq<Seq<char>>)
    requires
        forall|i: int| 0 <= i < names.len() ==> !is_parent(#[trigger] names[i]),
    ensures
        walked(names) == Some(names),
    decreases names.len(),
{
    if names.len() > 0 {
        let front = names.drop_last();
        assert forall|i: int| 0 <= i < front.len() implies !is_parent(#[trigger] front[i]) by {
            assert(front[i] == names[i]);
        }
        lemma_walked_straight(front);
        assert(!is_parent(names[names.len() - 1]));
        assert(front.push(names.last()) =~= names);
    } else {
        assert(names =~= Seq::empty());
    }
}

/// A path of names that go down leads below the root to the file of those names, and so does
/// that path with the root in front of it. Other names lead to another place.
pub proof fn law_path_leads_where_it_says(
    root: Seq<char>,
    names: Seq<Seq<char>>,
    others: Seq<Seq<char>>,
)
    requires
        is_absolute(root),
        root.last() != '/',
        names.len() > 0,
        forall|i: int|
            0 <= i < names.len() ==> plain_name(#[trigger] names[i]) && !is_parent(names[i]),
        forall|i: int|
            0 <= i < others.len() ==> plain_name(#[trigger] others[i]) && !is_parent(others[i]),
    ensures
        ({
            let path = text::joined(names, "/"@);
            &&& resolved(root, path) == Ok::<Seq<char>, FsErrorView>(root + "/"@ + path)
            &&& resolved(root, root + "/"@ + path) == Ok::<Seq<char>, FsErrorView>(
                root + "/"@ + path,
            )
            &&& names != others ==> resolved(root, text::joined(others, "/"@)) != resolved(
                root,
                path,
            )
        }),
{
    let path = text::joined(names, "/"@);
    lemma_names_of_joined(names);
    lemma_walked_straight(names);
    lemma_names_with_slash(root, path);
    let whole = root + "/"@ + path;
    assert(whole[0] == root[0]);
    let above = path_names(root);
    assert((above + names).subrange(0, above.len() as int) =~= above);
    assert((above + names).skip(above.len() as int) =~= names);
    let other = text::joined(others, "/"@);
    lemma_names_of_joined(others);
    lemma_walked_straight(others);
    law_resolved_path(root, path);
    law_resolved_path(root, other);
    if resolved(root, other) == resolved(root, path) {
        assert(above + names == above + others);
        assert(names =~= (above + names).skip(above.len() as int));
        assert(others =~= (above + others).skip(above.len() as int));
    }
}

/// A step up takes back the step down before it. A path that goes up further than it has gone
/// down is refused, whatever follows, and so is an absolute path that does not begin with the
/// root.
pub proof fn law_steps_up(root: Seq<char>, path: Seq<char>, name: Seq<char>, rest: Seq<Seq<char>>)
    requires
        is_absolute(root),
        plain_name(name),
        !is_parent(name),
    ensures
        !is_absolute(path) && path.len() > 0 ==> place_below(
            root,
            path + "/"@ + name + "/"@ + seq!['.', '.'],
        ) == place_below(root, path),
        walked(seq![seq!['.', '.']] + rest) is None,
        resolved(root, seq!['.', '.']) == Err::<Seq<char>, FsErrorView>(
            FsErrorView::PathTraversal { path: seq!['.', '.'] },
        ),
        is_absolute(path) && !path_names(root).is_prefix_of(path_names(path)) ==> resolved(
            root,
            path,
        ) == Err::<Seq<char>, FsErrorView>(FsErrorView::PathTraversal { path }),
{
    let up = seq!['.', '.'];
    lemma_until_is(up, '/', 2);
    assert(up.take(2) =~= up);
    assert(path_names(up) =~= seq![up]);
    let first = seq![up];
    assert(first.drop_last() =~= Seq::empty());
    assert(walked(Seq::empty()) == Some(Seq::<Seq<char>>::empty()));
    assert(walked(first) is None);
    let all = first + rest;
    assert(all.take(1) =~= first);
    lemma_walked_none(all, 1);
    if !is_absolute(path) && path.len() > 0 {
        let down = path + "/"@ + name;
        let back = down + "/"@ + up;
        assert(back[0] == path[0]);
        lemma_names_with_slash(path, name);
        lemma_names_with_slash(down, up);
        lemma_until_is(name, '/', name.len() as int);
        assert(name.take(name.len() as int) =~= name);
        assert(path_names(name) =~= seq![name]);
        let names = path_names(path);
        let two = path_names(back);
        assert(two =~= names.push(name).push(up));
        assert(two.drop_last() =~= names.push(name));
        assert(names.push(name).drop_last() =~= names);
        reveal_with_fuel(walked, 2);
        if let Some(at) = walked(names) {
            assert(walked(names.push(name)) == Some(at.push(name)));
            assert(at.push(name).drop_last() =~= at);
        } else {
            assert(walked(names.push(name)) is None);
        }
        assert(walked(two) == walked(names));
    }
}

/// The root of a session is the directory that it was given where that is absolute, and else
/// that directory below the current one.
pub proof fn law_root_of_a_session(current: Seq<char>, directory: Seq<char>)
    requires
        is_absolute(current),
        current.last() != '/',
    ensures
        is_absolute(absolute_directory(current, directory)),
        is_absolute(directory) ==> absolute_directory(current, directory) == directory,
        !is_absolute(directory) ==> absolute_directory(current, directory) == current + "/"@
            + directory,
{
    if !is_absolute(directory) {
        assert((current + "/"@ + directory)[0] == current[0]);
    }
}

/// A file is looked for in the directory itself first, then in the one above it, and last at
/// the root.
pub proof fn law_search_goes_up(names: Seq<Seq<char>>, file_name: Seq<char>, i: int)
    requires
        forall|k: int| 0 <= k < names.len() ==> plain_name(#[trigger] names[k]),
        names.len() > 0,
        0 < i < names.len(),
    ensures
        ({
            let start = "/"@ + text::joined(names, "/"@);
            let places = places_upwards(start, file_name);
            &&& places.len() == names.len() + 1
            &&& places[0] == start + "/"@ + file_name
            &&& places[i] == "/"@ + text::joined(names.take(names.len() - i), "/"@) + "/"@
                + file_name
            &&& places[names.len() as int] == "/"@ + file_name
        }),
{
    let start = "/"@ + text::joined(names, "/"@);
    reveal_strlit("/");
    lemma_names_of_joined(names);
    let none = Seq::<char>::empty();
    lemma_names_with_slash(none, text::joined(names, "/"@));
    assert(none + "/"@ + text::joined(names, "/"@) =~= start);
    assert(path_names(none) + names =~= names);
    assert(start[0] == '/');
    assert(path_steps(start) == names);
    lemma_file_behind(names, file_name);
    let kept = names.take(names.len() - i);
    lemma_file_behind(kept, file_name);
    assert(names.take(names.len() as int) =~= names);
    assert(names.take(0) =~= Seq::empty());
    let alone = Seq::<Seq<char>>::empty().push(file_name);
    assert(text::joined(alone, "/"@) == file_name);
    let places = places_upwards(start, file_name);
    assert(places[0] =~= start + "/"@ + file_name);
    assert(places[i] =~= "/"@ + text::joined(kept, "/"@) + "/"@ + file_name);
}

proof fn lemma_file_behind(names: Seq<Seq<char>>, file_name: Seq<char>)
    requires
        names.len() > 0,
    ensures
        text::joined(names.push(file_name), "/"@) == text::joined(names, "/"@) + "/"@ + file_name,
{
    assert(names.push(file_name).drop_last() =~= names);
}

/// A name that is not empty, not a dot, and without slashes.
pub open spec fn plain_name(name: Seq<char>) -> bool {
    &&& name.len() > 0
    &&& name != seq!['.']
    &&& forall|k: int| 0 <= k < name.len() ==> name[k] != '/'
}

proof fn lemma_path_names(path: Seq<char>)
    ensures
        forall|i: int| 0 <= i < path_names(path).len() ==> plain_name(#[trigger] path_names(path)[i]),
    decreases path.len(),
{
    if path.len() > 0 {
        text::lemma_until(path, '/');
        let n = text::until(path, '/') as int;
        if n < path.len() {
            lemma_path_names(path.skip(n + 1));
        }
        let names = path_names(path);
        assert forall|i: int| 0 <= i < names.len() implies plain_name(#[trigger] names[i]) by {
            let rest = if n >= path.len() {
                Seq::empty()
            } else {
                path_names(path.skip(n + 1))
            };
            if n == 0 || path.take(n) == seq!['.'] {
                assert(plain_name(rest[i]));
            } else if i == 0 {
                assert(names[0] == path.take(n));
            } else {
                assert(names[i] == rest[i - 1]);
            }
        }
    }
}

proof fn lemma_walked(names: Seq<Seq<char>>)
    requires
        forall|i: int| 0 <= i < names.len() ==> plain_name(#[trigger] names[i]),
    ensures
        walked(names) matches Some(at) ==> forall|i: int|
            0 <= i < at.len() ==> plain_name(#[trigger] at[i]) && !is_parent(at[i]),
    decreases names.len(),
{
    if names.len() > 0 {
        assert forall|i: int| 0 <= i < names.drop_last().len() implies plain_name(
            #[trigger] names.drop_last()[i],
        ) by {
            assert(names.drop_last()[i] == names[i]);
        }
        lemma_walked(names.drop_last());
        assert(plain_name(names[names.len() - 1]));
        if let Some(at) = walked(names.drop_last()) {
            if let Some(next) = walked(names) {
                assert forall|i: int| 0 <= i < next.len() implies plain_name(#[trigger] next[i])
                    && !is_parent(next[i]) by {
                    if i < at.len() {
                        assert(plain_name(at[i]) && !is_parent(at[i]));
                    }
                }
            }
        }
    }
}

/// The names in a path.
pub fn split_path(path: &str) -> (r: Vec<String>)
    ensures
        r.deep_view() == path_names(path@),
{
    let chars = text::chars_of(path);
    let mut r: Vec<String> = Vec::new();
    let mut start: usize = 0;
    proof {
        assert(chars@.skip(0) =~= chars@);
        assert(r.deep_view() + path_names(chars@) =~= path_names(chars@));
    }
    while start < chars.len()
        invariant
            start <= chars@.len(),
            r.deep_view() + path_names(chars@.skip(start as int)) == path_names(chars@),
        decreases chars@.len() - start,
    {
        let ghost rest = chars@.skip(start as int);
        let ghost before = r.deep_view();
        let mut end: usize = start;
        while end < chars.len() && chars[end] != '/'
            invariant
                start <= end <= chars@.len(),
                rest == chars@.skip(start as int),
                text::until(rest, '/') == (end - start) + text::until(chars@.skip(end as int), '/'),
            decreases chars@.len() - end,
        {
            assert(chars@.skip(end as int).drop_first() =~= chars@.skip(end + 1));
            end = end + 1;
        }
        let ghost n = (end - start) as int;
        assert(text::until(chars@.skip(end as int), '/') == 0);
        assert(rest.take(n) =~= chars@.subrange(start as int, end as int));
        let next: usize = if end < chars.len() {
            end + 1
        } else {
            end
        };
        proof {
            if end < chars@.len() {
                assert(rest.skip(n + 1) =~= chars@.skip(next as int));
            } else {
                assert(chars@.skip(next as int) =~= Seq::empty());
            }
        }
        let name = text::text_between(&chars, start, end);
        let is_dot = end == start + 1 && chars[start] == '.';
        proof {
            assert(is_dot == (rest.take(n) == seq!['.'])) by {
                if is_dot {
                    assert(rest.take(n) =~= seq!['.']);
                }
                if rest.take(n) == seq!['.'] {
                    assert(rest.take(n).len() == 1);
                    assert(rest.take(n)[0] == '.');
                }
            }
        }
        if end > start && !is_dot {
            r.push(name);
            assert(r.deep_view() =~= before.push(rest.take(n)));
            assert(r.deep_view() + path_names(chars@.skip(next as int)) =~= before + path_names(
                rest,
            ));
        }
        start = next;
    }
    assert(chars@.skip(start as int) =~= Seq::empty());
    assert(r.deep_view() + Seq::<Seq<char>>::empty() =~= r.deep_view());
    r
}

/// Whether a path begins at the root of all files.
pub fn path_is_absolute(path: &str) -> (r: bool)
    ensures
        r == is_absolute(path@),
{
    let chars = text::chars_of(path);
    chars.len() > 0 && chars[0] == '/'
}

/// A path put behind a directory.
pub fn join_path(directory: &str, path: &str) -> (r: String)
    ensures
        r@ == path_join(directory@, path@),
{
    if path_is_absolute(path) {
        return path.to_owned();
    }
    let chars = text::chars_of(directory);
    let mut r = directory.to_owned();
    if chars.len() > 0 && chars[chars.len() - 1] != '/' {
        r.append("/");
    }
    r.append(path);
    r
}

/// How a session resolves the paths that its tools are given.
pub trait SessionFilesystem {
    /// The path that a path leads to, or the error.
    spec fn resolves(&self, path: Seq<char>) -> Result<Seq<char>, FsErrorView>;

    /// The root directory.
    spec fn root_text(&self) -> Seq<char>;

    /// Resolves a path that may be relative to the root directory. Returns the canonical
    /// absolute path within the filesystem.
    fn resolve_path(&self, path: &str) -> (r: Result<String, FsError>)
        ensures
            r matches Ok(resolved) ==> is_absolute(resolved@),
            match r {
                Ok(resolved) => self.resolves(path@) == Ok::<Seq<char>, FsErrorView>(resolved@),
                Err(error) => self.resolves(path@) == Err::<Seq<char>, FsErrorView>(
                    error.deep_view(),
                ),
            },
    ;

    /// The root directory of this filesystem.
    fn root(&self) -> (r: &str)
        ensures
            r@ == self.root_text(),
    ;
}

/// A filesystem below a root directory, which is absolute.
#[derive(Debug)]
pub struct OverlayFilesystem {
    root_dir: String,
}

impl OverlayFilesystem {
    #[verifier::type_invariant]
    spec fn rooted(self) -> bool {
        is_absolute(self.root_dir@)
    }

    /// The filesystem below `base_dir`, which has to exist. A relative `base_dir` is one
    /// below `current_dir`.
    pub fn new(base_dir: String, current_dir: &str) -> (r: OverlayFilesystem)
        ensures
            r.root_text() == absolute_directory(current_dir@, base_dir@),
            is_absolute(r.root_text()),
    {
        proof {
            reveal_strlit("/");
        }
        let path = join_path(current_dir, base_dir.as_str());
        if path_is_absolute(path.as_str()) {
            OverlayFilesystem { root_dir: path }
        } else {
            let mut root_dir = "/".to_owned();
            root_dir.append(path.as_str());
            OverlayFilesystem { root_dir }
        }
    }

    /// The place that a path leads to, relative to the root. A path that leads out of the
    /// root, even on its way, is refused.
    pub fn normalize_relative(&self, path: &str) -> (r: Result<String, FsError>)
        ensures
            match r {
                Ok(relative) => place_below(self.root_text(), path@) matches Some(names)
                    && relative@ == text::joined(names, "/"@),
                Err(error) => {
                    &&& place_below(self.root_text(), path@) is None
                    &&& error.deep_view() == (FsErrorView::PathTraversal { path: path@ })
                },
            },
    {
        let names = split_path(path);
        let ghost all = names.deep_view();
        let mut start: usize = 0;
        if path_is_absolute(path) {
            let root = split_path(self.root_dir.as_str());
            if !path_is_absolute(self.root_dir.as_str()) || !begins_with(&names, &root) {
                return Err(FsError::PathTraversal { path: path.to_owned() });
            }
            start = root.len();
        }
        let ghost below = all.skip(start as int);
        assert(start == 0 ==> below =~= all);
        assert(names_below(self.root_dir@, path@) == Some(below));
        let mut at: Vec<String> = Vec::new();
        let mut i: usize = start;
        assert(at.deep_view() =~= Seq::empty());
        assert(below.take(0) =~= Seq::empty());
        while i < names.len()
            invariant
                start <= i <= names@.len(),
                all == names.deep_view(),
                below == all.skip(start as int),
                names_below(self.root_dir@, path@) == Some(below),
                walked(below.take(i - start)) == Some(at.deep_view()),
            decreases names@.len() - i,
        {
            let ghost next = below.take(i - start + 1);
            assert(next.drop_last() =~= below.take(i - start));
            assert(next.last() == names@[i as int]@);
            let ghost before = at.deep_view();
            if text::same(names[i].as_str(), "..") {
                proof {
                    reveal_strlit("..");
                    assert(".."@ =~= seq!['.', '.']);
                }
                if at.len() == 0 {
                    proof {
                        lemma_walked_none(below, i - start + 1);
                    }
                    return Err(FsError::PathTraversal { path: path.to_owned() });
                }
                at.pop();
                assert(at.deep_view() =~= before.drop_last());
            } else {
                proof {
                    reveal_strlit("..");
                    assert(".."@ =~= seq!['.', '.']);
                }
                at.push(names[i].clone());
                assert(at.deep_view() =~= before.push(all[i as int]));
            }
            i = i + 1;
        }
        assert(below.take(i - start) =~= below);
        Ok(text::join(&at, "/"))
    }

    /// A relative path below the root.
    pub fn root_path(&self, relative: &str) -> (r: String)
        ensures
            r@ == path_join(self.root_text(), relative@),
    {
        join_path(self.root_dir.as_str(), relative)
    }
}

/// A walk that has left the directory does not come back.
proof fn lemma_walked_none(names: Seq<Seq<char>>, n: int)
    requires
        0 <= n <= names.len(),
        walked(names.take(n)) is None,
    ensures
        walked(names) is None,
    decreases names.len() - n,
{
    if n < names.len() {
        assert(names.take(n + 1).drop_last() =~= names.take(n));
        lemma_walked_none(names, n + 1);
    } else {
        assert(names.take(n) =~= names);
    }
}

/// Whether a list of names begins with another.
fn begins_with(names: &Vec<String>, prefix: &Vec<String>) -> (r: bool)
    ensures
        r == prefix.deep_view().is_prefix_of(names.deep_view()),
        r ==> prefix@.len() <= names@.len(),
{
    if prefix.len() > names.len() {
        return false;
    }
    let mut i: usize = 0;
    while i < prefix.len()
        invariant
            i <= prefix@.len() <= names@.len(),
            forall|j: int| 0 <= j < i ==> prefix.deep_view()[j] == names.deep_view()[j],
        decreases prefix@.len() - i,
    {
        if !text::same(prefix[i].as_str(), names[i].as_str()) {
            proof {
                let a = prefix.deep_view();
                let b = names.deep_view();
                assert(a[i as int] != b[i as int]);
                if a.is_prefix_of(b) {
                    assert(b.subrange(0, a.len() as int)[i as int] == b[i as int]);
                }
            }
            return false;
        }
        i = i + 1;
    }
    assert(prefix.deep_view() =~= names.deep_view().subrange(0, prefix@.len() as int));
    true
}

impl SessionFilesystem for OverlayFilesystem {
    open spec fn resolves(&self, path: Seq<char>) -> Result<Seq<char>, FsErrorView> {
        resolved(self.root_text(), path)
    }

    closed spec fn root_text(&self) -> Seq<char> {
        self.root_dir@
    }

    fn resolve_path(&self, path: &str) -> (r: Result<String, FsError>) {
        proof {
            use_type_invariant(self);
        }
        match self.normalize_relative(path) {
            Ok(relative) => Ok(self.root_path(relative.as_str())),
            Err(error) => Err(error),
        }
    }

    fn root(&self) -> (r: &str)
        ensures
            is_absolute(r@),
    {
        proof {
            use_type_invariant(self);
        }
        self.root_dir.as_str()
    }
}

/// A no-op filesystem for testing. All operations return errors.
#[derive(Debug)]
pub struct NullFilesystem;

impl NullFilesystem {
    /// There is nothing to read.
    pub fn read_file(&self, path: &str) -> (r: Result<String, FsError>)
        ensures
            r matches Err(error) && error.deep_view() == (FsErrorView::NotFound { path: path@ }),
    {
        Err(FsError::NotFound { path: path.to_owned() })
    }

    /// Nothing can be written.
    pub fn write_file(&self, path: &str, _contents: &str) -> (r: Result<(), FsError>)
        ensures
            r matches Err(error) && error.deep_view() == (FsErrorView::NotFound { path: path@ }),
    {
        Err(FsError::NotFound { path: path.to_owned() })
    }

    /// There is nothing to look at.
    pub fn path_exists(&self, path: &str) -> (r: Result<bool, FsError>)
        ensures
            r matches Err(error) && error.deep_view() == (FsErrorView::NotFound { path: path@ }),
    {
        Err(FsError::NotFound { path: path.to_owned() })
    }

    /// There is nothing to list.
    pub fn list_dir(&self, path: &str) -> (r: Result<Vec<DirEntry>, FsError>)
        ensures
            r matches Err(error) && error.deep_view() == (FsErrorView::NotFound { path: path@ }),
    {
        Err(FsError::NotFound { path: path.to_owned() })
    }

    /// No directory can be made.
    pub fn create_dir_all(&self, path: &str) -> (r: Result<(), FsError>)
        ensures
            r matches Err(error) && error.deep_view() == (FsErrorView::NotFound { path: path@ }),
    {
        Err(FsError::NotFound { path: path.to_owned() })
    }

    /// There is nothing to remove.
    pub fn remove_file(&self, path: &str) -> (r: Result<(), FsError>)
        ensures
            r matches Err(error) && error.deep_view() == (FsErrorView::NotFound { path: path@ }),
    {
        Err(FsError::NotFound { path: path.to_owned() })
    }

    /// There is nothing to remove.
    pub fn remove_dir_all(&self, path: &str) -> (r: Result<(), FsError>)
        ensures
            r matches Err(error) && error.deep_view() == (FsErrorView::NotFound { path: path@ }),
    {
        Err(FsError::NotFound { path: path.to_owned() })
    }
}

impl SessionFilesystem for NullFilesystem {
    open spec fn resolves(&self, path: Seq<char>) -> Result<Seq<char>, FsErrorView> {
        Err(FsErrorView::NotFound { path })
    }

    open spec fn root_text(&self) -> Seq<char> {
        "/"@
    }

    fn resolve_path(&self, path: &str) -> (r: Result<String, FsError>) {
        Err(FsError::NotFound { path: path.to_owned() })
    }

    fn root(&self) -> (r: &str) {
        "/"
    }
}

/// The entries with one more put behind all those whose name is not greater.
pub open spec fn insert_entry(entries: Seq<DirEntryView>, entry: DirEntryView) -> Seq<DirEntryView>
    decreases entries.len(),
{
    if entries.len() == 0 || text::text_le(entries.last().name, entry.name) {
        entries.push(entry)
    } else {
        insert_entry(entries.drop_last(), entry).push(entries.last())
    }
}

/// The entries in the order of their names; entries of one name keep their order.
pub open spec fn sorted_entries(entries: Seq<DirEntryView>) -> Seq<DirEntryView>
    decreases entries.len(),
{
    if entries.len() == 0 {
        entries
    } else {
        insert_entry(sorted_entries(entries.drop_last()), entries.last())
    }
}

/// Whether entries stand in the order of their names.
pub open spec fn entries_in_order(entries: Seq<DirEntryView>) -> bool {
    forall|i: int, j: int|
        0 <= i < j < entries.len() ==> text::text_le(
            (#[trigger] entries[i]).name,
            (#[trigger] entries[j]).name,
        )
}

proof fn lemma_insert_entry(entries: Seq<DirEntryView>, entry: DirEntryView)
    requires
        entries_in_order(entries),
    ensures
        entries_in_order(insert_entry(entries, entry)),
        insert_entry(entries, entry).to_multiset() == entries.to_multiset().insert(entry),
        forall|x: DirEntryView| #[trigger]
            insert_entry(entries, entry).contains(x) ==> x == entry || entries.contains(x),
    decreases entries.len(),
{
    broadcast use vstd::seq_lib::group_to_multiset_ensures;

    let out = insert_entry(entries, entry);
    if entries.len() == 0 || text::text_le(entries.last().name, entry.name) {
        assert forall|i: int, j: int| 0 <= i < j < out.len() implies text::text_le(
            (#[trigger] out[i]).name,
            (#[trigger] out[j]).name,
        ) by {
            if j == entries.len() && i < entries.len() - 1 {
                assert(text::text_le(entries[i].name, entries[entries.len() - 1].name));
                text::lemma_text_le_transitive(entries[i].name, entries.last().name, entry.name);
            }
        }
        assert forall|x: DirEntryView| #[trigger] out.contains(x) implies x == entry
            || entries.contains(x) by {
            let k = choose|k: int| 0 <= k < out.len() && out[k] == x;
            if k < entries.len() {
                assert(entries[k] == x);
            }
        }
    } else {
        let front = entries.drop_last();
        let last = entries.last();
        lemma_insert_entry(front, entry);
        let inner = insert_entry(front, entry);
        text::lemma_text_le_total(entry.name, last.name);
        assert forall|i: int, j: int| 0 <= i < j < out.len() implies text::text_le(
            (#[trigger] out[i]).name,
            (#[trigger] out[j]).name,
        ) by {
            if j == inner.len() {
                assert(inner.contains(inner[i]));
                if inner[i] != entry {
                    assert(front.contains(inner[i]));
                    let k = choose|k: int| 0 <= k < front.len() && front[k] == inner[i];
                    assert(text::text_le(entries[k].name, entries[entries.len() - 1].name));
                }
            } else {
                assert(text::text_le(inner[i].name, inner[j].name));
            }
        }
        assert(front.push(last) =~= entries);
        assert(out.to_multiset() =~= entries.to_multiset().insert(entry));
        assert forall|x: DirEntryView| #[trigger] out.contains(x) implies x == entry
            || entries.contains(x) by {
            let k = choose|k: int| 0 <= k < out.len() && out[k] == x;
            if k < inner.len() {
                assert(inner.contains(inner[k]));
                if x != entry {
                    let m = choose|m: int| 0 <= m < front.len() && front[m] == x;
                    assert(entries[m] == x);
                }
            } else {
                assert(entries[entries.len() - 1] == x);
            }
        }
    }
}

/// A listing holds the entries of the directory, each as often as it was there, in the order
/// of their names.
pub proof fn law_sorted_entries(entries: Seq<DirEntryView>)
    ensures
        entries_in_order(sorted_entries(entries)),
        sorted_entries(entries).to_multiset() == entries.to_multiset(),
    decreases entries.len(),
{
    broadcast use vstd::seq_lib::group_to_multiset_ensures;

    if entries.len() > 0 {
        law_sorted_entries(entries.drop_last());
        lemma_insert_entry(sorted_entries(entries.drop_last()), entries.last());
        assert(entries.drop_last().push(entries.last()) =~= entries);
    }
}

/// The entries of a directory in the order in which they are listed.
pub fn sort_entries(entries: &Vec<DirEntry>) -> (r: Vec<DirEntry>)
    ensures
        r.deep_view() == sorted_entries(entries.deep_view()),
{
    let mut r: Vec<DirEntry> = Vec::new();
    let ghost all = entries.deep_view();
    let mut i: usize = 0;
    assert(r.deep_view() =~= sorted_entries(all.take(0)));
    while i < entries.len()
        invariant
            i <= entries@.len(),
            all == entries.deep_view(),
            r.deep_view() == sorted_entries(all.take(i as int)),
        decreases entries@.len() - i,
    {
        assert(all.take(i + 1).drop_last() =~= all.take(i as int));
        assert(all.take(i + 1).last() == entries@[i as int].deep_view());
        let ghost before = r.deep_view();
        let ghost entry = entries@[i as int].deep_view();
        let mut at: usize = r.len();
        assert(before.take(at as int) =~= before);
        assert(before.skip(at as int) =~= Seq::empty());
        assert(insert_entry(before, entry) =~= insert_entry(before.take(at as int), entry)
            + before.skip(at as int));
        while at > 0 && !text::not_greater(r[at - 1].name.as_str(), entries[i].name.as_str())
            invariant
                at <= r@.len(),
                i < entries@.len(),
                entry == entries@[i as int].deep_view(),
                before == r.deep_view(),
                insert_entry(before, entry) == insert_entry(before.take(at as int), entry)
                    + before.skip(at as int),
            decreases at,
        {
            let ghost part = before.take(at as int);
            assert(part.last() == r@[at - 1].deep_view());
            assert(part.drop_last() =~= before.take(at - 1));
            assert(insert_entry(part, entry) =~= insert_entry(before.take(at - 1), entry).push(
                before[at - 1],
            ));
            assert(insert_entry(before, entry) =~= insert_entry(before.take(at - 1), entry)
                + before.skip(at - 1));
            at = at - 1;
        }
        proof {
            let part = before.take(at as int);
            if at > 0 {
                assert(part.last() == r@[at - 1].deep_view());
            }
            assert(insert_entry(part, entry) == part.push(entry));
            assert(insert_entry(before, entry) =~= before.insert(at as int, entry));
        }
        r.insert(at, entries[i].clone());
        assert(r.deep_view() =~= before.insert(at as int, entry));
        i = i + 1;
    }
    assert(all.take(i as int) =~= all);
    r
}

/// A file in a directory that is given by its names.
pub open spec fn file_at(absolute: bool, names: Seq<Seq<char>>, file_name: Seq<char>) -> Seq<char> {
    (if absolute {
        "/"@
    } else {
        Seq::empty()
    }) + text::joined(names.push(file_name), "/"@)
}

/// Whether a path names the current directory first.
pub open spec fn begins_here(path: Seq<char>) -> bool {
    path.len() > 0 && path[0] == '.' && (path.len() == 1 || path[1] == '/')
}

/// The steps of a path: its names, behind a dot where the path begins with one.
pub open spec fn path_steps(path: Seq<char>) -> Seq<Seq<char>> {
    if begins_here(path) {
        seq!["."@] + path_names(path)
    } else {
        path_names(path)
    }
}

/// Where a file is looked for: in a directory, and then in each one above it.
pub open spec fn places_upwards(start: Seq<char>, file_name: Seq<char>) -> Seq<Seq<char>> {
    let names = path_steps(start);
    Seq::new(
        names.len() + 1,
        |i: int| file_at(is_absolute(start), names.take(names.len() - i), file_name),
    )
}

/// Where a file is looked for: in a directory, and then in each one above it.
pub fn candidates_upwards(start: &str, file_name: &str) -> (r: Vec<String>)
    ensures
        r.deep_view() == places_upwards(start@, file_name@),
{
    let absolute = path_is_absolute(start);
    let mut names = split_path(start);
    let ghost all = path_steps(start@);
    let chars = text::chars_of(start);
    if chars.len() > 0 && chars[0] == '.' && (chars.len() == 1 || chars[1] == '/') {
        let ghost before = names.deep_view();
        names.insert(0, ".".to_owned());
        assert(names.deep_view() =~= seq!["."@] + before);
    }
    let ghost wanted = places_upwards(start@, file_name@);
    let count = names.len();
    assert(count == names.deep_view().len());
    let mut r: Vec<String> = Vec::new();
    let mut done: usize = 0;
    assert(names.deep_view() =~= all.take(all.len() as int));
    assert(r.deep_view() =~= wanted.take(0));
    loop
        invariant_except_break
            done <= count,
            count == all.len(),
            all == path_steps(start@),
            wanted == places_upwards(start@, file_name@),
            absolute == is_absolute(start@),
            names.deep_view() == all.take(all.len() - done),
            r.deep_view() == wanted.take(done as int),
        ensures
            r.deep_view() == wanted,
        decreases count - done,
    {
        let ghost here = names.deep_view();
        names.push(file_name.to_owned());
        assert(names.deep_view() =~= here.push(file_name@));
        let place = text::join(&names, "/");
        names.pop();
        assert(names.deep_view() =~= here);
        let mut candidate = String::new();
        if absolute {
            candidate.append("/");
        }
        candidate.append(place.as_str());
        assert(candidate@ =~= file_at(absolute, here, file_name@));
        let ghost before = r.deep_view();
        r.push(candidate);
        assert(r.deep_view() =~= before.push(wanted[done as int]));
        assert(r.deep_view() =~= wanted.take(done + 1));
        if done == count {
            assert(wanted.take(done + 1) =~= wanted);
            break;
        }
        names.pop();
        assert(names.deep_view() =~= all.take(all.len() - done - 1));
        done = done + 1;
    }
    r
}

} // verus!
