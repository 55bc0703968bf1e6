//! File paths.
//!
//! What a path means depends on the platform: one with backslashes or a drive letter is read
//! differently from one platform to another. Paths are therefore read as the platform reads them.
//! A portable path is read alike everywhere: repeated slashes and `.` components count for
//! nothing, except that a relative path may start with `.`.
use std::path::Path;

use vstd::prelude::*;

use crate::text::{
    chars_of, lemma_next_char, next_char, occurs_at, split_from, split_on,
};

verus! {

/// A component of a path.
#[verifier::ext_equal]
pub enum ComponentView {
    Prefix(Seq<char>),
    RootDir,
    CurDir,
    ParentDir,
    Normal(Seq<char>),
}

/// A component of a path.
pub enum Component {
    /// A drive or a network share.
    Prefix(String),
    RootDir,
    CurDir,
    ParentDir,
    Normal(String),
}

impl View for Component {
    type V = ComponentView;

    open spec fn view(&self) -> ComponentView {
        match self {
            Component::Prefix(s) => ComponentView::Prefix(s@),
            Component::RootDir => ComponentView::RootDir,
            Component::CurDir => ComponentView::CurDir,
            Component::ParentDir => ComponentView::ParentDir,
            Component::Normal(s) => ComponentView::Normal(s@),
        }
    }
}

pub open spec fn component_views(v: Seq<Component>) -> Seq<ComponentView> {
    v.map_values(|c: Component| c@)
}

pub open spec fn is_absolute_path(path: Seq<char>) -> bool {
    path.len() > 0 && path[0] == '/'
}

/// What a piece between slashes stands for. A `.` counts only as the first piece of a relative
/// path.
pub open spec fn piece_component(piece: Seq<char>, first: bool) -> Option<ComponentView> {
    if piece.len() == 0 {
        None
    } else if piece == seq!['.'] {
        if first {
            Some(ComponentView::CurDir)
        } else {
            None
        }
    } else if piece == seq!['.', '.'] {
        Some(ComponentView::ParentDir)
    } else {
        Some(ComponentView::Normal(piece))
    }
}

/// The components of a list of pieces.
pub open spec fn pieces_components(pieces: Seq<Seq<char>>) -> Seq<ComponentView>
    decreases pieces.len(),
{
    if pieces.len() == 0 {
        Seq::empty()
    } else {
        let front = pieces_components(pieces.drop_last());
        match piece_component(pieces.last(), pieces.len() == 1) {
            Some(c) => front.push(c),
            None => front,
        }
    }
}

/// The components of a path.
pub open spec fn path_components(path: Seq<char>) -> Seq<ComponentView> {
    (if is_absolute_path(path) {
        seq![ComponentView::RootDir]
    } else {
        Seq::empty()
    }) + pieces_components(split_on(path, '/'))
}

/// The last component, where it is a name.
pub open spec fn path_file_name(path: Seq<char>) -> Option<Seq<char>> {
    let parts = path_components(path);
    if parts.len() > 0 {
        match parts.last() {
            ComponentView::Normal(name) => Some(name),
            _ => None,
        }
    } else {
        None
    }
}

/// The place of the last dot of a name, if there is one.
pub open spec fn last_dot(name: Seq<char>) -> Option<int>
    decreases name.len(),
{
    if name.len() == 0 {
        None
    } else if name.last() == '.' {
        Some(name.len() - 1)
    } else {
        last_dot(name.drop_last())
    }
}

/// What stands behind the last dot of the file name. A name without a dot, or with one only at
/// its start, has no extension.
pub open spec fn path_extension(path: Seq<char>) -> Option<Seq<char>> {
    match path_file_name(path) {
        Some(name) => match last_dot(name) {
            Some(i) => if i > 0 {
                Some(name.skip(i + 1))
            } else {
                None
            },
            None => None,
        },
        None => None,
    }
}

/// A path with these components lies in a directory.
pub open spec fn has_parent(parts: Seq<ComponentView>) -> bool {
    parts.len() > 0 && !(parts.last() is RootDir) && !(parts.last() is Prefix)
}

/// The character that a platform writes between components. A slash separates everywhere.
pub open spec fn is_separator(c: char) -> bool {
    c == '/' || c == '\\'
}

/// `path` with one more component behind it.
pub open spec fn joined_path(path: Seq<char>, name: Seq<char>, separator: char) -> Seq<char> {
    if path.len() == 0 || path.last() == '/' || path.last() == separator {
        path + name
    } else {
        path + seq![separator] + name
    }
}

/// `path` with a slash for each separator.
pub open spec fn slashed(path: Seq<char>, separator: char) -> Seq<char> {
    path.map_values(
        |c: char|
            if c == separator {
                '/'
            } else {
                c
            },
    )
}

/// A path that is read alike on every platform: without backslashes and drive letters, and
/// without the two slashes that can start the name of a network share.
pub open spec fn is_portable(path: Seq<char>) -> bool {
    &&& !path.contains('\\')
    &&& !path.contains(':')
    &&& !(path.len() > 1 && path[0] == '/' && path[1] == '/')
}

/// None of the components is a drive or a network share.
pub open spec fn without_prefix(parts: Seq<ComponentView>) -> bool {
    forall|k: int| 0 <= k < parts.len() ==> !((#[trigger] parts[k]) is Prefix)
}

/// Every name among the components can stand as one.
pub open spec fn names_are_plain(parts: Seq<ComponentView>, separator: char) -> bool {
    forall|k: int|
        0 <= k < parts.len() ==> (#[trigger] parts[k] matches ComponentView::Normal(n)
            ==> is_plain_name(n) && !n.contains(separator))
}

/// `Path::components`: the components of a path as the platform reads it, and the
/// `MAIN_SEPARATOR` that the platform writes between components. A portable path has the
/// components that stand between its slashes. Where there is no drive and no network share, a
/// slash and the separator of the platform separate, so that the names among the components are
/// plain.
///
/// What comes of other paths depends on the platform, and nothing more is said of it.
#[verifier::external_body]
fn native_components(path: &str) -> (r: (Vec<Component>, char))
    ensures
        is_portable(path@) ==> component_views(r.0@) == path_components(path@),
        is_separator(r.1),
        without_prefix(component_views(r.0@)) ==> names_are_plain(component_views(r.0@), r.1),
{
    let convert = |c: std::path::Component| match c {
        std::path::Component::Prefix(p) => {
            Component::Prefix(p.as_os_str().to_string_lossy().into_owned())
        }
        std::path::Component::RootDir => Component::RootDir,
        std::path::Component::CurDir => Component::CurDir,
        std::path::Component::ParentDir => Component::ParentDir,
        std::path::Component::Normal(n) => Component::Normal(n.to_string_lossy().into_owned()),
    };
    (Path::new(path).components().map(convert).collect(), std::path::MAIN_SEPARATOR)
}

/// `Path::is_absolute`: a portable path is absolute at most when it starts at the root. Whether it
/// is then, and what holds of other paths, depends on the platform.
#[verifier::external_body]
fn native_is_absolute(path: &str) -> (r: bool)
    ensures
        is_portable(path@) && r ==> is_absolute_path(path@),
{
    Path::new(path).is_absolute()
}

/// A path as the platform reads it.
#[verifier::ext_equal]
pub struct NativePathView {
    pub absolute: bool,
    pub separator: char,
    pub parts: Seq<ComponentView>,
}

/// A path as the platform reads it.
pub struct NativePath {
    pub absolute: bool,
    /// What the platform writes between components.
    pub separator: char,
    pub parts: Vec<Component>,
}

impl View for NativePath {
    type V = NativePathView;

    open spec fn view(&self) -> NativePathView {
        NativePathView {
            absolute: self.absolute,
            separator: self.separator,
            parts: component_views(self.parts@),
        }
    }
}

/// The path can be read so: exactly as its slashes say where it is portable, and in any case with
/// plain names where it has no drive and no network share.
pub open spec fn reads_as(path: Seq<char>, native: NativePathView) -> bool {
    &&& is_portable(path) ==> native.parts == path_components(path)
    &&& is_portable(path) && native.absolute ==> is_absolute_path(path)
    &&& is_separator(native.separator)
    &&& without_prefix(native.parts) ==> names_are_plain(native.parts, native.separator)
}

/// Reads a path as the platform does.
pub fn read_path(path: &str) -> (r: NativePath)
    ensures
        reads_as(path@, r@),
{
    let (parts, separator) = native_components(path);
    NativePath { absolute: native_is_absolute(path), separator, parts }
}

/// Tests whether a path with these components lies in a directory.
pub fn has_directory(parts: &Vec<Component>) -> (r: bool)
    ensures
        r == has_parent(component_views(parts@)),
{
    let n: usize = parts.len();
    if n == 0 {
        return false;
    }
    assert(component_views(parts@).last() == parts@[n - 1]@);
    match &parts[n - 1] {
        Component::RootDir | Component::Prefix(_) => false,
        _ => true,
    }
}

/// A text stands somewhere in a path.
pub open spec fn is_part_of(part: Seq<char>, path: Seq<char>) -> bool {
    exists|i: int| occurs_at(path, part, i)
}

/// The path can have this file name: the one that its slashes say where it is portable, and in any
/// case a part of the path.
pub open spec fn has_file_name(path: Seq<char>, name: Option<Seq<char>>) -> bool {
    &&& is_portable(path) ==> name == path_file_name(path)
    &&& name matches Some(n) ==> n.len() > 0 && is_part_of(n, path)
}

/// The path can have this extension: the one that its slashes and dots say where it is portable,
/// and in any case a part of the path.
pub open spec fn has_extension(path: Seq<char>, ext: Option<Seq<char>>) -> bool {
    &&& is_portable(path) ==> ext == path_extension(path)
    &&& ext matches Some(e) ==> is_part_of(e, path)
}

/// The view of an optional string.
pub open spec fn opt_view(s: Option<String>) -> Option<Seq<char>> {
    match s {
        Some(t) => Some(t@),
        None => None,
    }
}

/// `Path::file_name`: the last component of a path, where it is a name. What it is in a path that
/// is not portable depends on the platform, and nothing more is said of it.
#[verifier::external_body]
fn native_file_name(path: &str) -> (r: Option<String>)
    ensures
        has_file_name(path@, opt_view(r)),
{
    Path::new(path).file_name().map(|n| n.to_string_lossy().into_owned())
}

/// `Path::extension`: what stands behind the last dot of the file name, unless the name has no dot
/// or only one at its start. What it is in a path that is not portable depends on the platform, and
/// nothing more is said of it.
#[verifier::external_body]
fn native_extension(path: &str) -> (r: Option<String>)
    ensures
        has_extension(path@, opt_view(r)),
{
    Path::new(path).extension().map(|e| e.to_string_lossy().into_owned())
}

/// The file name of a path, if it ends in one.
pub fn file_name(path: &str) -> (r: Option<String>)
    ensures
        has_file_name(path@, opt_view(r)),
{
    native_file_name(path)
}

/// What stands behind the last dot of the file name.
pub fn extension(path: &str) -> (r: Option<String>)
    ensures
        has_extension(path@, opt_view(r)),
{
    native_extension(path)
}

/// Appends a name to a path.
pub fn join_path(path: &str, name: &str, separator: char) -> (r: String)
    ensures
        r@ == joined_path(path@, name@, separator),
{
    let v = chars_of(path);
    let mut r = path.to_owned();
    if v.len() > 0 && v[v.len() - 1] != '/' && v[v.len() - 1] != separator {
        r.push(separator);
        assert(r@ =~= path@ + seq![separator]);
    }
    r.append(name);
    r
}

// ---------------------------------------------------------------------------
// Joining adds one component
// ---------------------------------------------------------------------------

/// A name that can stand as one component.
pub open spec fn is_plain_name(name: Seq<char>) -> bool {
    name.len() > 0 && !name.contains('/') && name != seq!['.'] && name != seq!['.', '.']
}

proof fn lemma_next_char_append(s: Seq<char>, t: Seq<char>, from: int)
    requires
        0 <= from <= s.len(),
    ensures
        next_char(s, '/', from) < s.len() ==> next_char(s + t, '/', from) == next_char(
            s,
            '/',
            from,
        ),
        next_char(s, '/', from) == s.len() && from <= s.len() ==> next_char(s + t, '/', from)
            == s.len() + next_char(t, '/', 0),
    decreases s.len() - from,
{
    let u = s + t;
    if from < s.len() {
        assert(u[from] == s[from]);
        if s[from] != '/' {
            lemma_next_char_append(s, t, from + 1);
        }
    } else {
        lemma_next_char_shift(s, t, 0);
    }
}

proof fn lemma_next_char_shift(s: Seq<char>, t: Seq<char>, from: int)
    requires
        0 <= from <= t.len(),
    ensures
        next_char(s + t, '/', s.len() + from) == s.len() + next_char(t, '/', from),
    decreases t.len() - from,
{
    if from < t.len() {
        assert((s + t)[s.len() + from] == t[from]);
        if t[from] != '/' {
            lemma_next_char_shift(s, t, from + 1);
        }
    }
}

/// Behind a final slash the pieces of the rest follow.
proof fn lemma_split_append(s: Seq<char>, name: Seq<char>, from: int)
    requires
        0 <= from <= s.len(),
        !name.contains('/'),
    ensures
        split_from(s + seq!['/'] + name, '/', from) == split_from(s, '/', from).push(name),
    decreases s.len() - from,
{
    let tail = seq!['/'] + name;
    let u = s + seq!['/'] + name;
    assert(u =~= s + tail);
    lemma_next_char(s, '/', from);
    lemma_next_char_append(s, tail, from);
    let i = next_char(s, '/', from);
    if i < s.len() && from < s.len() {
        lemma_split_append(s, name, i + 1);
        assert(u.subrange(from, i) =~= s.subrange(from, i));
        assert(split_from(u, '/', from) =~= split_from(s, '/', from).push(name));
    } else {
        assert(tail[0] == '/');
        assert(next_char(tail, '/', 0) == 0);
        assert(next_char(u, '/', from) == s.len());
        let k = s.len() as int;
        assert(u.subrange(from, k) =~= s.skip(from));
        assert(split_from(s, '/', from) =~= seq![s.skip(from)]);
        lemma_next_char(u, '/', k + 1);
        assert(u.skip(k + 1) =~= name);
        assert(next_char(u, '/', k + 1) == u.len()) by {
            let j = next_char(u, '/', k + 1);
            if j < u.len() {
                assert(u[j] == '/');
                assert(name[j - k - 1] == '/');
                assert(name.contains('/'));
            }
        }
        assert(split_from(u, '/', k + 1) =~= seq![name]);
        assert(split_from(u, '/', from) =~= seq![s.skip(from)] + seq![name]);
        assert(split_from(u, '/', from) =~= split_from(s, '/', from).push(name));
    }
}

proof fn lemma_split_nonempty(s: Seq<char>, from: int)
    requires
        0 <= from <= s.len(),
    ensures
        split_from(s, '/', from).len() > 0,
{
}

proof fn lemma_no_slash_split(name: Seq<char>)
    requires
        !name.contains('/'),
    ensures
        split_on(name, '/') == seq![name],
{
    lemma_next_char(name, '/', 0);
    let i = next_char(name, '/', 0);
    if i < name.len() {
        assert(name.contains('/'));
    }
    assert(name.skip(0) =~= name);
}

/// Joining a plain name adds exactly that name as the last component, whatever the platform writes
/// between components.
pub proof fn law_join_adds_one_component(path: Seq<char>, name: Seq<char>, separator: char)
    requires
        is_plain_name(name),
        !name.contains(separator),
    ensures
        path_components(slashed(joined_path(path, name, separator), separator)) == path_components(
            slashed(path, separator),
        ).push(ComponentView::Normal(name)),
{
    let s = slashed(path, separator);
    assert(slashed(name, separator) =~= name);
    if path.len() > 0 {
        assert(s.last() == '/' <==> (path.last() == '/' || path.last() == separator));
    }
    assert(slashed(joined_path(path, name, separator), separator) =~= joined_path(s, name, '/'));
    lemma_slash_adds_one_component(s, name);
}

proof fn lemma_slash_adds_one_component(path: Seq<char>, name: Seq<char>)
    requires
        is_plain_name(name),
    ensures
        path_components(joined_path(path, name, '/')) == path_components(path).push(
            ComponentView::Normal(name),
        ),
{
    let c = ComponentView::Normal(name);
    let j = joined_path(path, name, '/');
    if path.len() == 0 {
        assert(j =~= name);
        assert(name[0] != '/') by {
            if name[0] == '/' {
                assert(name.contains('/'));
            }
        }
        lemma_no_slash_split(name);
        lemma_no_slash_split(path);
        let one = seq![name];
        reveal_with_fuel(pieces_components, 2);
        assert(one.drop_last() =~= Seq::<Seq<char>>::empty());
        assert(seq![path].drop_last() =~= Seq::<Seq<char>>::empty());
        assert(pieces_components(split_on(path, '/')) =~= Seq::<ComponentView>::empty());
        assert(path_components(path) =~= Seq::<ComponentView>::empty());
        assert(path_components(j) =~= seq![c]);
        assert(Seq::<ComponentView>::empty().push(c) =~= seq![c]);
    } else {
        assert(j[0] == path[0]);
        let root = if is_absolute_path(path) {
            seq![ComponentView::RootDir]
        } else {
            Seq::empty()
        };
        if path.last() == '/' {
            let s = path.drop_last();
            assert(path =~= s + seq!['/'] + Seq::<char>::empty());
            assert(j =~= s + seq!['/'] + name);
            lemma_split_append(s, Seq::empty(), 0);
            lemma_split_append(s, name, 0);
            lemma_split_nonempty(s, 0);
            let p = split_on(s, '/');
            assert(split_on(path, '/') == p.push(Seq::empty()));
            assert(split_on(j, '/') == p.push(name));
            assert(p.push(Seq::empty()).drop_last() =~= p);
            assert(p.push(name).drop_last() =~= p);
            assert(pieces_components(split_on(path, '/')) == pieces_components(p));
            assert(pieces_components(split_on(j, '/')) == pieces_components(p).push(c));
            assert(root + pieces_components(p).push(c) =~= (root + pieces_components(p)).push(c));
        } else {
            lemma_split_append(path, name, 0);
            lemma_split_nonempty(path, 0);
            let p = split_on(path, '/');
            assert(p.push(name).drop_last() =~= p);
            assert(pieces_components(split_on(j, '/')) == pieces_components(p).push(c));
            assert(root + pieces_components(p).push(c) =~= (root + pieces_components(p)).push(c));
        }
    }
}

proof fn lemma_pieces_hold_no_slash(s: Seq<char>, from: int, k: int)
    requires
        0 <= from <= s.len(),
        0 <= k < split_from(s, '/', from).len(),
    ensures
        !split_from(s, '/', from)[k].contains('/'),
    decreases s.len() - from,
{
    lemma_next_char(s, '/', from);
    let i = next_char(s, '/', from);
    let pieces = split_from(s, '/', from);
    if from < s.len() && i < s.len() {
        if k == 0 {
            assert(pieces[0] =~= s.subrange(from, i));
        } else {
            assert(pieces[k] == split_from(s, '/', i + 1)[k - 1]);
            lemma_pieces_hold_no_slash(s, i + 1, k - 1);
        }
    } else {
        assert(pieces[k] =~= s.skip(from));
    }
}

proof fn lemma_pieces_plain(pieces: Seq<Seq<char>>, k: int)
    requires
        forall|i: int| 0 <= i < pieces.len() ==> !(#[trigger] pieces[i]).contains('/'),
        0 <= k < pieces_components(pieces).len(),
    ensures
        pieces_components(pieces)[k] matches ComponentView::Normal(n) ==> is_plain_name(n),
        !(pieces_components(pieces)[k] is RootDir),
        !(pieces_components(pieces)[k] is Prefix),
    decreases pieces.len(),
{
    if pieces.len() > 0 {
        let front = pieces_components(pieces.drop_last());
        assert forall|i: int| 0 <= i < pieces.drop_last().len() implies !(
        #[trigger] pieces.drop_last()[i]).contains('/') by {
            assert(pieces.drop_last()[i] == pieces[i]);
        }
        if k < front.len() {
            lemma_pieces_plain(pieces.drop_last(), k);
        } else {
            assert(!pieces.last().contains('/'));
        }
    }
}

/// The names among the components of a slash-separated path are plain names. Only an absolute path
/// has the root among its components, and none has a drive.
pub proof fn law_component_names_are_plain(path: Seq<char>, k: int)
    requires
        0 <= k < path_components(path).len(),
    ensures
        path_components(path)[k] matches ComponentView::Normal(n) ==> is_plain_name(n),
        path_components(path)[k] is RootDir ==> is_absolute_path(path),
        !(path_components(path)[k] is Prefix),
{
    let pieces = split_on(path, '/');
    assert forall|i: int| 0 <= i < pieces.len() implies !(#[trigger] pieces[i]).contains('/') by {
        lemma_pieces_hold_no_slash(path, 0, i);
    }
    let off: int = if is_absolute_path(path) {
        1
    } else {
        0
    };
    if k >= off {
        lemma_pieces_plain(pieces, k - off);
        assert(path_components(path)[k] == pieces_components(pieces)[k - off]);
    }
}

/// The name of a file in a directory is that name.
pub proof fn law_files_are_called_by_their_name(dir: Seq<char>, name: Seq<char>)
    requires
        dir.len() > 0,
        is_plain_name(name),
    ensures
        path_file_name(joined_path(dir, name, '/')) == Some(name),
{
    law_join_adds_one_component(dir, name, '/');
    let path = joined_path(dir, name, '/');
    assert(slashed(path, '/') =~= path);
}

proof fn lemma_last_dot(stem: Seq<char>, ext: Seq<char>)
    requires
        !ext.contains('.'),
    ensures
        last_dot(stem.push('.') + ext) == Some(stem.len() as int),
        last_dot(ext) is None,
    decreases ext.len(),
{
    let all = stem.push('.') + ext;
    if ext.len() == 0 {
        assert(all =~= stem.push('.'));
    } else {
        assert(ext.contains(ext.last()));
        assert(all.last() == ext.last());
        assert(all.drop_last() =~= stem.push('.') + ext.drop_last());
        assert forall|i: int| 0 <= i < ext.drop_last().len() implies ext.drop_last()[i] != '.' by {
            assert(ext.contains(ext[i]));
        }
        lemma_last_dot(stem, ext.drop_last());
    }
}

/// The extension of a file is what stands behind the last dot of its name. A dot at the start of
/// the name begins no extension, and a name without a dot has none.
pub proof fn law_extensions_stand_behind_the_last_dot(
    path: Seq<char>,
    stem: Seq<char>,
    ext: Seq<char>,
)
    requires
        !ext.contains('.'),
    ensures
        path_file_name(path) == Some(stem.push('.') + ext) && stem.len() > 0 ==> path_extension(
            path,
        ) == Some(ext),
        path_file_name(path) == Some(stem.push('.') + ext) && stem.len() == 0 ==> path_extension(
            path,
        ) is None,
        path_file_name(path) == Some(ext) ==> path_extension(path) is None,
        path_file_name(path) is None ==> path_extension(path) is None,
{
    lemma_last_dot(stem, ext);
    let name = stem.push('.') + ext;
    assert(name.skip(1 + stem.len() as int) =~= ext);
}

} // verus!
