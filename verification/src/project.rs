//! The project directory that a launch is given.

use vstd::prelude::*;
use vstd::string::*;
use crate::text::{occurs, occurs_at};

verus! {

/// Takes the path of a project directory in, given whether there is a directory of that path.
pub fn parse_project_dir(value: &str, is_dir: bool) -> (path: Result<String, String>)
    ensures
        match path {
            Ok(path) => is_dir && path@ == value@,
            Err(message) => !is_dir && message@ == "Project path '"@ + value@
                + "' is not a directory."@,
        },
{
    if !is_dir {
        let mut message = String::new();
        message.append("Project path '");
        message.append(value);
        message.append("' is not a directory.");
        return Err(message);
    }
    Ok(value.to_owned())
}

/// Parts the components of a path: a slash, on Windows also a backslash.
pub open spec fn separates(c: char, windows: bool) -> bool {
    c == '/' || (windows && c == '\\')
}

/// What stands behind the last separator.
pub open spec fn last_segment(path: Seq<char>, windows: bool) -> Seq<char>
    decreases path.len(),
{
    if path.len() == 0 || separates(path.last(), windows) {
        Seq::empty()
    } else {
        last_segment(path.drop_last(), windows).push(path.last())
    }
}

/// The final component of a path that has no prefix: its last segment, where trailing separators and
/// `.` segments do not count. There is none where that is `..`, or where nothing is left.
pub open spec fn final_component(path: Seq<char>, windows: bool) -> Option<Seq<char>>
    decreases path.len(),
{
    if path.len() == 0 {
        None
    } else if separates(path.last(), windows) || last_segment(path, windows) == seq!['.'] {
        final_component(path.drop_last(), windows)
    } else if last_segment(path, windows) == seq!['.', '.'] {
        None
    } else {
        Some(last_segment(path, windows))
    }
}

/// A path that begins with a letter and a colon, on Windows a drive.
pub open spec fn has_drive(path: Seq<char>) -> bool {
    &&& path.len() >= 2
    &&& ('a' <= path[0] <= 'z' || 'A' <= path[0] <= 'Z')
    &&& path[1] == ':'
}

/// A path that begins with two separators, on Windows a share or a device.
pub open spec fn has_double_root(path: Seq<char>) -> bool {
    path.len() >= 2 && separates(path[0], true) && separates(path[1], true)
}

/// The final component as Unix reads the path.
pub open spec fn unix_component(path: Seq<char>) -> Option<Seq<char>> {
    final_component(path, false)
}

/// The final component as Windows reads a path that does not begin with two separators.
pub open spec fn windows_component(path: Seq<char>) -> Option<Seq<char>> {
    if has_drive(path) {
        final_component(path.skip(2), true)
    } else {
        final_component(path, true)
    }
}

/// A path that has the same components on Unix and Windows: it has no backslash and begins neither
/// with a letter and a colon nor with two slashes.
pub open spec fn plain_path(path: Seq<char>) -> bool {
    !path.contains('\\') && !has_drive(path) && !has_double_root(path)
}

/// The name under which a project is shown, given the final component of its path.
pub open spec fn shown_as(component: Option<Seq<char>>, path: Seq<char>) -> Seq<char> {
    match component {
        Some(name) => name,
        None => path,
    }
}

/// The characters of a string that may be missing.
pub open spec fn optional_text(text: Option<String>) -> Option<Seq<char>> {
    match text {
        Some(s) => Some(s@),
        None => None,
    }
}

/// Calls `std::path::Path::file_name`: the final component of the path, as Unix or as Windows reads
/// it, depending on the platform. What comes of a path that begins with two separators, which on
/// Windows may be a prefix of several forms, is left open, but for that it is a part of the path.
#[verifier::external_body]
fn path_file_name(path: &str) -> (name: Option<String>)
    ensures
        !has_double_root(path@) ==> optional_text(name) == unix_component(path@) || optional_text(
            name,
        ) == windows_component(path@),
        name matches Some(name) ==> name@.len() > 0 && occurs(path@, name@),
{
    match std::path::Path::new(path).file_name() {
        Some(name) => name.to_str().map(str::to_owned),
        None => None,
    }
}

/// The name under which a project is shown, given the final component of its path: that component or,
/// where there is none, the whole path.
pub fn display_name(file_name: Option<String>, project: &str) -> (name: String)
    ensures
        name@ == shown_as(optional_text(file_name), project@),
{
    match file_name {
        Some(component) => component,
        None => project.to_owned(),
    }
}

/// The name under which a project is shown: the final component of its path or, where there is none,
/// the whole path. A path that is not plain is read as the platform reads it.
pub fn project_display_name(project: &str) -> (name: String)
    ensures
        plain_path(project@) ==> name@ == shown_as(unix_component(project@), project@),
        !has_double_root(project@) ==> name@ == shown_as(unix_component(project@), project@)
            || name@ == shown_as(windows_component(project@), project@),
        occurs(project@, name@),
        project@.len() > 0 ==> name@.len() > 0,
{
    proof {
        assert(project@.subrange(0, project@.len() as int) =~= project@);
        assert(occurs_at(project@, project@, 0));
        if plain_path(project@) {
            plain_path_reads_alike(project@);
        }
    }
    display_name(path_file_name(project), project)
}

/// A path that lacks a character does not end in it, and lacks it without its end too.
proof fn lemma_drop_last_lacks(path: Seq<char>, c: char)
    requires
        path.len() > 0,
        !path.contains(c),
    ensures
        path.last() != c,
        !path.drop_last().contains(c),
{
    assert(path.contains(path.last()));
    if path.drop_last().contains(c) {
        let i = choose|i: int| 0 <= i < path.drop_last().len() && path.drop_last()[i] == c;
        assert(path[i] == c);
    }
}

/// Without a backslash the last segment is the same on Unix and Windows.
proof fn lemma_segments_agree(path: Seq<char>)
    requires
        !path.contains('\\'),
    ensures
        last_segment(path, false) == last_segment(path, true),
    decreases path.len(),
{
    if path.len() > 0 {
        lemma_drop_last_lacks(path, '\\');
        lemma_segments_agree(path.drop_last());
    }
}

/// Without a backslash the final component is the same on Unix and Windows.
proof fn lemma_components_agree(path: Seq<char>)
    requires
        !path.contains('\\'),
    ensures
        final_component(path, false) == final_component(path, true),
    decreases path.len(),
{
    if path.len() > 0 {
        lemma_segments_agree(path);
        lemma_drop_last_lacks(path, '\\');
        lemma_components_agree(path.drop_last());
    }
}

/// Unix and Windows agree on the final component of a plain path.
pub proof fn plain_path_reads_alike(path: Seq<char>)
    requires
        plain_path(path),
    ensures
        unix_component(path) == windows_component(path),
{
    lemma_components_agree(path);
}

/// A name without a separator is the last segment of a path that ends in it.
proof fn lemma_last_segment(dir: Seq<char>, name: Seq<char>, windows: bool)
    requires
        !name.contains('/'),
        windows ==> !name.contains('\\'),
    ensures
        last_segment(dir.push('/') + name, windows) == name,
    decreases name.len(),
{
    let path = dir.push('/') + name;
    if name.len() == 0 {
        assert(path =~= dir.push('/'));
        assert(name =~= Seq::<char>::empty());
    } else {
        assert(path.last() == name.last());
        assert(path.drop_last() =~= dir.push('/') + name.drop_last());
        lemma_drop_last_lacks(name, '/');
        if windows {
            lemma_drop_last_lacks(name, '\\');
        }
        lemma_last_segment(dir, name.drop_last(), windows);
        assert(name.drop_last().push(name.last()) =~= name);
    }
}

/// The final component of a path is the name of the directory that it leads to, with or without a
/// slash behind it.
pub proof fn directory_name_is_final(dir: Seq<char>, name: Seq<char>, windows: bool)
    requires
        name.len() > 0,
        !name.contains('/'),
        windows ==> !name.contains('\\'),
        name != seq!['.'],
        name != seq!['.', '.'],
    ensures
        final_component(dir.push('/') + name, windows) == Some(name),
        final_component((dir.push('/') + name).push('/'), windows) == Some(name),
{
    let path = dir.push('/') + name;
    lemma_last_segment(dir, name, windows);
    assert(path.last() == name.last());
    lemma_drop_last_lacks(name, '/');
    if windows {
        lemma_drop_last_lacks(name, '\\');
    }
    assert(path.push('/').drop_last() =~= path);
}

/// A name without a separator is its own final component.
pub proof fn bare_name_is_final(name: Seq<char>, windows: bool)
    requires
        name.len() > 0,
        !name.contains('/'),
        windows ==> !name.contains('\\'),
        name != seq!['.'],
        name != seq!['.', '.'],
    ensures
        final_component(name, windows) == Some(name),
{
    lemma_bare_segment(name, windows);
    lemma_drop_last_lacks(name, '/');
    if windows {
        lemma_drop_last_lacks(name, '\\');
    }
}

/// A name without a separator is its own last segment.
proof fn lemma_bare_segment(name: Seq<char>, windows: bool)
    requires
        !name.contains('/'),
        windows ==> !name.contains('\\'),
    ensures
        last_segment(name, windows) == name,
    decreases name.len(),
{
    if name.len() > 0 {
        lemma_drop_last_lacks(name, '/');
        if windows {
            lemma_drop_last_lacks(name, '\\');
        }
        lemma_bare_segment(name.drop_last(), windows);
        assert(name.drop_last().push(name.last()) =~= name);
    } else {
        assert(name =~= Seq::<char>::empty());
    }
}

/// Separators and `.` segments at the end of a path do not matter.
pub proof fn trailing_dots_and_slashes_do_not_matter(path: Seq<char>, windows: bool)
    ensures
        final_component(path.push('/'), windows) == final_component(path, windows),
        windows ==> final_component(path.push('\\'), windows) == final_component(path, windows),
        final_component(path.push('/').push('.'), windows) == final_component(path, windows),
{
    let slashed = path.push('/');
    let dotted = slashed.push('.');
    assert(slashed.drop_last() =~= path);
    assert(path.push('\\').drop_last() =~= path);
    assert(dotted.drop_last() =~= slashed);
    assert(last_segment(slashed, windows) =~= Seq::<char>::empty());
    assert(last_segment(dotted, windows) =~= seq!['.']);
}

/// A path that ends in `..`, and one that has nothing but separators, has no final component, so the
/// project is shown by the whole path.
pub proof fn parent_and_root_have_no_name(path: Seq<char>, windows: bool)
    ensures
        final_component(Seq::empty(), windows) is None,
        final_component(seq!['/'], windows) is None,
        final_component(seq!['.'], windows) is None,
        final_component(seq!['.', '.'], windows) is None,
        final_component(path.push('/').push('.').push('.'), windows) is None,
        shown_as(final_component(path.push('/').push('.').push('.'), windows), path) == path,
{
    let slashed = path.push('/');
    let dotted = slashed.push('.');
    let parent = dotted.push('.');
    assert(dotted.drop_last() =~= slashed);
    assert(parent.drop_last() =~= dotted);
    assert(last_segment(slashed, windows) =~= Seq::<char>::empty());
    assert(last_segment(dotted, windows) =~= seq!['.']);
    assert(last_segment(parent, windows) =~= seq!['.', '.']);
    let empty = Seq::<char>::empty();
    assert(seq!['/'].drop_last() =~= empty);
    assert(final_component(seq!['/'].drop_last(), windows) is None);
    assert(seq!['.'].drop_last() =~= empty);
    assert(last_segment(seq!['.'].drop_last(), windows) =~= empty);
    assert(last_segment(seq!['.'], windows) =~= seq!['.']);
    assert(final_component(seq!['.'].drop_last(), windows) is None);
    assert(seq!['.', '.'].drop_last() =~= seq!['.']);
    assert(last_segment(seq!['.', '.'], windows) =~= seq!['.', '.']);
}

/// A project is shown by the final component where there is one and by its path otherwise.
pub proof fn project_is_shown_by_component(component: Seq<char>, path: Seq<char>)
    ensures
        shown_as(Some(component), path) == component,
        shown_as(None, path) == path,
{
}

/// The paths on which platforms may differ are those with a backslash, with a letter and a colon in
/// front or with two separators in front.
pub proof fn plain_paths_are_the_rest(path: Seq<char>)
    requires
        !path.contains('\\'),
        !(path.len() >= 2 && path[1] == ':' && ('a' <= path[0] <= 'z' || 'A' <= path[0] <= 'Z')),
        !(path.len() >= 2 && path[0] == '/' && path[1] == '/'),
    ensures
        plain_path(path),
        !has_double_root(path),
        unix_component(path) == final_component(path, false),
        windows_component(path) == final_component(path, false),
{
    if path.len() >= 2 {
        assert(path.contains(path[0]));
        assert(path.contains(path[1]));
    }
    plain_path_reads_alike(path);
}

/// The project in a directory is shown by its own name, with or without a slash behind it, on every
/// platform.
pub proof fn project_is_shown_by_directory_name(dir: Seq<char>, name: Seq<char>)
    requires
        name.len() > 0,
        !name.contains('/'),
        name != seq!['.'],
        name != seq!['.', '.'],
        plain_path(dir.push('/') + name),
    ensures
        shown_as(unix_component(dir.push('/') + name), dir.push('/') + name) == name,
        shown_as(windows_component(dir.push('/') + name), dir.push('/') + name) == name,
{
    directory_name_is_final(dir, name, false);
    plain_path_reads_alike(dir.push('/') + name);
}

} // verus!
