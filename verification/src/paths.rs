//! File names, well-known directories and what is on disk.

use vstd::prelude::*;
use vstd::string::StringExecFns;
use crate::text::{
    after_last, blank, chars_of, is_blank, law_cut_last, lemma_position, opt_str, opt_text,
    position, text_between, texts,
};

verus! {

/// Whether something exists at `path`: [`std::path::Path::exists`]. The answer
/// rests on the disk, so nothing is claimed of it.
#[verifier::external_body]
fn path_exists(path: &str) -> (res: bool) {
    std::path::Path::new(path).exists()
}

/// Calls a question about a path.
fn ask_path<F: Fn(&str) -> bool>(question: F, path: &str) -> (res: bool)
    requires
        call_requires(question, (path,)),
    ensures
        call_ensures(question, (path,), res),
{
    question(path)
}

/// `there` is an answer that the disk gives when asked whether something exists
/// at `path`. Two answers may differ.
pub closed spec fn seen(path: Seq<char>, there: bool) -> bool {
    exists|p: &str| p@ == path && #[trigger] call_ensures(path_exists, (p,), there)
}

/// Asks the disk whether something exists at `path`.
pub(crate) fn look(path: &str) -> (res: bool)
    ensures
        seen(path@, res),
{
    ask_path(path_exists, path)
}

/// `present` are answers that the disk gives when asked of each path.
pub open spec fn all_seen(paths: Seq<Seq<char>>, present: Seq<bool>) -> bool {
    &&& present.len() == paths.len()
    &&& forall|i: int| 0 <= i < paths.len() ==> seen(paths[i], #[trigger] present[i])
}

/// Asks of each path whether something exists there.
pub fn which_exist(paths: &Vec<String>) -> (res: Vec<bool>)
    ensures
        all_seen(texts(paths@), res@),
{
    let mut res: Vec<bool> = Vec::new();
    let mut i: usize = 0;
    while i < paths.len()
        invariant
            i <= paths@.len(),
            res@.len() == i,
            forall|k: int| 0 <= k < i ==> seen(paths@[k]@, #[trigger] res@[k]),
        decreases paths@.len() - i,
    {
        res.push(look(paths[i].as_str()));
        i += 1;
    }
    res
}

/// The path reads the same on every system: it has no backslash, does not begin
/// with two slashes and names no drive, so only `/` separates its parts. A drive
/// is a letter with a colon behind it, at the head of a path.
pub open spec fn portable(path: Seq<char>) -> bool {
    &&& forall|i: int| 0 <= i < path.len() ==> #[trigger] path[i] != '\\'
    &&& !(path.len() >= 2 && path[1] == ':')
    &&& !(path.len() >= 2 && path[0] == '/' && path[1] == '/')
}

/// The last part never is longer than the whole.
proof fn lemma_after_last(s: Seq<char>, c: char)
    ensures
        after_last(s, c).len() <= s.len(),
    decreases s.len(),
{
    lemma_position(s, c);
    if position(s, c) < s.len() {
        lemma_after_last(s.skip(position(s, c) + 1), c);
    }
}

/// The last part of a path, where empty parts and single dots do not count;
/// none where that part is a double dot or there is no part.
pub open spec fn last_name(path: Seq<char>) -> Option<Seq<char>>
    decreases path.len(),
    via last_name_decreases
{
    let part = after_last(path, '/');
    if part.len() == 0 || part == "."@ {
        if part.len() == path.len() {
            None
        } else {
            last_name(path.take(path.len() - part.len() - 1))
        }
    } else if part == ".."@ {
        None
    } else {
        Some(part)
    }
}

#[via_fn]
proof fn last_name_decreases(path: Seq<char>) {
    lemma_after_last(path, '/');
}

/// Where the extension of a file name begins: at its last dot. A dot that
/// begins the name begins no extension.
pub open spec fn extension_at(name: Seq<char>) -> Option<int> {
    let at = name.len() - after_last(name, '.').len() - 1;
    if at <= 0 {
        None
    } else {
        Some(at)
    }
}

/// The file name of a path without its extension.
pub open spec fn stem_of(path: Seq<char>) -> Option<Seq<char>> {
    match last_name(path) {
        Some(name) => match extension_at(name) {
            Some(at) => Some(name.take(at)),
            None => Some(name),
        },
        None => None,
    }
}

/// The extension of the file name of a path.
pub open spec fn extension_of(path: Seq<char>) -> Option<Seq<char>> {
    match last_name(path) {
        Some(name) => match extension_at(name) {
            Some(at) => Some(name.skip(at + 1)),
            None => None,
        },
        None => None,
    }
}

/// The file name without its extension: [`std::path::Path::file_stem`]. Which
/// characters separate the parts of a path rests on the system, so the result
/// is claimed for portable paths only.
#[verifier::external_body]
fn file_stem(path: &str) -> (res: Option<String>)
    ensures
        portable(path@) ==> opt_text(res) == stem_of(path@),
{
    std::path::Path::new(path).file_stem().map(|s| s.to_string_lossy().into_owned())
}

/// The extension of the file name: [`std::path::Path::extension`]. Which
/// characters separate the parts of a path rests on the system, so the result
/// is claimed for portable paths only.
#[verifier::external_body]
fn file_extension(path: &str) -> (res: Option<String>)
    ensures
        portable(path@) ==> opt_text(res) == extension_of(path@),
{
    std::path::Path::new(path).extension().map(|s| s.to_string_lossy().into_owned())
}

/// Calls a question about a part of a path.
fn ask_part<F: Fn(&str) -> Option<String>>(question: F, path: &str) -> (res: Option<String>)
    requires
        call_requires(question, (path,)),
    ensures
        call_ensures(question, (path,), res),
{
    question(path)
}

/// `stem` is what the system takes for the file name of `path` without its
/// extension.
pub closed spec fn has_stem(path: Seq<char>, stem: Option<Seq<char>>) -> bool {
    exists|p: &str, r: Option<String>|
        p@ == path && opt_text(r) == stem && #[trigger] call_ensures(file_stem, (p,), r)
}

/// Reads the file name of a path without its extension.
pub(crate) fn find_stem(path: &str) -> (res: Option<String>)
    ensures
        has_stem(path@, opt_text(res)),
        portable(path@) ==> opt_text(res) == stem_of(path@),
{
    ask_part(file_stem, path)
}

/// `extension` is what the system takes for the extension of `path`.
pub closed spec fn has_extension(path: Seq<char>, extension: Option<Seq<char>>) -> bool {
    exists|p: &str, r: Option<String>|
        p@ == path && opt_text(r) == extension && #[trigger] call_ensures(
            file_extension,
            (p,),
            r,
        )
}

/// Reads the extension of a path.
pub(crate) fn find_extension(path: &str) -> (res: Option<String>)
    ensures
        has_extension(path@, opt_text(res)),
        portable(path@) ==> opt_text(res) == extension_of(path@),
{
    ask_part(file_extension, path)
}

/// The file name of a path: [`std::path::Path::file_name`]. Which characters
/// separate the parts of a path rests on the system, so the result is claimed for
/// portable paths only.
#[verifier::external_body]
fn file_name(path: &str) -> (res: Option<String>)
    ensures
        portable(path@) ==> opt_text(res) == last_name(path@),
{
    std::path::Path::new(path).file_name().map(|s| s.to_string_lossy().into_owned())
}

/// `name` is what the system takes for the file name of `path`.
pub closed spec fn has_name(path: Seq<char>, name: Option<Seq<char>>) -> bool {
    exists|p: &str, r: Option<String>|
        p@ == path && opt_text(r) == name && #[trigger] call_ensures(file_name, (p,), r)
}

/// Reads the file name of a path.
pub(crate) fn find_name(path: &str) -> (res: Option<String>)
    ensures
        has_name(path@, opt_text(res)),
        portable(path@) ==> opt_text(res) == last_name(path@),
{
    ask_part(file_name, path)
}

/// A path without the empty parts and single dots at its end. The root and a
/// single dot that is the whole path stay.
pub open spec fn tidy(path: Seq<char>) -> Seq<char>
    decreases path.len(),
    via tidy_decreases
{
    let part = after_last(path, '/');
    let at = path.len() - part.len() - 1;
    if at < 0 || (part.len() > 0 && part != "."@) {
        path
    } else if at == 0 {
        "/"@
    } else {
        tidy(path.take(at))
    }
}

#[via_fn]
proof fn tidy_decreases(path: Seq<char>) {
    lemma_after_last(path, '/');
}

/// A path without its last part: nothing where there is only one, and the root
/// directly under it. The root and the empty path have none.
pub open spec fn parent_path(path: Seq<char>) -> Option<Seq<char>> {
    let whole = tidy(path);
    let at = whole.len() - after_last(whole, '/').len() - 1;
    if whole.len() == 0 || whole == "/"@ {
        None
    } else if at < 0 {
        Some(Seq::empty())
    } else if at == 0 {
        Some("/"@)
    } else {
        Some(tidy(whole.take(at)))
    }
}

/// The path without its last part: [`std::path::Path::parent`]. Which characters
/// separate the parts of a path rests on the system, so the result is claimed for
/// portable paths only.
#[verifier::external_body]
fn parent_dir(path: &str) -> (res: Option<String>)
    ensures
        portable(path@) ==> opt_text(res) == parent_path(path@),
{
    std::path::Path::new(path).parent().map(|p| p.to_string_lossy().into_owned())
}

/// `dir` is what the system takes for the parent of `path`.
pub closed spec fn has_parent(path: Seq<char>, dir: Option<Seq<char>>) -> bool {
    exists|p: &str, r: Option<String>|
        p@ == path && opt_text(r) == dir && #[trigger] call_ensures(parent_dir, (p,), r)
}

/// Reads the parent of a path.
pub(crate) fn find_parent(path: &str) -> (res: Option<String>)
    ensures
        has_parent(path@, opt_text(res)),
        portable(path@) ==> opt_text(res) == parent_path(path@),
{
    ask_part(parent_dir, path)
}

/// The file name that the system finds in a path. A path that reads the same on
/// every system has the same one everywhere.
pub open spec fn may_be_name(name: Option<Seq<char>>, path: Seq<char>) -> bool {
    has_name(path, name) && (portable(path) ==> name == last_name(path))
}

/// The parent that the system finds of a path. A path that reads the same on
/// every system has the same one everywhere.
pub open spec fn may_be_parent(dir: Option<Seq<char>>, path: Seq<char>) -> bool {
    has_parent(path, dir) && (portable(path) ==> dir == parent_path(path))
}

/// The user's home directory: [`dirs::home_dir`]. It rests on the machine, so
/// nothing is claimed of it.
#[verifier::external_body]
fn home_dir() -> (res: Option<String>) {
    dirs::home_dir().map(|p| p.to_string_lossy().into_owned())
}

/// The directory of data that stays on the machine: [`dirs::data_local_dir`].
/// It rests on the machine, so nothing is claimed of it.
#[verifier::external_body]
fn data_local_dir() -> (res: Option<String>) {
    dirs::data_local_dir().map(|p| p.to_string_lossy().into_owned())
}

/// The directory of application data: [`dirs::data_dir`]. It rests on the
/// machine, so nothing is claimed of it.
#[verifier::external_body]
fn data_dir() -> (res: Option<String>) {
    dirs::data_dir().map(|p| p.to_string_lossy().into_owned())
}

/// Calls a question about a directory.
fn ask_dir<F: Fn() -> Option<String>>(question: F) -> (res: Option<String>)
    requires
        call_requires(question, ()),
    ensures
        call_ensures(question, (), res),
{
    question()
}

/// `dir` is what the machine gives as the home directory.
pub closed spec fn is_home(dir: Option<Seq<char>>) -> bool {
    exists|r: Option<String>| opt_text(r) == dir && #[trigger] call_ensures(home_dir, (), r)
}

/// Asks the machine for the home directory.
pub(crate) fn find_home() -> (res: Option<String>)
    ensures
        is_home(opt_text(res)),
{
    ask_dir(home_dir)
}

/// `dir` is what the machine gives as the local data directory.
pub closed spec fn is_local_data(dir: Option<Seq<char>>) -> bool {
    exists|r: Option<String>| opt_text(r) == dir && #[trigger] call_ensures(data_local_dir, (), r)
}

/// Asks the machine for the local data directory.
pub(crate) fn find_local_data() -> (res: Option<String>)
    ensures
        is_local_data(opt_text(res)),
{
    ask_dir(data_local_dir)
}

/// `dir` is what the machine gives as the data directory.
pub closed spec fn is_data(dir: Option<Seq<char>>) -> bool {
    exists|r: Option<String>| opt_text(r) == dir && #[trigger] call_ensures(data_dir, (), r)
}

/// Asks the machine for the data directory.
pub(crate) fn find_data() -> (res: Option<String>)
    ensures
        is_data(opt_text(res)),
{
    ask_dir(data_dir)
}

/// A setting that counts only where it is not blank.
pub open spec fn set_value(setting: Option<Seq<char>>) -> Option<Seq<char>> {
    match setting {
        Some(v) => if is_blank(v) {
            None
        } else {
            Some(v)
        },
        None => None,
    }
}

/// Reads a setting that counts only where it is not blank.
pub fn setting_of(setting: Option<&str>) -> (res: Option<String>)
    ensures
        opt_text(res) == set_value(opt_str(setting)),
{
    match setting {
        Some(v) => if blank(v) {
            None
        } else {
            Some(v.to_owned())
        },
        None => None,
    }
}

/// The character separates the parts of a path: a slash or, on Windows, also a
/// backslash.
pub open spec fn is_separator(c: char, windows: bool) -> bool {
    c == '/' || (windows && c == '\\')
}

/// The path names a drive: on Windows, it begins with a letter and a colon.
pub open spec fn has_drive(path: Seq<char>, windows: bool) -> bool {
    windows && path.len() >= 2 && path[1] == ':' && ('a' <= path[0] <= 'z' || 'A' <= path[0]
        <= 'Z')
}

/// A directory with what separates it from a part under it. Nothing does where
/// there is no directory, where it ends with a separator or where it is a drive.
pub open spec fn opened(dir: Seq<char>, windows: bool) -> Seq<char> {
    if dir.len() == 0 || is_separator(dir.last(), windows) || (dir.len() == 2 && has_drive(
        dir,
        windows,
    )) {
        dir
    } else if windows {
        dir + "\\"@
    } else {
        dir + "/"@
    }
}

/// A path under a directory. One with a drive of its own stands alone, and one
/// that begins at the root keeps the directory's drive and nothing else of it.
pub open spec fn under(dir: Seq<char>, rest: Seq<char>, windows: bool) -> Seq<char> {
    if has_drive(rest, windows) {
        rest
    } else if rest.len() > 0 && is_separator(rest[0], windows) {
        if has_drive(dir, windows) {
            dir.take(2) + rest
        } else {
            rest
        }
    } else {
        opened(dir, windows) + rest
    }
}

/// Whether a path names a drive.
fn names_drive(v: &Vec<char>, windows: bool) -> (res: bool)
    ensures
        res == has_drive(v@, windows),
{
    windows && v.len() >= 2 && v[1] == ':' && (('a' <= v[0] && v[0] <= 'z') || ('A' <= v[0] && v[0]
        <= 'Z'))
}

/// Whether a character separates the parts of a path.
fn separates(c: char, windows: bool) -> (res: bool)
    ensures
        res == is_separator(c, windows),
{
    c == '/' || (windows && c == '\\')
}

/// Writes a path under a directory. Network shares and paths that Windows takes
/// verbatim are treated as directories without a drive.
pub fn join_path(dir: &str, rest: &str, windows: bool) -> (res: String)
    ensures
        res@ == under(dir@, rest@, windows),
{
    let v = chars_of(dir);
    let w = chars_of(rest);
    if names_drive(&w, windows) {
        return rest.to_owned();
    }
    if w.len() > 0 && separates(w[0], windows) {
        if names_drive(&v, windows) {
            let mut s = text_between(&v, 0, 2);
            assert(s@ =~= dir@.take(2));
            s.append(rest);
            return s;
        }
        return rest.to_owned();
    }
    let mut s = dir.to_owned();
    if v.len() > 0 && !separates(v[v.len() - 1], windows) && !(v.len() == 2 && names_drive(
        &v,
        windows,
    )) {
        if windows {
            s.append("\\");
        } else {
            s.append("/");
        }
    }
    s.append(rest);
    s
}

/// The user's home directory, else the one for temporary files.
pub open spec fn home_or(home: Option<Seq<char>>, temp: Seq<char>) -> Seq<char> {
    match home {
        Some(h) => h,
        None => temp,
    }
}

/// The place that a setting names, else one under the user's home directory.
pub open spec fn place_of(
    setting: Option<Seq<char>>,
    home: Option<Seq<char>>,
    temp: Seq<char>,
    rest: Seq<char>,
    windows: bool,
) -> Seq<char> {
    match set_value(setting) {
        Some(v) => v,
        None => under(home_or(home, temp), rest, windows),
    }
}

/// Chooses between the place that a setting names and one under `home`.
pub fn choose_place(
    setting: Option<&str>,
    home: Option<String>,
    temp: &str,
    rest: &str,
    windows: bool,
) -> (res: String)
    ensures
        res@ == place_of(opt_str(setting), opt_text(home), temp@, rest@, windows),
{
    match setting_of(setting) {
        Some(v) => v,
        None => match home {
            Some(h) => join_path(h.as_str(), rest, windows),
            None => join_path(temp, rest, windows),
        },
    }
}

/// The first of the directories that is known, else the one for temporary
/// files.
pub open spec fn known_dir(first: Option<Seq<char>>, second: Option<Seq<char>>, temp: Seq<char>) -> Seq<
    char,
> {
    match first {
        Some(d) => d,
        None => match second {
            Some(d) => d,
            None => temp,
        },
    }
}

/// Chooses the first directory that is known.
pub fn choose_dir(first: Option<String>, second: Option<String>, temp: &str) -> (res: String)
    ensures
        res@ == known_dir(opt_text(first), opt_text(second), temp@),
{
    match first {
        Some(d) => d,
        None => match second {
            Some(d) => d,
            None => temp.to_owned(),
        },
    }
}

/// The directory that the app's own files are kept under: the one for local
/// data, else the one for data, else `temp`.
pub fn assets_root(temp: &str) -> (res: String)
    ensures
        exists|local: Option<Seq<char>>, data: Option<Seq<char>>|
            is_local_data(local) && is_data(data) && res@ == #[trigger] known_dir(
                local,
                data,
                temp@,
            ),
{
    let local = find_local_data();
    let data = find_data();
    choose_dir(local, data, temp)
}

/// A setting counts exactly where it is there and not blank.
pub proof fn law_set_value(v: Seq<char>)
    ensures
        set_value(None) is None,
        is_blank(v) ==> set_value(Some(v)) is None,
        !is_blank(v) ==> set_value(Some(v)) == Some(v),
{
}

/// A name under a directory stands behind it with a separator between, and
/// without one where the directory ends with it already or is empty. A path that
/// begins at the root stands alone.
pub proof fn law_under(dir: Seq<char>, rest: Seq<char>)
    ensures
        rest.len() > 0 && rest[0] == '/' ==> under(dir, rest, false) == rest,
        rest.len() == 0 || rest[0] != '/' ==> under(dir, rest, false) == if dir.len() == 0 || dir.last()
            == '/' {
            dir + rest
        } else {
            dir + seq!['/'] + rest
        },
{
    reveal_strlit("/");
    assert("/"@ =~= seq!['/']);
}

/// On Windows a backslash separates as well and is what is put between; a path
/// with a drive stands alone, and one that begins at the root stays on the drive.
pub proof fn law_under_windows(dir: Seq<char>, rest: Seq<char>)
    ensures
        ({
            let letter = |c: char| 'a' <= c <= 'z' || 'A' <= c <= 'Z';
            let drive = |p: Seq<char>| p.len() >= 2 && p[1] == ':' && letter(p[0]);
            let rooted = rest.len() > 0 && (rest[0] == '/' || rest[0] == '\\');
            let closed = dir.len() == 0 || dir.last() == '/' || dir.last() == '\\' || (drive(dir)
                && dir.len() == 2);
            &&& drive(rest) ==> under(dir, rest, true) == rest
            &&& !drive(rest) && rooted && drive(dir) ==> under(dir, rest, true) == dir.take(2) + rest
            &&& !drive(rest) && rooted && !drive(dir) ==> under(dir, rest, true) == rest
            &&& !drive(rest) && !rooted && closed ==> under(dir, rest, true) == dir + rest
            &&& !drive(rest) && !rooted && !closed ==> under(dir, rest, true) == dir + seq!['\\'] + rest
        }),
{
    reveal_strlit("\\");
    assert("\\"@ =~= seq!['\\']);
}

/// Without a home the temporary directory takes its place; a setting names the
/// place itself; and of the known directories the first that there is counts.
pub proof fn law_places(
    value: Seq<char>,
    home: Option<Seq<char>>,
    dir: Seq<char>,
    other: Option<Seq<char>>,
    temp: Seq<char>,
    rest: Seq<char>,
    windows: bool,
)
    ensures
        home_or(None, temp) == temp && home_or(Some(dir), temp) == dir,
        !is_blank(value) ==> place_of(Some(value), home, temp, rest, windows) == value,
        is_blank(value) ==> place_of(Some(value), home, temp, rest, windows) == place_of(
            None,
            home,
            temp,
            rest,
            windows,
        ),
        place_of(None, Some(dir), temp, rest, windows) == under(dir, rest, windows),
        place_of(None, None, temp, rest, windows) == under(temp, rest, windows),
        known_dir(Some(dir), other, temp) == dir,
        known_dir(None, Some(dir), temp) == dir,
        known_dir(None, None, temp) == temp,
{
}

/// The name of a file is what follows the last slash of its path.
pub proof fn law_last_name(dir: Seq<char>, name: Seq<char>)
    requires
        name.len() > 0,
        name != "."@,
        name != ".."@,
        forall|k: int| 0 <= k < name.len() ==> #[trigger] name[k] != '/',
    ensures
        last_name(dir + seq!['/'] + name) == Some(name),
        last_name(name) == Some(name),
        last_name(dir + seq!['/'] + name + seq!['/']) == Some(name),
{
    let path = dir + seq!['/'] + name;
    law_cut_last(dir, '/', name);
    lemma_no_cut(name, '/');
    let closed = path + seq!['/'];
    let none = Seq::<char>::empty();
    law_cut_last(path, '/', none);
    assert(closed + none =~= closed);
    assert(closed.take(closed.len() - 0 - 1) =~= path);
}

/// A text without the character is what follows its last one.
proof fn lemma_no_cut(s: Seq<char>, c: char)
    requires
        forall|k: int| 0 <= k < s.len() ==> #[trigger] s[k] != c,
    ensures
        after_last(s, c) == s,
{
    let none = Seq::<char>::empty();
    law_cut_last(none, c, s);
}

/// A file's extension is what follows the last point of its name, and its stem is
/// what precedes it; a name that only begins with a point has none.
pub proof fn law_stem(dir: Seq<char>, stem: Seq<char>, extension: Seq<char>)
    requires
        stem.len() > 0,
        forall|k: int| 0 <= k < stem.len() ==> #[trigger] stem[k] != '/',
        forall|k: int| 0 <= k < extension.len() ==> #[trigger] extension[k] != '/' && extension[k] != '.',
        stem.len() > 1 || stem[0] != '.' || extension.len() > 0,
    ensures
        stem_of(dir + seq!['/'] + (stem + seq!['.'] + extension)) == Some(stem),
        extension_of(dir + seq!['/'] + (stem + seq!['.'] + extension)) == Some(extension),
{
    reveal_strlit(".");
    reveal_strlit("..");
    let name = stem + seq!['.'] + extension;
    assert(name[0] == stem[0]);
    assert(name[stem.len() as int] == '.');
    if name == ".."@ {
        assert(name.len() == 2);
        assert(extension.len() == 0 && stem[0] == '.');
    }
    assert forall|k: int| 0 <= k < name.len() implies #[trigger] name[k] != '/' by {
        if k < stem.len() {
            assert(name[k] == stem[k]);
        } else if k > stem.len() {
            assert(name[k] == extension[k - stem.len() - 1]);
        }
    }
    law_last_name(dir, name);
    law_cut_last(stem, '.', extension);
    assert(name.take(stem.len() as int) =~= stem);
    assert(name.skip(stem.len() as int + 1) =~= extension);
}

/// A name without a point, or with one at its front alone, is all stem.
pub proof fn law_no_extension(dir: Seq<char>, name: Seq<char>)
    requires
        name.len() > 0,
        name != "."@,
        name != ".."@,
        forall|k: int| 0 <= k < name.len() ==> #[trigger] name[k] != '/',
        forall|k: int| 0 < k < name.len() ==> #[trigger] name[k] != '.',
    ensures
        stem_of(dir + seq!['/'] + name) == Some(name),
        extension_of(dir + seq!['/'] + name) is None,
{
    law_last_name(dir, name);
    if name[0] == '.' {
        let rest = name.skip(1);
        assert(name =~= Seq::<char>::empty() + seq!['.'] + rest);
        law_cut_last(Seq::<char>::empty(), '.', rest);
    } else {
        lemma_no_cut(name, '.');
    }
}

/// The directory of a file is what precedes the last slash of its path, the root
/// for a file in it, and nothing for a bare name.
pub proof fn law_parent(dir: Seq<char>, part: Seq<char>, name: Seq<char>)
    requires
        name.len() > 0,
        name != "."@,
        forall|k: int| 0 <= k < name.len() ==> #[trigger] name[k] != '/',
        part.len() > 0,
        part != "."@,
        forall|k: int| 0 <= k < part.len() ==> #[trigger] part[k] != '/',
    ensures
        parent_path(dir + seq!['/'] + part + seq!['/'] + name) == Some(dir + seq!['/'] + part),
        parent_path(part + seq!['/'] + name) == Some(part),
        parent_path(seq!['/'] + name) == Some(seq!['/']),
        parent_path(name) == Some(Seq::<char>::empty()),
        parent_path(Seq::empty()) is None,
{
    reveal_strlit("/");
    assert("/"@ =~= seq!['/']);
    let none = Seq::<char>::empty();
    let home = dir + seq!['/'] + part;
    law_cut_last(home, '/', name);
    law_cut_last(dir, '/', part);
    let whole = home + seq!['/'] + name;
    assert(whole.take(home.len() as int) =~= home);
    assert(tidy(whole) == whole);
    assert(tidy(home) == home);
    law_cut_last(part, '/', name);
    let short = part + seq!['/'] + name;
    assert(short.take(part.len() as int) =~= part);
    lemma_no_cut(part, '/');
    lemma_no_cut(name, '/');
    law_cut_last(none, '/', name);
    assert(none + seq!['/'] + name =~= seq!['/'] + name);
    assert((seq!['/'] + name).len() > 1);
    assert(name != "/"@) by {
        assert(name[0] != '/');
    }
    assert(whole.len() > 1 && short.len() > 1);
}

/// A path without backslashes, drive and double slash at its front means the same
/// everywhere.
pub proof fn law_portable(path: Seq<char>)
    ensures
        portable(path) <==> (forall|i: int| 0 <= i < path.len() ==> #[trigger] path[i] != '\\') && !(
        path.len() >= 2 && (path[1] == ':' || (path[0] == '/' && path[1] == '/'))),
{
}

/// Looking at several paths is looking at each; what a path may be read as is what
/// the platform says and, on a portable path, what stands in it.
pub proof fn law_looked(
    paths: Seq<Seq<char>>,
    present: Seq<bool>,
    i: int,
    part: Option<Seq<char>>,
    path: Seq<char>,
)
    requires
        all_seen(paths, present),
        0 <= i < paths.len(),
    ensures
        present.len() == paths.len(),
        seen(paths[i], present[i]),
        may_be_name(part, path) <==> has_name(path, part) && (portable(path) ==> part == last_name(path)),
        may_be_parent(part, path) <==> has_parent(path, part) && (portable(path) ==> part == parent_path(
            path,
        )),
{
    assert(seen(paths[i], present[i]));
}

/// A slash, or a slash and a point, at the end of a path do not count; a path that
/// ends with a name is tidy.
pub proof fn law_tidy(path: Seq<char>, dir: Seq<char>, name: Seq<char>)
    requires
        path.len() > 0,
        name.len() > 0,
        name != "."@,
        forall|k: int| 0 <= k < name.len() ==> #[trigger] name[k] != '/',
    ensures
        tidy(path + seq!['/']) == tidy(path),
        tidy(path + seq!['/', '.']) == tidy(path),
        tidy(dir + seq!['/'] + name) == dir + seq!['/'] + name,
        tidy(name) == name,
        tidy(seq!['/']) == seq!['/'],
        parent_path(path + seq!['/']) == parent_path(path),
{
    reveal_strlit("/");
    reveal_strlit(".");
    let none = Seq::<char>::empty();
    let point = seq!['.'];
    assert("/"@ =~= seq!['/']);
    assert("."@ =~= point);
    law_cut_last(path, '/', none);
    assert(path + seq!['/'] + none =~= path + seq!['/']);
    assert((path + seq!['/']).take(path.len() as int) =~= path);
    law_cut_last(path, '/', point);
    assert(path + seq!['/'] + point =~= path + seq!['/', '.']);
    assert((path + seq!['/', '.']).take(path.len() as int) =~= path);
    law_cut_last(dir, '/', name);
    lemma_no_cut(name, '/');
    law_cut_last(none, '/', none);
    assert(none + seq!['/'] + none =~= seq!['/']);
}

/// What was asked of the platform is what it answered about just that.
proof fn law_questions(path: Seq<char>, there: bool, part: Option<Seq<char>>)
    ensures
        seen(path, there) <==> exists|p: &str|
            p@ == path && #[trigger] call_ensures(path_exists, (p,), there),
        has_stem(path, part) <==> exists|p: &str, r: Option<String>|
            p@ == path && opt_text(r) == part && #[trigger] call_ensures(file_stem, (p,), r),
        has_extension(path, part) <==> exists|p: &str, r: Option<String>|
            p@ == path && opt_text(r) == part && #[trigger] call_ensures(file_extension, (p,), r),
        has_name(path, part) <==> exists|p: &str, r: Option<String>|
            p@ == path && opt_text(r) == part && #[trigger] call_ensures(file_name, (p,), r),
        has_parent(path, part) <==> exists|p: &str, r: Option<String>|
            p@ == path && opt_text(r) == part && #[trigger] call_ensures(parent_dir, (p,), r),
        is_home(part) <==> exists|r: Option<String>|
            opt_text(r) == part && #[trigger] call_ensures(home_dir, (), r),
        is_local_data(part) <==> exists|r: Option<String>|
            opt_text(r) == part && #[trigger] call_ensures(data_local_dir, (), r),
        is_data(part) <==> exists|r: Option<String>|
            opt_text(r) == part && #[trigger] call_ensures(data_dir, (), r),
{
}

} // verus!
