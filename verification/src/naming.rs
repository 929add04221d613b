//! The names and folders of what the app writes, and which files it takes.

use vstd::prelude::*;
use vstd::string::StringExecFns;
use crate::models::Project;
use crate::number::{int_string, int_text, lemma_nat_text, nat_text, padded_string, zero_padded};
use crate::paths::{
    extension_of, find_extension, find_name, find_parent, find_stem, has_drive, has_extension,
    has_stem, is_separator, join_path, last_name, may_be_name, may_be_parent, opened, parent_path,
    portable, stem_of, tidy, under,
};
use crate::sidecar::result_texts;
use crate::text::{
    after_last, ascii_lower, chars_of, contains, is_ascii_alphanumeric, is_ascii_word,
    lemma_after_last_at, lemma_position, lemma_strip_end_take, lemma_strip_start_len,
    lemma_strip_start_skip, opt_str, opt_text, same, starts_with, strip_both_of, strip_end,
    strip_start, text_between, text_of, trim, trimmed, CharClass,
};

verus! {

/// The character may stand in a folder name.
pub open spec fn is_slug_char(c: char) -> bool {
    is_ascii_word(c) || c == '-' || c == '_'
}

/// `s` with each character that may not stand in a folder name replaced by a
/// hyphen.
pub open spec fn dashed(s: Seq<char>) -> Seq<char> {
    s.map_values(|c: char| if is_slug_char(c) {
        c
    } else {
        '-'
    })
}

/// The folder name made of a file's stem: without hyphens at its ends, and the
/// project's id where nothing is left.
pub open spec fn slug(stem: Option<Seq<char>>, id: Seq<char>) -> Seq<char> {
    let base = match stem {
        Some(s) => s,
        None => id,
    };
    let s = strip_end(CharClass::Dash, strip_start(CharClass::Dash, dashed(base)));
    if s.len() == 0 {
        id
    } else {
        s
    }
}

/// Makes a folder name of a file's stem.
pub fn slug_from(stem: Option<&str>, id: &str) -> (res: String)
    ensures
        res@ == slug(opt_str(stem), id@),
{
    let base = match stem {
        Some(s) => s,
        None => id,
    };
    let v = chars_of(base);
    let mut w: Vec<char> = Vec::new();
    let mut i: usize = 0;
    while i < v.len()
        invariant
            i <= v@.len(),
            w@ == dashed(v@).take(i as int),
        decreases v@.len() - i,
    {
        let c = v[i];
        if is_ascii_alphanumeric(c) || c == '-' || c == '_' {
            w.push(c);
        } else {
            w.push('-');
        }
        assert(w@ =~= dashed(v@).take(i + 1));
        i += 1;
    }
    assert(w@ =~= dashed(v@));
    let name = text_of(&w);
    let res = strip_both_of(CharClass::Dash, name.as_str());
    if res.as_str().is_empty() {
        id.to_owned()
    } else {
        res
    }
}

/// The stem that the system finds in a path. A path that reads the same on every
/// system has the same one everywhere.
pub open spec fn may_be_stem(stem: Option<Seq<char>>, path: Seq<char>) -> bool {
    has_stem(path, stem) && (portable(path) ==> stem == stem_of(path))
}

/// The folder name for a project's output, made of the name of its source.
pub fn project_output_slug(project: &Project) -> (res: String)
    ensures
        exists|stem: Option<Seq<char>>|
            may_be_stem(stem, project.source_path@) && res@ == #[trigger] slug(stem, project.id@),
{
    let stem = find_stem(project.source_path.as_str());
    let res = match &stem {
        Some(s) => slug_from(Some(s.as_str()), project.id.as_str()),
        None => slug_from(None, project.id.as_str()),
    };
    assert(res@ == slug(opt_text(stem), project.id@));
    res
}

/// A folder name is made of letters, digits, hyphens and underscores and neither
/// begins nor ends with a hyphen; or it is the project's id.
pub proof fn law_slug(stem: Option<Seq<char>>, id: Seq<char>)
    ensures
        ({
            let s = slug(stem, id);
            s == id || {
                &&& s.len() > 0
                &&& s[0] != '-'
                &&& s.last() != '-'
                &&& forall|i: int| 0 <= i < s.len() ==> is_slug_char(#[trigger] s[i])
            }
        }),
{
    let base = match stem {
        Some(s) => s,
        None => id,
    };
    let d = dashed(base);
    let n = lemma_strip_start_skip(CharClass::Dash, d);
    lemma_strip_start_len(CharClass::Dash, d);
    let rest = strip_start(CharClass::Dash, d);
    let k = lemma_strip_end_take(CharClass::Dash, rest);
    let s = strip_end(CharClass::Dash, rest);
    if s.len() > 0 {
        assert(s[0] == rest[0]);
        assert forall|i: int| 0 <= i < s.len() implies is_slug_char(#[trigger] s[i]) by {
            assert(s[i] == d[n + i]);
        }
    }
}

/// `s` with the letters `A` to `Z` in lower case.
pub open spec fn ascii_lowered(s: Seq<char>) -> Seq<char> {
    s.map_values(|c: char| ascii_lower(c))
}

/// Puts the letters `A` to `Z` in lower case.
fn lower_ascii(s: &str) -> (res: String)
    ensures
        res@ == ascii_lowered(s@),
{
    let v = chars_of(s);
    let mut w: Vec<char> = Vec::new();
    let mut i: usize = 0;
    while i < v.len()
        invariant
            i <= v@.len(),
            w@ == ascii_lowered(v@).take(i as int),
        decreases v@.len() - i,
    {
        let c = v[i];
        if 'A' <= c && c <= 'Z' {
            w.push(((c as u8) + 32) as char);
        } else {
            w.push(c);
        }
        assert(w@ =~= ascii_lowered(v@).take(i + 1));
        i += 1;
    }
    assert(w@ =~= ascii_lowered(v@));
    text_of(&w)
}

/// The extension is that of a media file.
pub open spec fn is_media(extension: Seq<char>) -> bool {
    let e = ascii_lowered(extension);
    e == "mp4"@ || e == "mov"@ || e == "mp3"@ || e == "wav"@ || e == "m4a"@
}

/// Whether a file with this extension is taken, or the message of the refusal.
pub open spec fn extension_verdict(extension: Option<Seq<char>>) -> Result<(), Seq<char>> {
    match extension {
        Some(e) => if is_media(e) {
            Ok(())
        } else {
            Err(
                "Unsupported file type ."@ + ascii_lowered(e)
                    + ". Use mp4, mov, mp3, wav, or m4a."@,
            )
        },
        None => Err("Selected file does not have an extension"@),
    }
}

/// The text of a verdict.
pub open spec fn verdict_text(r: Result<(), String>) -> Result<(), Seq<char>> {
    match r {
        Ok(u) => Ok(u),
        Err(e) => Err(e@),
    }
}

/// Decides whether a file with this extension is taken.
pub fn check_extension(extension: Option<&str>) -> (res: Result<(), String>)
    ensures
        verdict_text(res) == extension_verdict(opt_str(extension)),
{
    match extension {
        Some(e) => {
            let small = lower_ascii(e);
            if same(small.as_str(), "mp4") || same(small.as_str(), "mov") || same(
                small.as_str(),
                "mp3",
            ) || same(small.as_str(), "wav") || same(small.as_str(), "m4a") {
                return Ok(());
            }
            let mut message = "Unsupported file type .".to_owned();
            message.append(small.as_str());
            message.append(". Use mp4, mov, mp3, wav, or m4a.");
            Err(message)
        },
        None => Err("Selected file does not have an extension".to_owned()),
    }
}

/// The extension that the system finds in a path. A path that reads the same on
/// every system has the same one everywhere.
pub open spec fn may_be_extension(extension: Option<Seq<char>>, path: Seq<char>) -> bool {
    has_extension(path, extension) && (portable(path) ==> extension == extension_of(path))
}

/// Decides whether a file is taken as a source.
pub fn validate_media_extension(path: &str) -> (res: Result<(), String>)
    ensures
        exists|extension: Option<Seq<char>>|
            may_be_extension(extension, path@) && verdict_text(res)
                == #[trigger] extension_verdict(extension),
{
    let extension = find_extension(path);
    let res = match &extension {
        Some(e) => check_extension(Some(e.as_str())),
        None => check_extension(None),
    };
    assert(verdict_text(res) == extension_verdict(opt_text(extension)));
    res
}

/// The folder that the output of every project belongs in.
pub open spec fn output_root(documents: Seq<char>, windows: bool) -> Seq<char> {
    under(documents, "AutoShorts"@, windows)
}

/// The folder that a project's output belongs in, or why there is none.
pub open spec fn output_base(documents: Option<Seq<char>>, name: Seq<char>, windows: bool) -> Result<
    Seq<char>,
    Seq<char>,
> {
    match documents {
        Some(d) => Ok(under(output_root(d, windows), name, windows)),
        None => Err("Could not find your Documents folder for clip output."@),
    }
}

/// Chooses the folder that a project's output belongs in.
pub fn base_in(documents: Option<String>, name: &str, windows: bool) -> (res: Result<String, String>)
    ensures
        result_texts(res) == output_base(opt_text(documents), name@, windows),
{
    match documents {
        Some(d) => {
            let root = join_path(d.as_str(), "AutoShorts", windows);
            Ok(join_path(root.as_str(), name, windows))
        },
        None => Err("Could not find your Documents folder for clip output.".to_owned()),
    }
}

/// The folder that a project's output belongs in, before it is known who owns
/// it. `documents` is the user's documents directory.
pub fn documents_base(project: &Project, documents: Option<String>, windows: bool) -> (res: Result<
    String,
    String,
>)
    ensures
        exists|stem: Option<Seq<char>>|
            may_be_stem(stem, project.source_path@) && result_texts(res) == output_base(
                opt_text(documents),
                #[trigger] slug(stem, project.id@),
                windows,
            ),
{
    let name = project_output_slug(project);
    base_in(documents, name.as_str(), windows)
}

/// A folder and whether the project has yet to leave its mark there.
#[derive(Debug)]
pub struct Claim {
    pub dir: String,
    pub mark: bool,
}

/// The first characters of an id.
pub open spec fn short_id(id: Seq<char>) -> Seq<char> {
    if id.len() > 8 {
        id.take(8)
    } else {
        id
    }
}

/// The folder that a project gets where another owns `base`: the one beside it
/// with the project's short id in its name. `name` and `parent` are those of
/// `base`; one without a name holds the folder itself.
pub open spec fn beside(
    base: Seq<char>,
    name: Option<Seq<char>>,
    parent: Option<Seq<char>>,
    id: Seq<char>,
    windows: bool,
) -> Seq<char> {
    match (name, parent) {
        (Some(n), Some(p)) => under(p, n + "-"@ + short_id(id), windows),
        (Some(n), None) => n + "-"@ + short_id(id),
        (None, _) => under(base, "-"@ + short_id(id), windows),
    }
}

/// Where a project's output goes: into `base` where nobody owns it or the
/// project does, else into the folder beside it. `owner` is what the mark in
/// `base` says.
pub open spec fn claimed(
    base: Seq<char>,
    name: Option<Seq<char>>,
    parent: Option<Seq<char>>,
    owner: Option<Seq<char>>,
    id: Seq<char>,
    windows: bool,
) -> (Seq<char>, bool) {
    match owner {
        Some(o) => if trimmed(o) == id {
            (base, false)
        } else {
            (beside(base, name, parent, id, windows), true)
        },
        None => (base, true),
    }
}

/// Decides where a project's output goes, given the name and the parent of
/// `base`.
pub fn claim_given(
    base: &str,
    name: Option<&str>,
    parent: Option<&str>,
    owner: Option<&str>,
    id: &str,
    windows: bool,
) -> (res: Claim)
    ensures
        (res.dir@, res.mark) == claimed(
            base@,
            opt_str(name),
            opt_str(parent),
            opt_str(owner),
            id@,
            windows,
        ),
{
    let o = match owner {
        Some(o) => o,
        None => {
            return Claim { dir: base.to_owned(), mark: true };
        },
    };
    let told = trim(o);
    if same(told.as_str(), id) {
        return Claim { dir: base.to_owned(), mark: false };
    }
    let v = chars_of(id);
    let n: usize = if v.len() > 8 { 8 } else { v.len() };
    let short = text_between(&v, 0, n);
    assert(short@ =~= short_id(id@));
    let mut own = match name {
        Some(n) => n.to_owned(),
        None => String::new(),
    };
    own.append("-");
    own.append(short.as_str());
    let dir = match name {
        Some(n) => match parent {
            Some(p) => join_path(p, own.as_str(), windows),
            None => own,
        },
        None => {
            assert(own@ =~= "-"@ + short@);
            join_path(base, own.as_str(), windows)
        },
    };
    Claim { dir, mark: true }
}

/// Decides where a project's output goes.
///
/// The folder's name comes from the source's file name alone, so importing the
/// same video twice would point both projects at one folder and overwrite the
/// clips. A mark records which project owns the folder; later projects get their
/// own.
pub fn claim_dir(base: &str, owner: Option<&str>, id: &str, windows: bool) -> (res: Claim)
    ensures
        exists|name: Option<Seq<char>>, parent: Option<Seq<char>>|
            may_be_name(name, base@) && may_be_parent(parent, base@) && (res.dir@, res.mark)
                == #[trigger] claimed(base@, name, parent, opt_str(owner), id@, windows),
{
    let name = find_name(base);
    let parent = find_parent(base);
    let given_name = match &name {
        Some(n) => Some(n.as_str()),
        None => None,
    };
    let given_parent = match &parent {
        Some(p) => Some(p.as_str()),
        None => None,
    };
    assert(opt_str(given_name) == opt_text(name));
    assert(opt_str(given_parent) == opt_text(parent));
    claim_given(base, given_name, given_parent, owner, id, windows)
}

/// The text can name a folder: it is a single part of a path, no dot or double
/// dot, and names no drive.
pub open spec fn is_folder_name(name: Seq<char>, windows: bool) -> bool {
    &&& name.len() > 0
    &&& name != "."@
    &&& name != ".."@
    &&& !has_drive(name, windows)
    &&& forall|i: int| 0 <= i < name.len() ==> !is_separator(#[trigger] name[i], windows)
}

/// A name that a folder can have stands behind the folder above it, with or
/// without a short id.
proof fn lemma_under_name(root: Seq<char>, name: Seq<char>, id: Seq<char>, windows: bool)
    requires
        is_folder_name(name, windows),
    ensures
        under(root, name, windows) == opened(root, windows) + name,
        under(root, name + "-"@ + short_id(id), windows) == opened(root, windows) + name + "-"@
            + short_id(id),
{
    reveal_strlit("-");
    let own = name + "-"@ + short_id(id);
    assert(own[0] == name[0]);
    if name.len() == 1 {
        assert(own[1] == '-');
    } else {
        assert(own[1] == name[1]);
    }
    assert(opened(root, windows) + own =~= opened(root, windows) + name + "-"@ + short_id(id));
}

/// A folder under a root, with the short id of a project.
spec fn suffixed(root: Seq<char>, name: Seq<char>, id: Seq<char>, windows: bool) -> Seq<char> {
    under(root, name + "-"@ + short_id(id), windows)
}

/// Folders of one name are told apart by short ids.
proof fn lemma_suffixed(root: Seq<char>, name: Seq<char>, p: Seq<char>, q: Seq<char>, windows: bool)
    requires
        is_folder_name(name, windows),
    ensures
        suffixed(root, name, p, windows) != under(root, name, windows),
        short_id(p) != short_id(q) ==> suffixed(root, name, p, windows) != suffixed(
            root,
            name,
            q,
            windows,
        ),
{
    reveal_strlit("-");
    lemma_under_name(root, name, p, windows);
    lemma_under_name(root, name, q, windows);
    let base = opened(root, windows) + name;
    let x = suffixed(root, name, p, windows);
    let y = suffixed(root, name, q, windows);
    assert(x.len() > base.len());
    if x == y {
        assert(x.skip(base.len() as int + 1) =~= short_id(p));
        assert(y.skip(base.len() as int + 1) =~= short_id(q));
    }
}

/// A project never writes into a folder that another owns, and two projects that
/// both find it owned by a third get folders of their own where their short ids
/// differ.
pub proof fn law_claim(
    root: Seq<char>,
    name: Seq<char>,
    owner: Seq<char>,
    a: Seq<char>,
    b: Seq<char>,
    windows: bool,
)
    requires
        is_folder_name(name, windows),
    ensures
        ({
            let base = under(root, name, windows);
            let gets = |id: Seq<char>|
                claimed(base, Some(name), Some(root), Some(owner), id, windows);
            &&& trimmed(owner) != a ==> gets(a).0 != base
            &&& trimmed(owner) == a ==> gets(a) == (base, false)
            &&& trimmed(owner) != a && trimmed(owner) != b && short_id(a) != short_id(b)
                ==> gets(a).0 != gets(b).0
        }),
{
    lemma_suffixed(root, name, a, b, windows);
}

/// What the marks on disk say of the owner of a folder.
pub open spec fn owner_in(marks: Map<Seq<char>, Seq<char>>, dir: Seq<char>) -> Option<Seq<char>> {
    if marks.dom().contains(dir) {
        Some(marks[dir])
    } else {
        None
    }
}

/// The folder that a project gets, and the marks after it left its own there.
/// `name` is that of the folder under `root` that the project's output belongs
/// in.
pub open spec fn settled(
    marks: Map<Seq<char>, Seq<char>>,
    root: Seq<char>,
    name: Seq<char>,
    id: Seq<char>,
    windows: bool,
) -> (Seq<char>, Map<Seq<char>, Seq<char>>) {
    let base = under(root, name, windows);
    let (dir, mark) = claimed(base, Some(name), Some(root), owner_in(marks, base), id, windows);
    (
        dir,
        if mark {
            marks.insert(dir, id)
        } else {
            marks
        },
    )
}

/// The folder that a project's output belongs in is read as what it was made of:
/// its name is the project's, and its parent is the folder of every project.
pub proof fn law_folder_read(documents: Seq<char>, name: Seq<char>)
    requires
        is_folder_name(name, false),
    ensures
        last_name(under(output_root(documents, false), name, false)) == Some(name),
        parent_path(under(output_root(documents, false), name, false)) == Some(
            output_root(documents, false),
        ),
{
    reveal_strlit("AutoShorts");
    reveal_strlit("/");
    reveal_strlit(".");
    let root = output_root(documents, false);
    let head = opened(documents, false);
    let app = "AutoShorts"@;
    assert(root =~= head + app);
    let path = under(root, name, false);
    assert(path =~= root + "/"@ + name);
    let at = root.len() as int;
    assert(path[at] == '/');
    assert forall|k: int| at < k < path.len() implies #[trigger] path[k] != '/' by {
        assert(path[k] == name[k - at - 1]);
    }
    lemma_after_last_at(path, '/', at);
    assert(path.skip(at + 1) =~= name);
    assert(path.take(at) =~= root);
    assert(after_last(root, '/') == app) by {
        if head.len() > 0 {
            assert(root[head.len() - 1] == '/');
            assert forall|k: int| head.len() - 1 < k < root.len() implies #[trigger] root[k] != '/' by {
                assert(root[k] == app[k - head.len()]);
            }
            lemma_after_last_at(root, '/', head.len() - 1);
            assert(root.skip(head.len() as int) =~= app);
        } else {
            assert(root =~= app);
            lemma_position(root, '/');
        }
    }
    assert(tidy(path) == path);
    assert(app != "."@);
    assert(tidy(root) == root);
}

/// Two imports of one video never share a folder, and each keeps its own however
/// often it comes back, whatever marks were there before. Where the video's name
/// makes no folder name, the ids make two; the law then leaves out ids of which
/// one makes a name that the other gets with its short id.
pub proof fn law_two_imports(
    marks: Map<Seq<char>, Seq<char>>,
    root: Seq<char>,
    stem: Option<Seq<char>>,
    p: Seq<char>,
    q: Seq<char>,
    windows: bool,
)
    requires
        trimmed(p) == p,
        trimmed(q) == q,
        short_id(p) != short_id(q),
        is_folder_name(slug(stem, p), windows),
        is_folder_name(slug(stem, q), windows),
        slug(stem, p) != slug(stem, q) ==> {
            &&& slug(stem, p) != slug(stem, q) + "-"@ + short_id(q)
            &&& slug(stem, p) + "-"@ + short_id(p) != slug(stem, q) + "-"@ + short_id(q)
        },
    ensures
        ({
            let first = settled(marks, root, slug(stem, p), p, windows);
            let second = settled(first.1, root, slug(stem, q), q, windows);
            let again = settled(second.1, root, slug(stem, p), p, windows);
            &&& first.0 != second.0
            &&& again.0 == first.0
            &&& settled(again.1, root, slug(stem, q), q, windows).0 == second.0
        }),
{
    let m = slug(stem, p);
    let n = slug(stem, q);
    lemma_suffixed(root, m, p, q, windows);
    lemma_suffixed(root, n, q, p, windows);
    lemma_under_name(root, m, p, windows);
    lemma_under_name(root, n, q, windows);
    let head = opened(root, windows);
    let a = under(root, m, windows);
    let b = under(root, n, windows);
    let x = suffixed(root, m, p, windows);
    let y = suffixed(root, n, q, windows);
    assert(a.skip(head.len() as int) =~= m);
    assert(b.skip(head.len() as int) =~= n);
    assert(x.skip(head.len() as int) =~= m + "-"@ + short_id(p));
    assert(y.skip(head.len() as int) =~= n + "-"@ + short_id(q));
    if m != n {
        assert(a != b && a != y && x != y);
    }
}

/// The id can name a folder as it is: it is made of letters, digits, hyphens and
/// underscores, neither begins nor ends with a hyphen and has at least as many
/// characters as a short id.
pub open spec fn is_plain_id(id: Seq<char>) -> bool {
    &&& id.len() >= 8
    &&& id[0] != '-'
    &&& id.last() != '-'
    &&& forall|i: int| 0 <= i < id.len() ==> is_slug_char(#[trigger] id[i])
}

/// A folder name made of a file's stem can name a folder, and so can a plain id.
proof fn lemma_slug_names(stem: Option<Seq<char>>, id: Seq<char>, windows: bool)
    requires
        is_plain_id(id),
    ensures
        is_folder_name(slug(stem, id), windows),
        stem is None ==> slug(stem, id) == id,
        trimmed(id) == id,
{
    reveal_strlit(".");
    reveal_strlit("..");
    assert(dashed(id) =~= id);
    assert(strip_start(CharClass::Dash, id) == id);
    assert(strip_end(CharClass::Dash, id) == id);
    assert(is_slug_char(id[0]) && is_slug_char(id.last()));
    assert(strip_start(CharClass::Space, id) == id);
    assert(strip_end(CharClass::Space, id) == id);
    law_slug(stem, id);
    let s = slug(stem, id);
    assert(forall|i: int| 0 <= i < s.len() ==> is_slug_char(#[trigger] s[i]));
    assert(is_slug_char(s[0]));
    if s.len() >= 2 {
        assert(is_slug_char(s[1]));
    }
}

/// Two imports of one video under plain ids never share a folder, whatever the
/// video is called: no further condition is needed.
pub proof fn law_plain_imports(
    marks: Map<Seq<char>, Seq<char>>,
    root: Seq<char>,
    stem: Option<Seq<char>>,
    p: Seq<char>,
    q: Seq<char>,
    windows: bool,
)
    requires
        is_plain_id(p),
        is_plain_id(q),
        short_id(p) != short_id(q),
    ensures
        ({
            let first = settled(marks, root, slug(stem, p), p, windows);
            let second = settled(first.1, root, slug(stem, q), q, windows);
            let again = settled(second.1, root, slug(stem, p), p, windows);
            &&& first.0 != second.0
            &&& again.0 == first.0
            &&& settled(again.1, root, slug(stem, q), q, windows).0 == second.0
        }),
{
    reveal_strlit("-");
    lemma_slug_names(stem, p, windows);
    lemma_slug_names(stem, q, windows);
    let m = slug(stem, p);
    let n = slug(stem, q);
    if m != n {
        assert(m == p && n == q);
        assert(short_id(p) =~= p.take(8));
        assert(short_id(q) =~= q.take(8));
        let x = p + "-"@ + short_id(p);
        let y = q + "-"@ + short_id(q);
        if p == y {
            assert(y.take(8) =~= q.take(8));
        }
        if x == y {
            assert(x.skip(x.len() - 8) =~= p.take(8));
            assert(y.skip(y.len() - 8) =~= q.take(8));
        }
    }
    law_two_imports(marks, root, stem, p, q, windows);
}

/// A rank with at least two characters.
pub open spec fn rank_text(rank: int) -> Seq<char> {
    if rank < 0 {
        int_text(rank)
    } else {
        zero_padded(nat_text(rank as nat), 2)
    }
}

/// The file name of a candidate's clip.
pub open spec fn clip_file(rank: int) -> Seq<char> {
    "clip-"@ + rank_text(rank) + "_flat.mp4"@
}

/// Writes the file name of a candidate's clip.
pub fn clip_file_name(rank: i64) -> (res: String)
    ensures
        res@ == clip_file(rank as int),
{
    let number = if rank < 0 {
        int_string(rank)
    } else {
        padded_string(rank as u128, 2)
    };
    let mut s = "clip-".to_owned();
    s.append(number.as_str());
    s.append("_flat.mp4");
    s
}

/// The name of the file with a candidate's subtitles.
pub open spec fn subtitle_file(id: Seq<char>) -> Seq<char> {
    "clip-"@ + id + ".srt"@
}

/// Writes the file name of a candidate's subtitles.
pub fn subtitle_file_name(candidate_id: &str) -> (res: String)
    ensures
        res@ == subtitle_file(candidate_id@),
        res@ == "clip-"@ + candidate_id@ + ".srt"@,
{
    let mut s = "clip-".to_owned();
    s.append(candidate_id);
    s.append(".srt");
    s
}

/// The name of a file made from another: its stem and a suffix.
pub open spec fn derived(stem: Option<Seq<char>>, suffix: Seq<char>) -> Seq<char> {
    match stem {
        Some(s) => s + suffix,
        None => suffix,
    }
}

/// Names a file after another, with a suffix such as `_broll.mp4`,
/// `_titled.mp4`, `_sfx.mp4` or `_final.mp4`.
pub fn derived_name(path: &str, suffix: &str) -> (res: String)
    ensures
        exists|stem: Option<Seq<char>>|
            may_be_stem(stem, path@) && res@ == #[trigger] derived(stem, suffix@),
{
    let stem = find_stem(path);
    let res = match &stem {
        Some(s) => {
            let mut name = s.as_str().to_owned();
            name.append(suffix);
            name
        },
        None => suffix.to_owned(),
    };
    assert(res@ == derived(opt_text(stem), suffix@));
    res
}

/// `s` without the occurrences of `p`, found from left to right.
pub open spec fn without(s: Seq<char>, p: Seq<char>) -> Seq<char>
    decreases s.len(),
{
    if s.len() == 0 || p.len() == 0 {
        s
    } else if p.is_prefix_of(s) {
        without(s.skip(p.len() as int), p)
    } else {
        seq![s[0]] + without(s.drop_first(), p)
    }
}

/// Removes the occurrences of `p`.
fn remove_all(s: &str, p: &str) -> (res: String)
    requires
        p@.len() > 0,
    ensures
        res@ == without(s@, p@),
{
    let v = chars_of(s);
    let n = chars_of(p).len();
    let mut res: String = String::new();
    let mut i: usize = 0;
    assert(v@.skip(0) =~= v@);
    assert(res@ + without(v@, p@) =~= without(v@, p@));
    while i < v.len()
        invariant
            v@ == s@,
            n == p@.len(),
            n > 0,
            i <= v@.len(),
            without(s@, p@) == res@ + without(v@.skip(i as int), p@),
        decreases v@.len() - i,
    {
        let ghost rest = v@.skip(i as int);
        let tail = text_between(&v, i, v.len());
        assert(tail@ =~= rest);
        if starts_with(tail.as_str(), p) {
            assert(rest.skip(n as int) =~= v@.skip(i + n));
            i = i + n;
        } else {
            let ghost before = res@;
            res.push(v[i]);
            assert(rest.drop_first() =~= v@.skip(i + 1));
            assert(before + (seq![rest[0]] + without(v@.skip(i + 1), p@)) =~= res@ + without(
                v@.skip(i + 1),
                p@,
            ));
            i += 1;
        }
    }
    assert(v@.skip(i as int) =~= Seq::<char>::empty());
    assert(res@ + without(v@.skip(i as int), p@) =~= res@);
    res
}

/// The folder in which the edit of a clip was planned.
pub open spec fn edit_dir(stem: Option<Seq<char>>) -> Seq<char> {
    "edit_"@ + match stem {
        Some(s) => without(s, "_broll"@),
        None => Seq::empty(),
    }
}

/// Names the folder in which the edit behind a B-roll render was planned.
pub fn edit_dir_name(produced: &str) -> (res: String)
    ensures
        exists|stem: Option<Seq<char>>|
            may_be_stem(stem, produced@) && res@ == #[trigger] edit_dir(stem),
{
    proof {
        reveal_strlit("_broll");
    }
    let stem = find_stem(produced);
    let mut name = "edit_".to_owned();
    match &stem {
        Some(s) => {
            let clip = remove_all(s.as_str(), "_broll");
            name.append(clip.as_str());
        },
        None => {},
    }
    assert(name@ =~= edit_dir(opt_text(stem)));
    name
}

/// The letters and digits of ASCII, hyphens and underscores stay in a slug, and
/// every other character becomes a hyphen.
pub proof fn law_dashed(s: Seq<char>)
    ensures
        dashed(s).len() == s.len(),
        forall|i: int|
            0 <= i < s.len() ==> #[trigger] dashed(s)[i] == if ('a' <= s[i] <= 'z') || ('A' <= s[i]
                <= 'Z') || ('0' <= s[i] <= '9') || s[i] == '-' || s[i] == '_' {
                s[i]
            } else {
                '-'
            },
{
}

/// A slug is the dashed stem without the hyphens around it, and the id where
/// nothing is left; without a stem the id is dashed.
pub proof fn law_slug_of(stem: Seq<char>, id: Seq<char>)
    ensures
        ({
            let s = strip_end(CharClass::Dash, strip_start(CharClass::Dash, dashed(stem)));
            slug(Some(stem), id) == if s.len() > 0 {
                s
            } else {
                id
            }
        }),
        slug(None, id) == slug(Some(id), id),
{
}

/// The media that can be imported, in any case of letters; anything else is
/// refused with its extension, or for having none.
pub proof fn law_media(e: Seq<char>)
    ensures
        is_media(e) <==> (ascii_lowered(e) == "mp4"@ || ascii_lowered(e) == "mov"@ || ascii_lowered(e)
            == "mp3"@ || ascii_lowered(e) == "wav"@ || ascii_lowered(e) == "m4a"@),
        is_media(e) ==> extension_verdict(Some(e)) == Ok::<(), Seq<char>>(()),
        !is_media(e) ==> extension_verdict(Some(e)) == Err::<(), Seq<char>>(
            "Unsupported file type ."@ + ascii_lowered(e) + ". Use mp4, mov, mp3, wav, or m4a."@,
        ),
        extension_verdict(None) == Err::<(), Seq<char>>("Selected file does not have an extension"@),
        ascii_lowered(e).len() == e.len(),
        forall|i: int|
            0 <= i < e.len() ==> (#[trigger] ascii_lowered(e)[i]) as int == if 'A' <= e[i] <= 'Z' {
                e[i] as int + 32
            } else {
                e[i] as int
            },
{
}

/// A verdict stands for the message that it holds.
pub proof fn law_verdict(e: String)
    ensures
        verdict_text(Ok(())) == Ok::<(), Seq<char>>(()),
        verdict_text(Err(e)) == Err::<(), Seq<char>>(e@),
{
}

/// Clips are put out under the user's documents, in the app's folder, each
/// project in one of its own.
pub proof fn law_output_base(documents: Seq<char>, name: Seq<char>, windows: bool)
    ensures
        output_base(Some(documents), name, windows) == Ok::<Seq<char>, Seq<char>>(
            under(under(documents, "AutoShorts"@, windows), name, windows),
        ),
        output_base(None, name, windows) == Err::<Seq<char>, Seq<char>>(
            "Could not find your Documents folder for clip output."@,
        ),
{
}

/// The short form of an id is its first eight characters, or all of it.
pub proof fn law_short_id(id: Seq<char>)
    ensures
        short_id(id).len() == if id.len() < 8 {
            id.len()
        } else {
            8
        },
        short_id(id).is_prefix_of(id),
{
}

/// A folder that nobody owns is taken and marked; one's own is taken as it is;
/// and beside another's stands one with the short id behind its name.
pub proof fn law_claimed(
    base: Seq<char>,
    name: Seq<char>,
    parent: Seq<char>,
    named: Option<Seq<char>>,
    above: Option<Seq<char>>,
    owner: Seq<char>,
    id: Seq<char>,
    windows: bool,
)
    ensures
        claimed(base, named, above, None, id, windows) == (base, true),
        trimmed(owner) == id ==> claimed(base, named, above, Some(owner), id, windows) == (base, false),
        trimmed(owner) != id ==> {
            &&& claimed(base, Some(name), Some(parent), Some(owner), id, windows) == (
                under(parent, name + seq!['-'] + short_id(id), windows),
                true,
            )
            &&& claimed(base, Some(name), None, Some(owner), id, windows) == (
                name + seq!['-'] + short_id(id),
                true,
            )
            &&& claimed(base, None, above, Some(owner), id, windows) == (
                under(base, seq!['-'] + short_id(id), windows),
                true,
            )
        },
{
    reveal_strlit("-");
    assert("-"@ =~= seq!['-']);
}

/// A clip's file is named by its rank, in two digits at least.
pub proof fn law_clip_file(rank: int)
    ensures
        0 <= rank < 10 ==> clip_file(rank) == "clip-"@ + (seq!['0'] + nat_text(rank as nat))
            + "_flat.mp4"@,
        rank >= 10 ==> clip_file(rank) == "clip-"@ + nat_text(rank as nat) + "_flat.mp4"@,
        rank < 0 ==> clip_file(rank) == "clip-"@ + int_text(rank) + "_flat.mp4"@,
{
    if 0 <= rank < 10 {
        assert(nat_text(rank as nat).len() == 1);
        assert(zero_padded(nat_text(rank as nat), 2) =~= seq!['0'] + nat_text(rank as nat));
    } else if rank >= 10 {
        lemma_nat_text((rank / 10) as nat);
        assert(nat_text(rank as nat) == nat_text((rank as nat) / 10).push(
            nat_text(rank as nat).last(),
        ));
    }
}

/// What is derived from a file keeps its stem.
pub proof fn law_derived(stem: Seq<char>, suffix: Seq<char>)
    ensures
        derived(Some(stem), suffix) == stem + suffix,
        derived(None, suffix) == suffix,
        edit_dir(Some(stem)) == "edit_"@ + without(stem, "_broll"@),
        edit_dir(None) == "edit_"@,
{
    assert("edit_"@ + Seq::<char>::empty() =~= "edit_"@);
}

/// Copies of a text are removed from the front on; what holds none stays as it
/// is, character by character.
pub proof fn law_without(p: Seq<char>, s: Seq<char>)
    requires
        p.len() > 0,
    ensures
        without(p + s, p) == without(s, p),
        s.len() > 0 && !p.is_prefix_of(s) ==> without(s, p) == seq![s[0]] + without(s.drop_first(), p),
        without(Seq::empty(), p) == Seq::<char>::empty(),
        !contains(s, p) ==> without(s, p) == s,
    decreases s.len(),
{
    assert((p + s).subrange(0, p.len() as int) =~= p);
    assert((p + s).skip(p.len() as int) =~= s);
    if !contains(s, p) {
        if s.len() > 0 {
            let rest = s.drop_first();
            assert(s.skip(0) =~= s);
            assert(!p.is_prefix_of(s));
            assert(!contains(rest, p)) by {
                if contains(rest, p) {
                    let i = choose|i: int| 0 <= i <= rest.len() && p.is_prefix_of(#[trigger] rest.skip(i));
                    assert(rest.skip(i) =~= s.skip(i + 1));
                }
            }
            law_without(p, rest);
            assert(seq![s[0]] + rest =~= s);
        } else {
            assert(s =~= Seq::<char>::empty());
        }
    }
}

/// Subtitles are named by their candidate, and what a path may be read as is what
/// the platform says and, on a portable path, what stands in it.
pub proof fn law_subtitle_file(id: Seq<char>, part: Option<Seq<char>>, path: Seq<char>)
    ensures
        subtitle_file(id) == "clip-"@ + id + ".srt"@,
        may_be_stem(part, path) <==> has_stem(path, part) && (portable(path) ==> part == stem_of(path)),
        may_be_extension(part, path) <==> has_extension(path, part) && (portable(path) ==> part
            == extension_of(path)),
{
}

} // verus!
