//! Locating a Python interpreter that has the packages we need.
//!
//! Optional features are installed into a virtual environment rather than the
//! system's Python, which may refuse `pip install`. A bare `python3` would miss
//! that environment, so every candidate is probed for the module required.

use vstd::prelude::*;
use vstd::string::StringExecFns;
use crate::paths::{
    all_seen, find_home, find_parent, is_home, join_path, look, may_be_parent, seen, set_value,
    setting_of, under, which_exist,
};
use crate::text::{is_blank, opt_str, opt_text, put, same, texts, trim, trimmed};

verus! {

/// How many directories above the program are searched.
pub const LEVELS: usize = 6;

/// Where the interpreter stands in a virtual environment under a root.
pub open spec fn venv_names(windows: bool) -> (Seq<char>, Seq<char>) {
    if windows {
        (".venv/Scripts/python.exe"@, "venv/Scripts/python.exe"@)
    } else {
        (".venv/bin/python"@, "venv/bin/python"@)
    }
}

/// The names under which an interpreter may be on the search path.
pub open spec fn names_on_path(windows: bool) -> Seq<Seq<char>> {
    if windows {
        seq!["python"@, "py"@, "python3"@]
    } else {
        seq!["python3"@, "python"@]
    }
}

/// The interpreters of the virtual environments under the roots.
pub open spec fn venv_paths(roots: Seq<Seq<char>>, windows: bool) -> Seq<Seq<char>>
    decreases roots.len(),
{
    if roots.len() == 0 {
        Seq::empty()
    } else {
        let (first, second) = venv_names(windows);
        venv_paths(roots.drop_last(), windows).push(under(roots.last(), first, windows)).push(
            under(roots.last(), second, windows),
        )
    }
}

/// The paths that are present, in order.
pub open spec fn present_of(paths: Seq<Seq<char>>, present: Seq<bool>) -> Seq<Seq<char>>
    decreases paths.len(),
{
    if paths.len() == 0 {
        Seq::empty()
    } else if present.last() {
        present_of(paths.drop_last(), present.drop_last()).push(paths.last())
    } else {
        present_of(paths.drop_last(), present.drop_last())
    }
}

/// The list with each run of equal items reduced to one.
pub open spec fn without_runs(list: Seq<Seq<char>>) -> Seq<Seq<char>>
    decreases list.len(),
{
    if list.len() <= 1 {
        list
    } else if list.last() == list[list.len() - 2] {
        without_runs(list.drop_last())
    } else {
        without_runs(list.drop_last()).push(list.last())
    }
}

/// The interpreter that a setting names.
pub open spec fn named_interpreter(explicit: Option<Seq<char>>) -> Seq<Seq<char>> {
    match set_value(explicit) {
        Some(v) => seq![trimmed(v)],
        None => Seq::empty(),
    }
}

/// The interpreters to try, most specific first.
pub open spec fn interpreters(
    explicit: Option<Seq<char>>,
    roots: Seq<Seq<char>>,
    present: Seq<bool>,
    windows: bool,
) -> Seq<Seq<char>> {
    without_runs(
        named_interpreter(explicit) + present_of(venv_paths(roots, windows), present)
            + names_on_path(windows),
    )
}

/// Lists the interpreters of the virtual environments under the roots.
pub fn venv_interpreters(roots: &Vec<String>, windows: bool) -> (res: Vec<String>)
    ensures
        texts(res@) == venv_paths(texts(roots@), windows),
{
    let ghost all = texts(roots@);
    let mut res: Vec<String> = Vec::new();
    let mut i: usize = 0;
    assert(all.take(0) =~= Seq::<Seq<char>>::empty());
    assert(texts(res@) =~= Seq::<Seq<char>>::empty());
    while i < roots.len()
        invariant
            i <= roots@.len(),
            all == texts(roots@),
            texts(res@) == venv_paths(all.take(i as int), windows),
        decreases roots@.len() - i,
    {
        assert(all.take(i + 1).drop_last() =~= all.take(i as int));
        assert(all.take(i + 1).last() == roots@[i as int]@);
        let root = roots[i].as_str();
        let first = join_path(
            root,
            if windows {
                ".venv/Scripts/python.exe"
            } else {
                ".venv/bin/python"
            },
            windows,
        );
        let second = join_path(
            root,
            if windows {
                "venv/Scripts/python.exe"
            } else {
                "venv/bin/python"
            },
            windows,
        );
        put(&mut res, first.as_str());
        put(&mut res, second.as_str());
        i += 1;
    }
    assert(all.take(i as int) =~= all);
    res
}

/// Adds an interpreter unless it repeats the one before it.
fn put_once(list: &mut Vec<String>, s: &str, Ghost(all): Ghost<Seq<Seq<char>>>)
    requires
        texts(old(list)@) == without_runs(all),
        all.len() > 0 ==> without_runs(all).len() > 0 && without_runs(all).last() == all.last(),
    ensures
        texts(final(list)@) == without_runs(all.push(s@)),
        without_runs(all.push(s@)).len() > 0,
        without_runs(all.push(s@)).last() == s@,
{
    let ghost more = all.push(s@);
    assert(more.drop_last() =~= all);
    if list.len() > 0 && same(list[list.len() - 1].as_str(), s) {
        assert(texts(list@).last() == s@);
        return ;
    }
    proof {
        if all.len() > 0 {
            assert(texts(list@).last() == list@[list@.len() - 1]@);
            assert(all[all.len() - 1] != s@);
        } else {
            assert(texts(list@) =~= Seq::<Seq<char>>::empty());
            assert(more =~= texts(list@).push(s@));
        }
    }
    put(list, s);
}

/// Puts together the interpreters to try. `present` says which of
/// [`venv_interpreters`] are there.
pub fn candidates_from(
    explicit: Option<&str>,
    roots: &Vec<String>,
    present: &Vec<bool>,
    windows: bool,
) -> (res: Vec<String>)
    requires
        present@.len() == venv_paths(texts(roots@), windows).len(),
    ensures
        texts(res@) == interpreters(opt_str(explicit), texts(roots@), present@, windows),
{
    let venvs = venv_interpreters(roots, windows);
    let ghost paths = texts(venvs@);
    let ghost start = named_interpreter(opt_str(explicit));
    let mut res: Vec<String> = Vec::new();
    let ghost mut all: Seq<Seq<char>> = Seq::empty();
    assert(texts(res@) =~= Seq::<Seq<char>>::empty());
    match setting_of(explicit) {
        Some(v) => {
            let chosen = trim(v.as_str());
            put_once(&mut res, chosen.as_str(), Ghost(all));
            proof {
                all = all.push(chosen@);
            }
        },
        None => {},
    }
    assert(all =~= start);
    let mut i: usize = 0;
    assert(paths.take(0) =~= Seq::<Seq<char>>::empty());
    assert(start + present_of(paths.take(0), present@.take(0)) =~= start);
    while i < venvs.len()
        invariant
            i <= venvs@.len(),
            paths == texts(venvs@),
            present@.len() == paths.len(),
            all == start + present_of(paths.take(i as int), present@.take(i as int)),
            texts(res@) == without_runs(all),
            all.len() > 0 ==> without_runs(all).len() > 0 && without_runs(all).last() == all.last(),
        decreases venvs@.len() - i,
    {
        assert(paths.take(i + 1).drop_last() =~= paths.take(i as int));
        assert(present@.take(i + 1).drop_last() =~= present@.take(i as int));
        assert(paths.take(i + 1).last() == venvs@[i as int]@);
        if present[i] {
            put_once(&mut res, venvs[i].as_str(), Ghost(all));
            proof {
                let before = all;
                all = all.push(venvs@[i as int]@);
                assert(all =~= start + present_of(paths.take(i + 1), present@.take(i + 1)));
            }
        }
        i += 1;
    }
    assert(paths.take(i as int) =~= paths);
    assert(present@.take(i as int) =~= present@);
    let ghost before = all;
    if windows {
        put_once(&mut res, "python", Ghost(all));
        put_once(&mut res, "py", Ghost(all.push("python"@)));
        put_once(&mut res, "python3", Ghost(all.push("python"@).push("py"@)));
        assert(all.push("python"@).push("py"@).push("python3"@) =~= before + names_on_path(windows));
    } else {
        put_once(&mut res, "python3", Ghost(all));
        put_once(&mut res, "python", Ghost(all.push("python3"@)));
        assert(all.push("python3"@).push("python"@) =~= before + names_on_path(windows));
    }
    res
}

/// Interpreters to try, most specific first.
///
/// `explicit` wins, so that a user can point at any environment. Then come the
/// virtual environments under the roots that are there, then whatever is on the
/// search path.
pub fn candidates(explicit: Option<&str>, roots: &Vec<String>, windows: bool) -> (res: Vec<String>)
    ensures
        exists|present: Seq<bool>|
            all_seen(venv_paths(texts(roots@), windows), present) && texts(res@)
                == #[trigger] interpreters(opt_str(explicit), texts(roots@), present, windows),
{
    let venvs = venv_interpreters(roots, windows);
    let present = which_exist(&venvs);
    candidates_from(explicit, roots, &present, windows)
}

/// The directories that are searched for a virtual environment: those above the
/// program, the current one, and the checkout under the home directory.
pub open spec fn roots_of(
    above: Seq<Seq<char>>,
    current: Option<Seq<char>>,
    home: Option<Seq<char>>,
    windows: bool,
) -> Seq<Seq<char>> {
    let near = if above.len() > LEVELS {
        above.take(LEVELS as int)
    } else {
        above
    };
    let here = match current {
        Some(d) => near.push(d),
        None => near,
    };
    match home {
        Some(h) => here.push(under(h, "autoshorts"@, windows)),
        None => here,
    }
}

/// Lists the directories that are searched when the home directory is `home`.
pub fn roots_with_home(
    above: &Vec<String>,
    current: Option<&str>,
    home: Option<String>,
    windows: bool,
) -> (res: Vec<String>)
    ensures
        texts(res@) == roots_of(texts(above@), opt_str(current), opt_text(home), windows),
{
    let mut res: Vec<String> = Vec::new();
    let mut i: usize = 0;
    while i < above.len() && i < LEVELS
        invariant
            i <= above@.len(),
            i <= LEVELS,
            texts(res@) == texts(above@).take(i as int),
        decreases above@.len() - i,
    {
        put(&mut res, above[i].as_str());
        assert(texts(res@) =~= texts(above@).take(i + 1));
        i += 1;
    }
    assert(i == above@.len() ==> texts(above@).take(i as int) =~= texts(above@));
    match current {
        Some(d) => put(&mut res, d),
        None => {},
    }
    match home {
        Some(h) => {
            let checkout = join_path(h.as_str(), "autoshorts", windows);
            put(&mut res, checkout.as_str());
        },
        None => {},
    }
    res
}

/// Lists the directories that are searched for a virtual environment. `above`
/// are the directories above the program, from the nearest.
pub fn search_roots(above: &Vec<String>, current: Option<&str>, windows: bool) -> (res: Vec<String>)
    ensures
        exists|home: Option<Seq<char>>|
            is_home(home) && texts(res@) == #[trigger] roots_of(
                texts(above@),
                opt_str(current),
                home,
                windows,
            ),
{
    let home = find_home();
    roots_with_home(above, current, home, windows)
}

/// First interpreter that can import `module`, if any. `imports` runs an
/// interpreter and answers whether it can.
pub fn find_with_module(
    candidates: &Vec<String>,
    module: &str,
    imports: impl Fn(&String, &str) -> bool,
) -> (res: Option<String>)
    requires
        forall|c: &String, m: &str| call_requires(imports, (c, m)),
    ensures
        match res {
            Some(found) => exists|i: int|
                {
                    &&& 0 <= i < candidates@.len()
                    &&& found@ == (#[trigger] candidates@[i])@
                    &&& call_ensures(imports, (&candidates@[i], module), true)
                    &&& forall|k: int|
                        0 <= k < i ==> call_ensures(
                            imports,
                            (&#[trigger] candidates@[k], module),
                            false,
                        )
                },
            None => forall|k: int|
                0 <= k < candidates@.len() ==> call_ensures(
                    imports,
                    (&#[trigger] candidates@[k], module),
                    false,
                ),
        },
{
    let mut i: usize = 0;
    while i < candidates.len()
        invariant
            i <= candidates@.len(),
            forall|c: &String, m: &str| call_requires(imports, (c, m)),
            forall|k: int|
                0 <= k < i ==> call_ensures(imports, (&#[trigger] candidates@[k], module), false),
        decreases candidates@.len() - i,
    {
        if imports(&candidates[i], module) {
            let found = candidates[i].clone();
            assert(found@ == candidates@[i as int]@);
            return Some(found);
        }
        i += 1;
    }
    None
}

/// First interpreter that runs at all, regardless of installed packages. `runs`
/// starts an interpreter and answers whether it does.
pub fn find_any(candidates: &Vec<String>, runs: impl Fn(&String) -> bool) -> (res: Option<String>)
    requires
        forall|c: &String| call_requires(runs, (c,)),
    ensures
        match res {
            Some(found) => exists|i: int|
                {
                    &&& 0 <= i < candidates@.len()
                    &&& found@ == (#[trigger] candidates@[i])@
                    &&& call_ensures(runs, (&candidates@[i],), true)
                    &&& forall|k: int|
                        0 <= k < i ==> call_ensures(runs, (&#[trigger] candidates@[k],), false)
                },
            None => forall|k: int|
                0 <= k < candidates@.len() ==> call_ensures(
                    runs,
                    (&#[trigger] candidates@[k],),
                    false,
                ),
        },
{
    let mut i: usize = 0;
    while i < candidates.len()
        invariant
            i <= candidates@.len(),
            forall|c: &String| call_requires(runs, (c,)),
            forall|k: int|
                0 <= k < i ==> call_ensures(runs, (&#[trigger] candidates@[k],), false),
        decreases candidates@.len() - i,
    {
        if runs(&candidates[i]) {
            let found = candidates[i].clone();
            assert(found@ == candidates@[i as int]@);
            return Some(found);
        }
        i += 1;
    }
    None
}

/// Whether some interpreter can import `module`.
pub fn has_module(
    candidates: &Vec<String>,
    module: &str,
    imports: impl Fn(&String, &str) -> bool,
) -> (res: bool)
    requires
        forall|c: &String, m: &str| call_requires(imports, (c, m)),
    ensures
        res ==> exists|i: int|
            0 <= i < candidates@.len() && call_ensures(
                imports,
                (&#[trigger] candidates@[i], module),
                true,
            ),
        !res ==> forall|i: int|
            0 <= i < candidates@.len() ==> call_ensures(
                imports,
                (&#[trigger] candidates@[i], module),
                false,
            ),
{
    find_with_module(candidates, module, imports).is_some()
}

/// The file of a script in a directory of programs.
pub open spec fn script_in(dir: Seq<char>, name: Seq<char>, windows: bool) -> Seq<char> {
    under(
        dir,
        if windows {
            name + ".exe"@
        } else {
            name
        },
        windows,
    )
}

/// The first script that is present, among the directories that there are.
pub open spec fn first_script(
    dirs: Seq<Option<Seq<char>>>,
    present: Seq<bool>,
    name: Seq<char>,
    windows: bool,
) -> Option<Seq<char>>
    decreases dirs.len(),
{
    if dirs.len() == 0 {
        None
    } else if dirs[0] is Some && present[0] {
        Some(script_in(dirs[0]->0, name, windows))
    } else {
        first_script(dirs.drop_first(), present.drop_first(), name, windows)
    }
}

/// The texts of a list of optional strings.
pub open spec fn opt_texts(v: Seq<Option<String>>) -> Seq<Option<Seq<char>>> {
    v.map_values(|s: Option<String>| opt_text(s))
}

/// Finds the first script that is present. `dirs` are the directories of the
/// interpreters and `present` says in which of them the script is.
pub fn choose_script(
    dirs: &Vec<Option<String>>,
    present: &Vec<bool>,
    name: &str,
    windows: bool,
) -> (res: Option<String>)
    requires
        present@.len() == dirs@.len(),
    ensures
        opt_text(res) == first_script(opt_texts(dirs@), present@, name@, windows),
{
    let ghost all = opt_texts(dirs@);
    let mut i: usize = 0;
    assert(all.skip(0) =~= all);
    assert(present@.skip(0) =~= present@);
    while i < dirs.len()
        invariant
            i <= dirs@.len(),
            all == opt_texts(dirs@),
            present@.len() == dirs@.len(),
            first_script(all, present@, name@, windows) == first_script(
                all.skip(i as int),
                present@.skip(i as int),
                name@,
                windows,
            ),
        decreases dirs@.len() - i,
    {
        assert(all.skip(i as int)[0] == opt_text(dirs@[i as int]));
        if present[i] {
            if let Some(dir) = &dirs[i] {
                return Some(script_path(dir.as_str(), name, windows));
            }
        }
        assert(all.skip(i as int).drop_first() =~= all.skip(i + 1));
        assert(present@.skip(i as int).drop_first() =~= present@.skip(i + 1));
        i += 1;
    }
    None
}

/// Writes the file of a script in a directory of programs.
fn script_path(dir: &str, name: &str, windows: bool) -> (res: String)
    ensures
        res@ == script_in(dir@, name@, windows),
{
    if windows {
        let mut file = name.to_owned();
        file.append(".exe");
        join_path(dir, file.as_str(), windows)
    } else {
        join_path(dir, name, windows)
    }
}

/// The directories of the interpreters.
pub open spec fn are_parents(dirs: Seq<Option<Seq<char>>>, candidates: Seq<Seq<char>>) -> bool {
    &&& dirs.len() == candidates.len()
    &&& forall|i: int| 0 <= i < dirs.len() ==> may_be_parent(#[trigger] dirs[i], candidates[i])
}

/// `present` says in which of the directories the disk has the script.
pub open spec fn scripts_seen(
    dirs: Seq<Option<Seq<char>>>,
    present: Seq<bool>,
    name: Seq<char>,
    windows: bool,
) -> bool {
    &&& present.len() == dirs.len()
    &&& forall|i: int|
        0 <= i < dirs.len() && dirs[i] is Some ==> seen(
            script_in(dirs[i]->0, name, windows),
            #[trigger] present[i],
        )
}

/// Locates an executable installed beside an interpreter, such as `whisper`,
/// falling back to the search path. `runs` starts a program by its name and
/// answers whether it works.
pub fn find_venv_script(
    candidates: &Vec<String>,
    name: &str,
    windows: bool,
    runs: impl Fn(&str) -> bool,
) -> (res: Option<String>)
    requires
        call_requires(runs, (name,)),
    ensures
        exists|dirs: Seq<Option<Seq<char>>>, present: Seq<bool>|
            {
                &&& are_parents(dirs, texts(candidates@))
                &&& scripts_seen(dirs, present, name@, windows)
                &&& match #[trigger] first_script(dirs, present, name@, windows) {
                    Some(script) => opt_text(res) == Some(script),
                    None => {
                        ||| opt_text(res) == Some(name@) && call_ensures(runs, (name,), true)
                        ||| res is None && call_ensures(runs, (name,), false)
                    },
                }
            },
{
    let mut dirs: Vec<Option<String>> = Vec::new();
    let mut present: Vec<bool> = Vec::new();
    let mut i: usize = 0;
    while i < candidates.len()
        invariant
            i <= candidates@.len(),
            dirs@.len() == i,
            present@.len() == i,
            forall|k: int|
                0 <= k < i ==> may_be_parent(opt_text(#[trigger] dirs@[k]), candidates@[k]@),
            forall|k: int|
                0 <= k < i && opt_text(dirs@[k]) is Some ==> seen(
                    script_in(opt_text(dirs@[k])->0, name@, windows),
                    #[trigger] present@[k],
                ),
        decreases candidates@.len() - i,
    {
        let dir = find_parent(candidates[i].as_str());
        let there = match &dir {
            Some(d) => {
                let script = script_path(d.as_str(), name, windows);
                look(script.as_str())
            },
            None => false,
        };
        dirs.push(dir);
        present.push(there);
        i += 1;
    }
    let ghost all = opt_texts(dirs@);
    assert forall|k: int| 0 <= k < all.len() implies may_be_parent(
        #[trigger] all[k],
        texts(candidates@)[k],
    ) by {
        assert(all[k] == opt_text(dirs@[k]));
    }
    assert(are_parents(all, texts(candidates@)));
    assert(scripts_seen(all, present@, name@, windows)) by {
        assert forall|k: int| 0 <= k < all.len() && all[k] is Some implies seen(
            script_in(all[k]->0, name@, windows),
            #[trigger] present@[k],
        ) by {
            assert(all[k] == opt_text(dirs@[k]));
        }
    }
    let found = choose_script(&dirs, &present, name, windows);
    assert(opt_text(found) == first_script(all, present@, name@, windows));
    match found {
        Some(script) => Some(script),
        None => if runs(name) {
            Some(name.to_owned())
        } else {
            None
        },
    }
}

/// Removing runs keeps the first and the last item.
proof fn lemma_without_runs(list: Seq<Seq<char>>)
    ensures
        list.len() > 0 ==> without_runs(list).len() > 0 && without_runs(list)[0] == list[0]
            && without_runs(list).last() == list.last(),
        forall|i: int|
            0 <= i < without_runs(list).len() - 1 ==> #[trigger] without_runs(list)[i]
                != without_runs(list)[i + 1],
    decreases list.len(),
{
    if list.len() > 1 {
        lemma_without_runs(list.drop_last());
    }
}

/// Where the user names an interpreter, it is tried first.
pub proof fn law_explicit_first(
    explicit: Seq<char>,
    roots: Seq<Seq<char>>,
    present: Seq<bool>,
    windows: bool,
)
    requires
        !is_blank(explicit),
    ensures
        interpreters(Some(explicit), roots, present, windows).len() > 0,
        interpreters(Some(explicit), roots, present, windows)[0] == trimmed(explicit),
{
    let all = named_interpreter(Some(explicit)) + present_of(venv_paths(roots, windows), present)
        + names_on_path(windows);
    lemma_without_runs(all);
}

/// No interpreter is tried twice in a row.
pub proof fn law_no_run(
    explicit: Option<Seq<char>>,
    roots: Seq<Seq<char>>,
    present: Seq<bool>,
    windows: bool,
)
    ensures
        forall|i: int|
            0 <= i < interpreters(explicit, roots, present, windows).len() - 1
                ==> #[trigger] interpreters(explicit, roots, present, windows)[i] != interpreters(
                explicit,
                roots,
                present,
                windows,
            )[i + 1],
{
    lemma_without_runs(
        named_interpreter(explicit) + present_of(venv_paths(roots, windows), present)
            + names_on_path(windows),
    );
}

/// What the user names and what the virtual environments offer is tried before
/// the names on the search path, and those come last.
pub proof fn law_path_last(
    explicit: Option<Seq<char>>,
    roots: Seq<Seq<char>>,
    present: Seq<bool>,
    windows: bool,
)
    ensures
        ({
            let own = named_interpreter(explicit) + present_of(venv_paths(roots, windows), present);
            let names = names_on_path(windows);
            interpreters(explicit, roots, present, windows) == without_runs(own) + if own.len() > 0
                && own.last() == names[0] {
                names.skip(1)
            } else {
                names
            }
        }),
{
    let own = named_interpreter(explicit) + present_of(venv_paths(roots, windows), present);
    let names = names_on_path(windows);
    reveal_strlit("python");
    reveal_strlit("py");
    reveal_strlit("python3");
    assert("python"@.len() == 6 && "py"@.len() == 2 && "python3"@.len() == 7);
    let one = own.push(names[0]);
    assert(one.drop_last() =~= own);
    let two = one.push(names[1]);
    assert(two.drop_last() =~= one);
    if own.len() > 0 && own.last() == names[0] {
        assert(without_runs(one) == without_runs(own));
    } else if own.len() == 0 {
        assert(without_runs(own) =~= own);
        assert(without_runs(one) =~= without_runs(own).push(names[0]));
    } else {
        assert(without_runs(one) == without_runs(own).push(names[0]));
    }
    assert(without_runs(two) == without_runs(one).push(names[1]));
    if windows {
        let three = two.push(names[2]);
        assert(three.drop_last() =~= two);
        assert(without_runs(three) == without_runs(two).push(names[2]));
        assert(own + names =~= three);
    } else {
        assert(own + names =~= two);
    }
    let tail = if own.len() > 0 && own.last() == names[0] {
        names.skip(1)
    } else {
        names
    };
    assert(without_runs(own + names) =~= without_runs(own) + tail);
}

/// Where an interpreter stands in a virtual environment, and what it is called on
/// the search path, most wanted first.
pub proof fn law_names()
    ensures
        venv_names(false) == (".venv/bin/python"@, "venv/bin/python"@),
        venv_names(true) == (".venv/Scripts/python.exe"@, "venv/Scripts/python.exe"@),
        names_on_path(false) == seq!["python3"@, "python"@],
        names_on_path(true) == seq!["python"@, "py"@, "python3"@],
{
}

/// Root `i` gives the two interpreters of its virtual environments, in order.
pub proof fn law_venv_paths(roots: Seq<Seq<char>>, windows: bool, i: int)
    requires
        0 <= i < roots.len(),
    ensures
        venv_paths(roots, windows).len() == 2 * roots.len(),
        venv_paths(roots, windows)[2 * i] == under(roots[i], venv_names(windows).0, windows),
        venv_paths(roots, windows)[2 * i + 1] == under(roots[i], venv_names(windows).1, windows),
    decreases roots.len(),
{
    let rest = roots.drop_last();
    if rest.len() == 0 {
        assert(venv_paths(rest, windows).len() == 0);
    } else if i < rest.len() {
        law_venv_paths(rest, windows, i);
    } else {
        law_venv_paths(rest, windows, 0);
    }
}

/// Of two lists that run in step, the paths that are there remain, each in its
/// place.
pub proof fn law_present(paths: Seq<Seq<char>>, present: Seq<bool>, path: Seq<char>, there: bool)
    requires
        present.len() == paths.len(),
    ensures
        present_of(Seq::empty(), Seq::empty()) == Seq::<Seq<char>>::empty(),
        present_of(paths.push(path), present.push(there)) == if there {
            present_of(paths, present).push(path)
        } else {
            present_of(paths, present)
        },
{
    assert(paths.push(path).drop_last() =~= paths);
    assert(present.push(there).drop_last() =~= present);
}

/// Of a run of equal names one remains, and everything else stays.
pub proof fn law_without_runs(list: Seq<Seq<char>>, name: Seq<char>)
    ensures
        without_runs(Seq::empty()) == Seq::<Seq<char>>::empty(),
        without_runs(seq![name]) == seq![name],
        list.len() > 0 && list.last() == name ==> without_runs(list.push(name)) == without_runs(list),
        list.len() > 0 && list.last() != name ==> without_runs(list.push(name)) == without_runs(
            list,
        ).push(name),
{
    assert(list.push(name).drop_last() =~= list);
}

/// No name is lost with a run.
proof fn lemma_runs_hold(list: Seq<Seq<char>>, i: int)
    requires
        0 <= i < list.len(),
    ensures
        without_runs(list).contains(list[i]),
    decreases list.len(),
{
    let kept = without_runs(list);
    if list.len() == 1 {
        assert(kept[i] == list[i]);
    } else {
        let rest = list.drop_last();
        let before = without_runs(rest);
        if i < rest.len() {
            lemma_runs_hold(rest, i);
            let m = choose|m: int| 0 <= m < before.len() && before[m] == rest[i];
            assert(kept[m] == list[i]);
        } else if list.last() == list[list.len() - 2] {
            lemma_runs_hold(rest, rest.len() - 1);
            let m = choose|m: int| 0 <= m < before.len() && before[m] == rest[rest.len() - 1];
            assert(kept[m] == list[i]);
        } else {
            assert(kept[kept.len() - 1] == list[i]);
        }
    }
}

/// Every interpreter that is named, that is there in a virtual environment or
/// that has a usual name is a candidate.
pub proof fn law_all_interpreters(
    explicit: Option<Seq<char>>,
    roots: Seq<Seq<char>>,
    present: Seq<bool>,
    windows: bool,
    i: int,
)
    requires
        present.len() == 2 * roots.len(),
        0 <= i < venv_paths(roots, windows).len(),
        venv_paths(roots, windows).len() == present.len(),
    ensures
        explicit matches Some(v) ==> !is_blank(v) ==> interpreters(
            explicit,
            roots,
            present,
            windows,
        ).contains(trimmed(v)),
        present[i] ==> interpreters(explicit, roots, present, windows).contains(
            venv_paths(roots, windows)[i],
        ),
        forall|k: int|
            0 <= k < names_on_path(windows).len() ==> interpreters(
                explicit,
                roots,
                present,
                windows,
            ).contains(#[trigger] names_on_path(windows)[k]),
{
    let named = named_interpreter(explicit);
    let paths = venv_paths(roots, windows);
    let here = present_of(paths, present);
    let names = names_on_path(windows);
    let all = named + here + names;
    if let Some(v) = explicit {
        if !is_blank(v) {
            assert(all[0] == trimmed(v));
            lemma_runs_hold(all, 0);
        }
    }
    if present[i] {
        lemma_present_holds(paths, present, i);
        let m = choose|m: int| 0 <= m < here.len() && here[m] == paths[i];
        assert(all[named.len() + m] == paths[i]);
        lemma_runs_hold(all, named.len() + m);
    }
    assert forall|k: int| 0 <= k < names.len() implies interpreters(
        explicit,
        roots,
        present,
        windows,
    ).contains(#[trigger] names[k]) by {
        assert(all[named.len() + here.len() + k] == names[k]);
        lemma_runs_hold(all, (named.len() + here.len() + k) as int);
    }
}

/// A path that is there remains.
proof fn lemma_present_holds(paths: Seq<Seq<char>>, present: Seq<bool>, i: int)
    requires
        present.len() == paths.len(),
        0 <= i < paths.len(),
        present[i],
    ensures
        present_of(paths, present).contains(paths[i]),
    decreases paths.len(),
{
    let kept = present_of(paths, present);
    if i == paths.len() - 1 {
        assert(kept[kept.len() - 1] == paths[i]);
    } else {
        lemma_present_holds(paths.drop_last(), present.drop_last(), i);
        let before = present_of(paths.drop_last(), present.drop_last());
        let m = choose|m: int| 0 <= m < before.len() && before[m] == paths[i];
        assert(kept[m] == paths[i]);
    }
}

/// Virtual environments are looked for in the six directories above the program,
/// then in the current one, then under the home directory.
pub proof fn law_roots(above: Seq<Seq<char>>, dir: Seq<char>, home: Seq<char>, windows: bool)
    ensures
        ({
            let near = above.take(
                if above.len() < 6 {
                    above.len() as int
                } else {
                    6
                },
            );
            let own = under(home, "autoshorts"@, windows);
            &&& roots_of(above, None, None, windows) == near
            &&& roots_of(above, Some(dir), None, windows) == near + seq![dir]
            &&& roots_of(above, None, Some(home), windows) == near + seq![own]
            &&& roots_of(above, Some(dir), Some(home), windows) == near + seq![dir, own]
        }),
{
    if above.len() < 6 {
        assert(above.take(above.len() as int) =~= above);
    }
    let near = above.take(
        if above.len() < 6 {
            above.len() as int
        } else {
            6
        },
    );
    let own = under(home, "autoshorts"@, windows);
    assert(near.push(dir) =~= near + seq![dir]);
    assert(near.push(own) =~= near + seq![own]);
    assert(near.push(dir).push(own) =~= near + seq![dir, own]);
}

/// A script stands in its directory under its own name, with the ending of a
/// program on Windows.
pub proof fn law_script(dir: Seq<char>, name: Seq<char>)
    ensures
        script_in(dir, name, false) == under(dir, name, false),
        script_in(dir, name, true) == under(dir, name + ".exe"@, true),
{
}

/// The script is that of the first directory that has it.
pub proof fn law_first_script(
    dirs: Seq<Option<Seq<char>>>,
    present: Seq<bool>,
    name: Seq<char>,
    windows: bool,
    i: int,
)
    requires
        present.len() == dirs.len(),
        0 <= i <= dirs.len(),
        forall|k: int| 0 <= k < i ==> (#[trigger] dirs[k]) is None || !present[k],
        i < dirs.len() ==> dirs[i] is Some && present[i],
    ensures
        first_script(dirs, present, name, windows) == if i < dirs.len() {
            Some(script_in(dirs[i]->0, name, windows))
        } else {
            None
        },
    decreases dirs.len(),
{
    if i > 0 {
        assert(dirs[0] is None || !present[0]);
        let rest = dirs.drop_first();
        let there = present.drop_first();
        assert forall|k: int| 0 <= k < i - 1 implies (#[trigger] rest[k]) is None || !there[k] by {
            assert(rest[k] == dirs[k + 1] && there[k] == present[k + 1]);
        }
        law_first_script(rest, there, name, windows, i - 1);
    }
}

/// A list of optional texts stands for what each of them holds.
pub proof fn law_opt_texts(v: Seq<Option<String>>)
    ensures
        opt_texts(v).len() == v.len(),
        forall|i: int| 0 <= i < v.len() ==> #[trigger] opt_texts(v)[i] == opt_text(v[i]),
{
}

/// The directories are those of the candidates, one for one, and a script was
/// looked for in each.
pub proof fn law_looked_for_scripts(
    dirs: Seq<Option<Seq<char>>>,
    candidates: Seq<Seq<char>>,
    present: Seq<bool>,
    name: Seq<char>,
    windows: bool,
    i: int,
)
    requires
        are_parents(dirs, candidates),
        scripts_seen(dirs, present, name, windows),
        0 <= i < candidates.len(),
    ensures
        dirs.len() == candidates.len() && present.len() == candidates.len(),
        may_be_parent(dirs[i], candidates[i]),
        dirs[i] matches Some(dir) ==> seen(script_in(dir, name, windows), present[i]),
{
    assert(may_be_parent(dirs[i], candidates[i]));
    if dirs[i] is Some {
        assert(seen(script_in(dirs[i]->0, name, windows), present[i]));
    }
}

} // verus!
