//! Which interpreters are tried.

use autoshorts::paths::{assets_root, choose_dir, join_path, which_exist};
use autoshorts::pyenv::{
    candidates, candidates_from, choose_script, find_any, find_venv_script, find_with_module,
    has_module, roots_with_home, search_roots, venv_interpreters,
};

fn list(items: &[&str]) -> Vec<String> {
    items.iter().map(|s| s.to_string()).collect()
}

#[test]
fn candidate_list_prefers_venv_over_path() {
    let all = candidates(None, &search_roots(&list(&["/usr/bin", "/usr", "/"]), Some("/tmp"), false), false);
    let venv_idx = all.iter().position(|c| c.contains(".venv"));
    let path_idx = all.iter().position(|c| c == "python3" || c == "python");
    if let (Some(v), Some(p)) = (venv_idx, path_idx) {
        assert!(v < p, "venv interpreter must be probed before bare PATH python");
    }
    assert!(path_idx.is_some());
}

#[test]
fn an_explicit_interpreter_comes_first() {
    let roots = list(&["/a", "/b/"]);
    let present = vec![false, true, true, false];
    assert_eq!(
        candidates_from(Some(" /my/python "), &roots, &present, false),
        vec!["/my/python", "/a/venv/bin/python", "/b/.venv/bin/python", "python3", "python"]
    );
    assert_eq!(
        candidates_from(Some("  "), &roots, &vec![false; 4], false),
        vec!["python3", "python"]
    );
    assert_eq!(
        candidates_from(None, &roots, &vec![false, false, false, true], true),
        vec!["/b/venv/Scripts/python.exe", "python", "py", "python3"]
    );
}

#[test]
fn runs_of_equal_interpreters_are_tried_once() {
    let roots = list(&["/a", "/a"]);
    assert_eq!(
        candidates_from(Some("python3"), &Vec::new(), &Vec::new(), false),
        vec!["python3", "python"]
    );
    assert_eq!(
        candidates_from(None, &roots, &vec![true, false, true, false], false),
        vec!["/a/.venv/bin/python", "python3", "python"]
    );
    assert_eq!(
        venv_interpreters(&list(&["/a"]), false),
        vec!["/a/.venv/bin/python", "/a/venv/bin/python"]
    );
}

#[test]
fn six_levels_above_the_program_are_searched() {
    let above = list(&["/1", "/2", "/3", "/4", "/5", "/6", "/7"]);
    assert_eq!(
        roots_with_home(&above, Some("/here"), Some("/home/u".to_string()), false),
        vec!["/1", "/2", "/3", "/4", "/5", "/6", "/here", "/home/u/autoshorts"]
    );
    assert_eq!(roots_with_home(&list(&["/1"]), None, None, false), vec!["/1"]);
    let roots = search_roots(&list(&["/1"]), None, false);
    assert_eq!(roots[0], "/1");
    assert!(roots.len() == 1 || roots[1].ends_with("/autoshorts"));
}

#[test]
fn the_first_interpreter_with_the_module_is_found() {
    let all = list(&["a", "b", "c"]);
    let imports = |c: &String, m: &str| m == "PIL" && c != "a";
    assert_eq!(find_with_module(&all, "PIL", imports).as_deref(), Some("b"));
    assert_eq!(find_with_module(&all, "cv2", imports), None);
    assert!(has_module(&all, "PIL", imports));
    assert!(!has_module(&Vec::new(), "PIL", imports));
    assert_eq!(find_any(&all, |c: &String| c == "c").as_deref(), Some("c"));
    assert_eq!(find_any(&all, |_c: &String| false), None);
}

#[test]
fn a_script_is_found_beside_its_interpreter() {
    let dirs = vec![Some("/a/bin".to_string()), None, Some(String::new())];
    assert_eq!(
        choose_script(&dirs, &vec![true, true, true], "whisper", false).as_deref(),
        Some("/a/bin/whisper")
    );
    assert_eq!(
        choose_script(&dirs, &vec![false, true, true], "whisper", true).as_deref(),
        Some("whisper.exe")
    );
    assert_eq!(choose_script(&dirs, &vec![false, true, false], "whisper", false), None);
}

#[test]
fn a_script_is_looked_for_on_disk_then_on_the_path() {
    // The parent of "/usr/python" is "/usr", which holds "bin".
    let all = list(&["python3", "/usr/python"]);
    assert_eq!(
        find_venv_script(&all, "bin", false, |_n: &str| false).as_deref(),
        Some("/usr/bin")
    );
    assert_eq!(
        find_venv_script(&all, "no-such-script", false, |n: &str| n == "no-such-script").as_deref(),
        Some("no-such-script")
    );
    assert_eq!(find_venv_script(&all, "no-such-script", false, |_n: &str| false), None);
}

#[test]
fn known_directories_come_before_the_temporary_one() {
    assert_eq!(choose_dir(Some("/l".to_string()), Some("/d".to_string()), "/t"), "/l");
    assert_eq!(choose_dir(None, Some("/d".to_string()), "/t"), "/d");
    assert_eq!(choose_dir(None, None, "/t"), "/t");
    assert!(!assets_root("/t").is_empty());
    assert_eq!(join_path("/a", "b/c", false), "/a/b/c");
    assert_eq!(join_path("/", "b", false), "/b");
    assert_eq!(join_path("", "b", false), "b");
    assert_eq!(join_path("/a", "/b", false), "/b");
    assert_eq!(join_path("/a", "", false), "/a/");
    for dir in ["", "a", "a/", "/", "/a", "C:", "a\\"] {
        for rest in ["", "b", "b/c", "/b", "C:b"] {
            let joined = std::path::Path::new(dir).join(rest);
            assert_eq!(join_path(dir, rest, false), joined.to_string_lossy());
        }
    }
    assert_eq!(join_path("C:\\a", "b/c", true), "C:\\a\\b/c");
    assert_eq!(join_path("C:\\a\\", "b", true), "C:\\a\\b");
    assert_eq!(join_path("C:", "b", true), "C:b");
    assert_eq!(join_path("C:\\a", "\\b", true), "C:\\b");
    assert_eq!(join_path("C:\\a", "D:\\b", true), "D:\\b");
    assert_eq!(join_path("a", "b", true), "a\\b");
    assert_eq!(which_exist(&vec!["/".to_string(), "/nope/x".to_string()]), [true, false]);
}
