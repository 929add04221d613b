//! Headlines.

use autoshorts::sidecar::Exit;
use autoshorts::title::{
    apply, available, banner_args, fallback_title, title_credential, title_prompt, write_title,
};

#[test]
fn fallback_keeps_the_opening_words() {
    let t = fallback_title(
        "Ultra-processed foods trigger an addictive response so powerful that people cannot stop",
        None,
    );
    assert!(t.split_whitespace().count() <= 6, "{t}");
    assert!(t.starts_with("Ultra-processed"), "{t}");
    assert_eq!(t, "Ultra-processed foods trigger an addictive response");
}

#[test]
fn fallback_handles_an_empty_hook() {
    assert_eq!(fallback_title("   ", Some("SafeChoice")), "SafeChoice");
    assert_eq!(fallback_title("", None), "Watch This");
}

#[test]
fn fallback_strips_leading_punctuation_and_trailing_commas() {
    let t = fallback_title("\"So, here is the thing,", None);
    assert!(!t.starts_with('"'), "{t}");
    assert!(!t.ends_with(','), "{t}");
    assert_eq!(t, "So, here is the thing");
}

#[test]
fn letters_of_every_script_begin_a_headline() {
    assert_eq!(fallback_title("…«Éclairs» sind gut.", None), "Éclairs» sind gut");
    assert_eq!(fallback_title("\u{a0}— 水は大切;:", None), "水は大切");
}

#[test]
fn a_headline_loses_its_quotes_and_its_stop() {
    assert_eq!(write_title(Some("\n  \"Bagels Beat Muffins!\"  \nmore"), "hook"), "Bagels Beat Muffins");
    assert_eq!(write_title(Some("**Kraft Bought Cadbury.**"), "hook"), "Kraft Bought Cadbury");
}

#[test]
fn an_unusable_reply_leaves_the_hook() {
    let hook = "Sugar hides in bread, everywhere you look today";
    let floor = "Sugar hides in bread, everywhere you";
    assert_eq!(write_title(None, hook), floor);
    assert_eq!(write_title(Some("  \n \n"), hook), floor);
    assert_eq!(write_title(Some("one two three four five six seven eight nine"), hook), floor);
    assert_eq!(
        write_title(Some("one two three four five six seven eight"), hook),
        "one two three four five six seven eight"
    );
}

#[test]
fn the_first_credential_that_is_not_blank_decides() {
    assert_eq!(title_credential(Some("key"), Some("token")).as_deref(), Some("key"));
    assert_eq!(title_credential(None, Some("token")).as_deref(), Some("token"));
    assert_eq!(title_credential(Some(" "), Some("token")).as_deref(), Some("token"));
    assert_eq!(title_credential(Some(" "), Some("")), None);
    assert_eq!(title_credential(None, None), None);
}

#[test]
fn the_prompt_ends_with_the_clip() {
    let p = title_prompt("they said this", "the hook");
    assert!(p.starts_with("Write the on-screen title for a short vertical video.\n\nRules:\n- 3 to 6 words."));
    assert!(p.ends_with("This clip's hook: the hook\n\nWhat is said in this clip:\nthey said this"));
}

#[test]
fn a_banner_needs_pillow() {
    let candidates = vec!["a".to_string(), "b".to_string()];
    assert!(available(&candidates, |c: &String, m: &str| c == "b" && m == "PIL"));
    assert!(!available(&candidates, |_c: &String, m: &str| m == "cv2"));
}

#[test]
fn banner_arguments() {
    assert_eq!(
        banner_args("s.py", "v.mp4", "A Title", "o.mp4", "assets"),
        vec!["s.py", "--video", "v.mp4", "--text", "A Title", "--output", "o.mp4", "--assets", "assets"]
    );
}

#[test]
fn a_failed_banner_tells_its_last_lines() {
    let failed = Exit {
        success: false,
        stdout: String::new(),
        stderr: "a\nb\nc\r\nd\ne\n".into(),
    };
    assert_eq!(apply(&failed, "/o.mp4"), Err("title overlay failed: b | c | d | e".to_string()));
    let absent = Exit { success: true, stdout: String::new(), stderr: String::new() };
    assert_eq!(
        apply(&absent, "/nope/o.mp4"),
        Err("title overlay reported success but produced no file".to_string())
    );
    let named = Exit { success: true, stdout: " / \n".into(), stderr: String::new() };
    assert_eq!(apply(&named, "/nope/o.mp4"), Ok("/".to_string()));
}
