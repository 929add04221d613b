//! Reading the batch's log.

use autoshorts::progress::{batch_is_running, log_path, read};

#[test]
fn progress_reports_a_log_path_even_with_no_log() {
    // The UI shows the path so a stuck run can be inspected; it must be
    // present whether or not a batch has ever run.
    assert!(read(false, &log_path("/tmp", false), None).log_path.ends_with("finish_all.log"));
    assert!(log_path("/tmp", false).ends_with("/broll-work/finish_all.log"));
}

const LOG: &str = "=== batch pass 2 of 3 ===\n\
PROJECT 1234abcd (talk (final).mp4): 12 candidate(s)\n\
  SKIP 1234abcd#1: already rendered\n\
[broll] planning\n\
  TITLE 1234abcd#2: Bagels Beat Muffins\n\
  DONE 1234abcd#2: /out/clips/clip-02.mp4\n\
  FAIL 1234abcd#3 cut: no\n\
\u{a0}DONE 1234abcd#4: nothing\r\n\
[sfx] mixing\n";

#[test]
fn a_log_is_counted_and_its_last_mentions_shown() {
    let p = read(true, "/l", Some(LOG));
    assert!(p.running);
    assert_eq!((p.done, p.skipped, p.failed), (2, 1, 1));
    assert_eq!(p.current_project.as_deref(), Some("talk (final).mp4"));
    assert_eq!(p.current_total, Some(12));
    assert_eq!(p.current_step.as_deref(), Some("[sfx] mixing"));
    assert_eq!(p.last_done.as_deref(), Some("DONE 1234abcd#4: nothing"));
    assert_eq!(p.pass.as_deref(), Some("2"));
    assert_eq!(p.log_path, "/l");
}

#[test]
fn an_idle_batch_has_no_step_in_flight() {
    let p = read(false, "/l", Some(LOG));
    assert!(!p.running);
    assert_eq!(p.current_step, None);
    assert_eq!(p.done, 2);
    let p = read(true, "/l", Some("TITLE x: y\nDONE a/b/c.mp4"));
    assert_eq!(p.current_step.as_deref(), Some("titling: x: y"));
    assert_eq!(p.last_done.as_deref(), Some("c.mp4"));
}

#[test]
fn later_lines_replace_what_is_current() {
    let p = read(true, "/l", Some("PROJECT a (x.mp4): +7 c\nPROJECT b (): many"));
    assert_eq!(p.current_project.as_deref(), Some("x.mp4"));
    assert_eq!(p.current_total, None);
    let p = read(true, "/l", Some("=== batch pass 1\n=== batch pass  "));
    assert_eq!(p.pass, None);
    let p = read(true, "/l", Some("PROJECT a b: +7 c"));
    assert_eq!(p.current_project, None);
    assert_eq!(p.current_total, Some(7));
}

#[test]
fn a_file_name_keeps_its_brackets() {
    let shown = |log: &str| {
        let p = read(true, "/l", Some(log));
        (p.current_project, p.current_total)
    };
    let (file, total) = shown("PROJECT ab12cd34 (Talk (1).mp4): 7 candidate(s)\n");
    assert_eq!(file.as_deref(), Some("Talk (1).mp4"));
    assert_eq!(total, Some(7));
    let (file, total) = shown("PROJECT ab12cd34 (part 1): the (end)): 0 candidate(s)");
    assert_eq!(file.as_deref(), Some("part 1): the (end)"));
    assert_eq!(total, Some(0));
    assert_eq!(shown("PROJECT ab12cd34 (x.mp4)").0.as_deref(), Some("x.mp4"));
}

#[test]
fn either_runner_counts_as_a_batch() {
    assert!(batch_is_running(|name: &str| name == "retitle_all"));
    assert!(batch_is_running(|name: &str| name == "render_parallel"));
    assert!(!batch_is_running(|name: &str| name == "something else"));
}
