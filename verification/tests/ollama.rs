//! Pulling models and installing Ollama.

use autoshorts::json::{parse_json, Json};
use autoshorts::ollama::{
    begin_install, brew_found, brewed, downloaded, find_brew, moved, moved_home, opened, polled,
    pull_refusal, pull_request, read_report, take_chunk, unzipped, Fetched, HomeMove, InstallStep,
    Launch, Ran, Turn,
};

#[test]
fn reports_are_read_line_by_line() {
    let mut buffer = String::new();
    let batch = take_chunk(&mut buffer, "{\"status\":\"pulling manifest\"}\n\n  \nnot json\n{\"sta");
    assert_eq!(batch.updates.len(), 1);
    assert_eq!(batch.updates[0].status, "pulling manifest");
    assert_eq!(batch.failure, None);
    assert_eq!(buffer, "{\"sta");
    let batch = take_chunk(
        &mut buffer,
        "tus\":\"downloading abc\",\"completed\":52428800,\"total\":209715200}\n",
    );
    assert_eq!(batch.updates.len(), 1);
    assert_eq!(batch.updates[0].status, "Downloading weights: 50.0 MB / 200.0 MB");
    assert_eq!(batch.updates[0].completed, Some(52_428_800));
    assert_eq!(batch.updates[0].total, Some(209_715_200));
    assert_eq!(batch.updates[0].percentage, Some(25_000_000_000));
    assert_eq!(buffer, "");
}

#[test]
fn a_failure_ends_the_pull() {
    let mut buffer = String::new();
    let batch = take_chunk(
        &mut buffer,
        "{\"status\":\"a\"}\n{\"error\":\"no such model\"}\n{\"status\":\"b\"}\n",
    );
    assert_eq!(batch.updates.len(), 1);
    assert_eq!(batch.failure.as_deref(), Some("no such model"));
}

#[test]
fn parts_report_what_the_whole_does() {
    let whole = "{\"status\":\"a\"}\n{\"status\":\"b\"}\n{\"st";
    for cut in 0..whole.len() {
        let mut buffer = String::new();
        let mut seen: Vec<String> = Vec::new();
        for part in [&whole[..cut], &whole[cut..]] {
            let batch = take_chunk(&mut buffer, part);
            seen.extend(batch.updates.into_iter().map(|p| p.status));
        }
        assert_eq!(seen, vec!["a", "b"]);
        assert_eq!(buffer, "{\"st");
    }
}

#[test]
fn a_report_without_sizes_has_no_percentage() {
    let of = |text: &str| read_report(&parse_json(text).expect("json"));
    let p = of("{\"status\":\"downloading x\",\"completed\":5}").expect("report");
    assert_eq!(p.status, "Downloading model components...");
    assert_eq!(p.percentage, None);
    let p = of("{\"status\":\"downloading x\",\"completed\":1572864,\"total\":104857600}")
        .expect("report");
    assert_eq!(p.status, "Downloading model components: 1.5 MB / 100.0 MB");
    let p = of("{\"completed\":0,\"total\":0}").expect("report");
    assert_eq!(p.status, "Downloading...");
    assert_eq!(p.percentage, None);
    assert_eq!(of("{\"error\":\"e\"}").expect_err("failure"), "e");
}

#[test]
fn the_pull_request_streams() {
    let body = pull_request("llama3.2");
    assert_eq!(body.text_at("name"), Some("llama3.2"));
    assert!(matches!(body.get("stream"), Some(Json::Boolean(true))));
    assert_eq!(pull_refusal("404", "x"), "Ollama pull returned status 404: x");
}

fn failure(turn: Turn) -> String {
    match turn.step {
        InstallStep::Fail(m) => m,
        other => panic!("{other:?}"),
    }
}

const NOT_STARTED: &str = "Ollama installed but could not be automatically started. Please open Ollama from your Applications folder.";

#[test]
fn an_app_that_is_there_is_opened_and_waited_for() {
    let turn = begin_install();
    assert_eq!(turn.say.as_deref(), Some("Checking if Ollama is already installed..."));
    assert!(matches!(turn.step, InstallStep::Open(Launch::First)));
    let turn = opened(Launch::First, true, true);
    assert_eq!(turn.say.as_deref(), Some("Ollama is installed. Launching..."));
    let mut left = match turn.step {
        InstallStep::Poll(Launch::First, n) => n,
        other => panic!("{other:?}"),
    };
    assert_eq!(left, 12);
    let mut polls = 0;
    loop {
        polls += 1;
        match polled(Launch::First, left, false).step {
            InstallStep::Poll(Launch::First, n) => left = n,
            InstallStep::FindBrew => break,
            other => panic!("{other:?}"),
        }
    }
    assert_eq!(polls, 12);
    let turn = polled(Launch::First, 3, true);
    assert_eq!(turn.say.as_deref(), Some("Ollama started successfully!"));
    assert!(matches!(turn.step, InstallStep::Done));
    assert!(matches!(opened(Launch::First, true, false).step, InstallStep::FindBrew));
    assert!(matches!(opened(Launch::First, false, false).step, InstallStep::FindBrew));
}

#[test]
fn homebrew_is_used_where_it_is() {
    let brew = |arm: bool, intel: bool| brew_found(arm, intel).step;
    assert!(matches!(brew(true, true), InstallStep::Brew(p) if p == "/opt/homebrew/bin/brew"));
    assert!(matches!(brew(false, true), InstallStep::Brew(p) if p == "/usr/local/bin/brew"));
    assert!(matches!(brew(false, false), InstallStep::Download));
    assert!(matches!(find_brew().step, InstallStep::Brew(_) | InstallStep::Download));
    assert_eq!(
        failure(brewed(&Ran::NotRun("e".to_string()))),
        "Failed to run brew command: e"
    );
    assert_eq!(failure(brewed(&Ran::Failed("e".to_string()))), "Brew install failed: e");
    for ran in [Ran::Succeeded, Ran::Failed("ollama is already installed".to_string())] {
        let turn = brewed(&ran);
        assert_eq!(turn.say.as_deref(), Some("Starting Ollama.app..."));
        assert!(matches!(turn.step, InstallStep::Open(Launch::AfterBrew)));
    }
    assert!(matches!(opened(Launch::AfterBrew, true, true).step, InstallStep::Poll(_, 12)));
    let turn = opened(Launch::AfterBrew, true, false);
    assert_eq!(turn.say.as_deref(), Some("Downloading Ollama zip from official source..."));
    assert!(matches!(turn.step, InstallStep::Download));
    assert!(matches!(polled(Launch::AfterBrew, 1, false).step, InstallStep::Download));
}

#[test]
fn a_download_is_unpacked_and_moved() {
    let e = || "e".to_string();
    assert!(matches!(downloaded(&Fetched::Stored).step, InstallStep::Unzip));
    assert_eq!(failure(downloaded(&Fetched::NotFetched(e()))), "Failed to download Ollama: e");
    assert_eq!(failure(downloaded(&Fetched::NotRead(e()))), "Failed to read Ollama bytes: e");
    assert_eq!(failure(downloaded(&Fetched::NotSaved(e()))), "Failed to save Ollama zip: e");
    assert!(matches!(unzipped(&Ran::Succeeded).step, InstallStep::Move));
    assert_eq!(failure(unzipped(&Ran::NotRun(e()))), "Failed to unzip Ollama: e");
    assert_eq!(failure(unzipped(&Ran::Failed(e()))), "Failed to unzip: e");
    assert!(matches!(moved(&Ran::Succeeded).step, InstallStep::Open(Launch::Last)));
    assert_eq!(failure(moved(&Ran::NotRun(e()))), "Failed to move Ollama to Applications: e");
    assert!(matches!(moved(&Ran::Failed(e())).step, InstallStep::MoveHome));
    assert_eq!(failure(moved_home(&HomeMove::NoHome)), "Could not find home directory");
    assert_eq!(
        failure(moved_home(&HomeMove::NoFolder(e()))),
        "Failed to create ~/Applications: e"
    );
    assert_eq!(
        failure(moved_home(&HomeMove::Tried(Ran::NotRun(e())))),
        "Failed to move Ollama to ~/Applications: e"
    );
    assert_eq!(
        failure(moved_home(&HomeMove::Tried(Ran::Failed(e())))),
        "Failed to install Ollama to Applications folder: e"
    );
    let turn = moved_home(&HomeMove::Tried(Ran::Succeeded));
    assert_eq!(turn.say.as_deref(), Some("Starting Ollama..."));
    assert!(matches!(turn.step, InstallStep::Open(Launch::Last)));
}

#[test]
fn the_last_launch_is_waited_for_in_any_case() {
    assert!(matches!(opened(Launch::Last, true, false).step, InstallStep::Poll(_, 12)));
    assert_eq!(failure(opened(Launch::Last, false, false)), NOT_STARTED);
    assert_eq!(failure(polled(Launch::Last, 1, false)), NOT_STARTED);
}
