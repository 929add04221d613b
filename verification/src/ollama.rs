//! Installing Ollama and pulling models through it.

use vstd::prelude::*;
use vstd::string::StringExecFns;
use crate::json::{json_document, member_views, parse_json, put_member, Json, JsonView};
use crate::number::{div_even, divide_even, law_div_even, nat_string, nat_text};
use crate::paths::{look, seen};
use crate::text::{
    chars_of, contains, holds_text, is_blank, lemma_position, lemma_position_concat, opt_text,
    position, starts_with, text_between, trim, trimmed,
};

verus! {

/// How far the pull of a model has come. The percentage counts billionths.
#[derive(Debug)]
pub struct PullProgress {
    pub status: String,
    pub completed: Option<u64>,
    pub total: Option<u64>,
    pub percentage: Option<u128>,
}

/// What a [`PullProgress`] says.
pub struct PullView {
    pub status: Seq<char>,
    pub completed: Option<u64>,
    pub total: Option<u64>,
    pub percentage: Option<u128>,
}

impl View for PullProgress {
    type V = PullView;

    open spec fn view(&self) -> PullView {
        PullView {
            status: self.status@,
            completed: self.completed,
            total: self.total,
            percentage: self.percentage,
        }
    }
}

/// The views of a list of progress reports.
pub open spec fn pull_views(v: Seq<PullProgress>) -> Seq<PullView> {
    v.map_values(|p: PullProgress| p@)
}

/// A number of bytes in megabytes, with one decimal.
pub open spec fn megabytes(bytes: u64) -> Seq<char> {
    let tenths = div_even((bytes * 10) as nat, 1_048_576);
    nat_text(tenths / 10) + "."@ + nat_text(tenths % 10)
}

/// Writes a number of bytes in megabytes.
fn megabytes_text(bytes: u64) -> (res: String)
    ensures
        res@ == megabytes(bytes),
{
    let tenths = divide_even(bytes as u128 * 10, 1_048_576);
    let mut s = nat_string(tenths / 10);
    s.append(".");
    let part = nat_string(tenths % 10);
    s.append(part.as_str());
    s
}

/// What is said of a download: more than a hundred megabytes are the model's
/// weights.
pub open spec fn download_status(completed: Option<u64>, total: Option<u64>) -> Seq<char> {
    match (completed, total) {
        (Some(c), Some(t)) => (if t > 104_857_600 {
            "Downloading weights: "@
        } else {
            "Downloading model components: "@
        }) + megabytes(c) + " MB / "@ + megabytes(t) + " MB"@,
        _ => "Downloading model components..."@,
    }
}

/// What is said of the pull.
pub open spec fn pull_status(status: Option<Seq<char>>, completed: Option<u64>, total: Option<u64>) -> Seq<
    char,
> {
    match status {
        Some(s) => if "downloading "@.is_prefix_of(s) {
            download_status(completed, total)
        } else {
            s
        },
        None => "Downloading..."@,
    }
}

/// The part of the total that is there, in billionths of a percent.
pub open spec fn percent(completed: Option<u64>, total: Option<u64>) -> Option<u128> {
    match (completed, total) {
        (Some(c), Some(t)) => if t > 0 {
            Some((c * 100_000_000_000 / t as int) as u128)
        } else {
            None
        },
        _ => None,
    }
}

/// What a report of Ollama says: a failure, or how far the pull has come.
pub open spec fn report(doc: JsonView) -> Result<PullView, Seq<char>> {
    match doc.text_at("error"@) {
        Some(e) => Err(e),
        None => {
            let completed = doc.natural_at("completed"@);
            let total = doc.natural_at("total"@);
            Ok(
                PullView {
                    status: pull_status(doc.text_at("status"@), completed, total),
                    completed,
                    total,
                    percentage: percent(completed, total),
                },
            )
        },
    }
}

/// Writes what is said of a download.
fn download_text(completed: Option<u64>, total: Option<u64>) -> (res: String)
    ensures
        res@ == download_status(completed, total),
{
    match (completed, total) {
        (Some(c), Some(t)) => {
            let mut s = if t > 104_857_600 {
                "Downloading weights: ".to_owned()
            } else {
                "Downloading model components: ".to_owned()
            };
            let done = megabytes_text(c);
            s.append(done.as_str());
            s.append(" MB / ");
            let all = megabytes_text(t);
            s.append(all.as_str());
            s.append(" MB");
            s
        },
        _ => "Downloading model components...".to_owned(),
    }
}

/// Reads a report of Ollama.
pub fn read_report(doc: &Json) -> (res: Result<PullProgress, String>)
    ensures
        match (res, report(doc@)) {
            (Ok(p), Ok(x)) => p@ == x,
            (Err(e), Err(x)) => e@ == x,
            _ => false,
        },
{
    if let Some(e) = doc.text_at("error") {
        return Err(e.to_owned());
    }
    let completed = doc.natural_at("completed");
    let total = doc.natural_at("total");
    let status = match doc.text_at("status") {
        Some(s) => if starts_with(s, "downloading ") {
            download_text(completed, total)
        } else {
            s.to_owned()
        },
        None => "Downloading...".to_owned(),
    };
    let percentage: Option<u128> = match (completed, total) {
        (Some(c), Some(t)) => if t > 0 {
            assert(c * 100_000_000_000 / t as int <= c * 100_000_000_000) by (nonlinear_arith)
                requires
                    t >= 1,
                    c >= 0,
            ;
            Some(c as u128 * 100_000_000_000 / t as u128)
        } else {
            None
        },
        _ => None,
    };
    Ok(PullProgress { status, completed, total, percentage })
}

/// What the complete lines of a buffer report: the progress before a failure,
/// the failure, and what is left of the buffer. Blank lines and lines that are
/// no JSON report nothing.
pub struct Drained {
    pub updates: Seq<PullView>,
    pub failure: Option<Seq<char>>,
    pub rest: Seq<char>,
}

/// What the complete lines of a buffer report.
pub open spec fn drained(buffer: Seq<char>) -> Drained
    decreases buffer.len(),
    via drained_decreases
{
    let n = position(buffer, '\n');
    if n == buffer.len() {
        Drained { updates: Seq::empty(), failure: None, rest: buffer }
    } else {
        let line = trimmed(buffer.take(n));
        let rest = buffer.skip(n + 1);
        if line.len() == 0 {
            drained(rest)
        } else {
            match json_document(line) {
                Ok(doc) => match report(doc) {
                    Ok(p) => Drained { updates: seq![p] + drained(rest).updates, ..drained(rest) },
                    Err(e) => Drained { updates: Seq::empty(), failure: Some(e), rest },
                },
                Err(_) => drained(rest),
            }
        }
    }
}

#[via_fn]
proof fn drained_decreases(buffer: Seq<char>) {
    lemma_position(buffer, '\n');
}

/// What came of a part of a pull's output.
#[derive(Debug)]
pub struct PullBatch {
    pub updates: Vec<PullProgress>,
    pub failure: Option<String>,
}

/// Takes in a part of a pull's output. What is after the last line feed stays in
/// the buffer until the rest of its line comes.
pub fn take_chunk(buffer: &mut String, chunk: &str) -> (res: PullBatch)
    ensures
        pull_views(res.updates@) == drained(old(buffer)@ + chunk@).updates,
        opt_text(res.failure) == drained(old(buffer)@ + chunk@).failure,
        final(buffer)@ == drained(old(buffer)@ + chunk@).rest,
{
    let ghost whole = buffer@ + chunk@;
    buffer.append(chunk);
    let v = chars_of(buffer.as_str());
    let mut updates: Vec<PullProgress> = Vec::new();
    let mut i: usize = 0;
    assert(v@.skip(0) =~= whole);
    assert(pull_views(updates@) + drained(whole).updates =~= drained(whole).updates);
    loop
        invariant
            i <= v@.len(),
            v@ == whole,
            whole == old(buffer)@ + chunk@,
            drained(whole).updates == pull_views(updates@) + drained(v@.skip(i as int)).updates,
            drained(whole).failure == drained(v@.skip(i as int)).failure,
            drained(whole).rest == drained(v@.skip(i as int)).rest,
        decreases v@.len() - i,
    {
        let ghost rest = v@.skip(i as int);
        let ghost n = position(rest, '\n');
        proof {
            lemma_position(rest, '\n');
        }
        let mut k: usize = i;
        while k < v.len() && v[k] != '\n'
            invariant
                i <= k <= v@.len(),
                rest == v@.skip(i as int),
                position(rest, '\n') == (k - i) + position(v@.skip(k as int), '\n'),
            decreases v@.len() - k,
        {
            assert(v@.skip(k as int).drop_first() =~= v@.skip(k + 1));
            k += 1;
        }
        if k == v.len() {
            assert(n == rest.len());
            let left = text_between(&v, i, v.len());
            assert(left@ =~= rest);
            assert(pull_views(updates@) + drained(rest).updates =~= pull_views(updates@));
            *buffer = left;
            return PullBatch { updates, failure: None };
        }
        assert(n == k - i);
        let text = text_between(&v, i, k);
        assert(text@ =~= rest.take(n));
        assert(rest.skip(n + 1) =~= v@.skip(k + 1));
        let line = trim(text.as_str());
        if !line.as_str().is_empty() {
            match parse_json(line.as_str()) {
                Ok(doc) => match read_report(&doc) {
                    Ok(p) => {
                        let ghost before = pull_views(updates@);
                        updates.push(p);
                        assert(pull_views(updates@) =~= before.push(p@));
                        assert(before + (seq![p@] + drained(v@.skip(k + 1)).updates)
                            =~= pull_views(updates@) + drained(v@.skip(k + 1)).updates);
                    },
                    Err(e) => {
                        let left = text_between(&v, k + 1, v.len());
                        assert(left@ =~= v@.skip(k + 1));
                        assert(pull_views(updates@) + drained(rest).updates =~= pull_views(
                            updates@,
                        ));
                        *buffer = left;
                        return PullBatch { updates, failure: Some(e) };
                    },
                },
                Err(_) => {},
            }
        }
        i = k + 1;
    }
}

/// It does not matter into which parts the output of a pull is cut: taking in
/// two parts reports what taking in both at once does, unless the first already
/// fails.
pub proof fn law_parts(a: Seq<char>, b: Seq<char>)
    requires
        drained(a).failure is None,
    ensures
        drained(a + b).updates == drained(a).updates + drained(drained(a).rest + b).updates,
        drained(a + b).failure == drained(drained(a).rest + b).failure,
        drained(a + b).rest == drained(drained(a).rest + b).rest,
    decreases a.len(),
{
    let n = position(a, '\n');
    lemma_position(a, '\n');
    if n == a.len() {
        assert(drained(a).updates + drained(a + b).updates =~= drained(a + b).updates);
    } else {
        let rest = a.skip(n + 1);
        lemma_position_concat(a, b, '\n');
        assert((a + b).take(n) =~= a.take(n));
        assert((a + b).skip(n + 1) =~= rest + b);
        law_parts(rest, b);
        assert(drained(a + b).updates =~= drained(a).updates + drained(
            drained(a).rest + b,
        ).updates);
    }
}

/// The body of the request that pulls a model.
pub open spec fn pull_body(model: Seq<char>) -> JsonView {
    JsonView::Object(
        seq![("name"@, JsonView::Text(model)), ("stream"@, JsonView::Boolean(true))],
    )
}

/// Builds the body of the request that pulls a model.
pub fn pull_request(model_name: &str) -> (res: Json)
    ensures
        res@ == pull_body(model_name@),
{
    let mut m: Vec<(String, Json)> = Vec::new();
    put_member(&mut m, "name", Json::of_text(model_name));
    put_member(&mut m, "stream", Json::Boolean(true));
    assert(member_views(m@) =~= pull_body(model_name@)->Object_0);
    Json::of_members(m)
}

/// What is said of a pull that was refused.
pub open spec fn refused_pull(status: Seq<char>, body: Seq<char>) -> Seq<char> {
    "Ollama pull returned status "@ + status + ": "@ + body
}

/// The message for a pull that Ollama refused.
pub fn pull_refusal(status: &str, body: &str) -> (res: String)
    ensures
        res@ == refused_pull(status@, body@),
        res@ == "Ollama pull returned status "@ + status@ + ": "@ + body@,
{
    let mut s = "Ollama pull returned status ".to_owned();
    s.append(status);
    s.append(": ");
    s.append(body);
    s
}

/// A part of the download never is more than the whole.
pub proof fn law_percent(completed: u64, total: u64)
    requires
        completed <= total,
        total > 0,
    ensures
        percent(Some(completed), Some(total)) is Some,
        percent(Some(completed), Some(total))->0 <= 100_000_000_000,
{
    assert(0 <= completed * 100_000_000_000 / total as int <= 100_000_000_000) by (nonlinear_arith)
        requires
            0 <= completed <= total,
            total > 0,
    ;
}

/// Which of the launches an installation makes.
#[derive(Clone, Copy, PartialEq, Eq, Structural, Debug)]
pub enum Launch {
    /// Before anything is installed.
    First,
    /// After Homebrew installed the app.
    AfterBrew,
    /// After the app was moved into place.
    Last,
}

/// What an installation does next.
#[derive(Debug)]
pub enum InstallStep {
    /// Open the app.
    Open(Launch),
    /// Wait half a second and ask whether Ollama answers; so many times more.
    Poll(Launch, u32),
    /// Look for Homebrew.
    FindBrew,
    /// Install the app with this Homebrew.
    Brew(String),
    /// Download the app and store the archive.
    Download,
    /// Unpack the archive.
    Unzip,
    /// Move the app to the applications of the system.
    Move,
    /// Move the app to the user's own applications.
    MoveHome,
    /// Nothing; Ollama runs.
    Done,
    /// Nothing; the installation failed with this message.
    Fail(String),
}

/// What an [`InstallStep`] says.
pub enum StepView {
    Open(Launch),
    Poll(Launch, int),
    FindBrew,
    Brew(Seq<char>),
    Download,
    Unzip,
    Move,
    MoveHome,
    Done,
    Fail(Seq<char>),
}

impl View for InstallStep {
    type V = StepView;

    open spec fn view(&self) -> StepView {
        match self {
            InstallStep::Open(l) => StepView::Open(*l),
            InstallStep::Poll(l, n) => StepView::Poll(*l, *n as int),
            InstallStep::FindBrew => StepView::FindBrew,
            InstallStep::Brew(p) => StepView::Brew(p@),
            InstallStep::Download => StepView::Download,
            InstallStep::Unzip => StepView::Unzip,
            InstallStep::Move => StepView::Move,
            InstallStep::MoveHome => StepView::MoveHome,
            InstallStep::Done => StepView::Done,
            InstallStep::Fail(m) => StepView::Fail(m@),
        }
    }
}

/// The next step of an installation, and what the user is told before it.
#[derive(Debug)]
pub struct Turn {
    pub say: Option<String>,
    pub step: InstallStep,
}

/// What a [`Turn`] says.
pub struct TurnView {
    pub say: Option<Seq<char>>,
    pub step: StepView,
}

impl View for Turn {
    type V = TurnView;

    open spec fn view(&self) -> TurnView {
        TurnView { say: opt_text(self.say), step: self.step@ }
    }
}

/// A turn that tells the user something.
pub open spec fn told(say: Seq<char>, step: StepView) -> TurnView {
    TurnView { say: Some(say), step }
}

/// A turn that tells the user nothing.
pub open spec fn quiet(step: StepView) -> TurnView {
    TurnView { say: None, step }
}

/// Makes a turn that tells the user something.
fn tell(say: &str, step: InstallStep) -> (res: Turn)
    ensures
        res@ == told(say@, step@),
{
    Turn { say: Some(say.to_owned()), step }
}

/// Makes a turn that tells the user nothing.
fn hush(step: InstallStep) -> (res: Turn)
    ensures
        res@ == quiet(step@),
{
    Turn { say: None, step }
}

/// Makes a turn that ends the installation with a message.
fn give_up(prefix: &str, rest: &str) -> (res: Turn)
    ensures
        res@ == quiet(StepView::Fail(prefix@ + rest@)),
{
    let mut message = prefix.to_owned();
    message.append(rest);
    hush(InstallStep::Fail(message))
}

/// How often Ollama is asked whether it answers after a launch.
pub const POLLS: u32 = 12;

/// The turn that begins to download the app.
pub open spec fn to_download() -> TurnView {
    told("Downloading Ollama zip from official source..."@, StepView::Download)
}

/// The message for an app that is installed but was not seen to answer.
pub open spec fn not_started() -> Seq<char> {
    "Ollama installed but could not be automatically started. Please open Ollama from your Applications folder."@
}

/// What follows a launch after which Ollama never answered.
pub open spec fn after_silence(launch: Launch) -> TurnView {
    match launch {
        Launch::First => quiet(StepView::FindBrew),
        Launch::AfterBrew => to_download(),
        Launch::Last => quiet(StepView::Fail(not_started())),
    }
}

/// Makes the turn that follows a launch after which Ollama never answered.
fn silence(launch: Launch) -> (res: Turn)
    ensures
        res@ == after_silence(launch),
{
    match launch {
        Launch::First => hush(InstallStep::FindBrew),
        Launch::AfterBrew => tell(
            "Downloading Ollama zip from official source...",
            InstallStep::Download,
        ),
        Launch::Last => hush(
            InstallStep::Fail(
                "Ollama installed but could not be automatically started. Please open Ollama from your Applications folder.".to_owned(),
            ),
        ),
    }
}

/// The first turn: an app that is already there is opened.
pub fn begin_install() -> (res: Turn)
    ensures
        res@ == told(
            "Checking if Ollama is already installed..."@,
            StepView::Open(Launch::First),
        ),
{
    tell("Checking if Ollama is already installed...", InstallStep::Open(Launch::First))
}

/// What follows the opening of the app. `ran` is whether the command could be
/// run at all; the last launch is waited for in any case then.
pub open spec fn after_open(launch: Launch, ran: bool, success: bool) -> TurnView {
    if !ran || (!success && launch != Launch::Last) {
        after_silence(launch)
    } else if launch == Launch::First {
        told("Ollama is installed. Launching..."@, StepView::Poll(launch, POLLS as int))
    } else {
        quiet(StepView::Poll(launch, POLLS as int))
    }
}

/// Decides what follows the opening of the app.
pub fn opened(launch: Launch, ran: bool, success: bool) -> (res: Turn)
    ensures
        res@ == after_open(launch, ran, success),
{
    if !ran || (!success && launch != Launch::Last) {
        silence(launch)
    } else if launch == Launch::First {
        tell("Ollama is installed. Launching...", InstallStep::Poll(launch, POLLS))
    } else {
        hush(InstallStep::Poll(launch, POLLS))
    }
}

/// What follows the question whether Ollama answers.
pub open spec fn after_poll(launch: Launch, left: int, answered: bool) -> TurnView {
    if answered {
        told("Ollama started successfully!"@, StepView::Done)
    } else if left > 1 {
        quiet(StepView::Poll(launch, left - 1))
    } else {
        after_silence(launch)
    }
}

/// Decides what follows the question whether Ollama answers.
pub fn polled(launch: Launch, left: u32, answered: bool) -> (res: Turn)
    ensures
        res@ == after_poll(launch, left as int, answered),
{
    if answered {
        tell("Ollama started successfully!", InstallStep::Done)
    } else if left > 1 {
        hush(InstallStep::Poll(launch, left - 1))
    } else {
        silence(launch)
    }
}

/// The Homebrew to use, of the two places where it may be.
pub open spec fn brew_at(on_arm: bool, on_intel: bool) -> Option<Seq<char>> {
    if on_arm {
        Some("/opt/homebrew/bin/brew"@)
    } else if on_intel {
        Some("/usr/local/bin/brew"@)
    } else {
        None
    }
}

/// What follows the search for Homebrew.
pub open spec fn after_brew_search(brew: Option<Seq<char>>) -> TurnView {
    match brew {
        Some(path) => told("Installing Ollama via Homebrew Cask..."@, StepView::Brew(path)),
        None => to_download(),
    }
}

/// Decides what follows the search for Homebrew, given where it was found.
pub fn brew_found(on_arm: bool, on_intel: bool) -> (res: Turn)
    ensures
        res@ == after_brew_search(brew_at(on_arm, on_intel)),
{
    if on_arm {
        tell(
            "Installing Ollama via Homebrew Cask...",
            InstallStep::Brew("/opt/homebrew/bin/brew".to_owned()),
        )
    } else if on_intel {
        tell(
            "Installing Ollama via Homebrew Cask...",
            InstallStep::Brew("/usr/local/bin/brew".to_owned()),
        )
    } else {
        silence(Launch::AfterBrew)
    }
}

/// Looks for Homebrew and decides what follows.
pub fn find_brew() -> (res: Turn)
    ensures
        exists|on_arm: bool, on_intel: bool|
            seen("/opt/homebrew/bin/brew"@, on_arm) && seen("/usr/local/bin/brew"@, on_intel) && res@
                == after_brew_search(#[trigger] brew_at(on_arm, on_intel)),
{
    let on_arm = look("/opt/homebrew/bin/brew");
    let on_intel = look("/usr/local/bin/brew");
    brew_found(on_arm, on_intel)
}

/// How a command ended: it could not be run, with a message; or it ran, and
/// succeeded or said why not.
#[derive(Debug)]
pub enum Ran {
    NotRun(String),
    Succeeded,
    Failed(String),
}

/// What a [`Ran`] says.
pub enum RanView {
    NotRun(Seq<char>),
    Succeeded,
    Failed(Seq<char>),
}

impl View for Ran {
    type V = RanView;

    open spec fn view(&self) -> RanView {
        match self {
            Ran::NotRun(e) => RanView::NotRun(e@),
            Ran::Succeeded => RanView::Succeeded,
            Ran::Failed(e) => RanView::Failed(e@),
        }
    }
}

/// What follows Homebrew's installation: an app that is already installed is no
/// failure.
pub open spec fn after_brew(ran: RanView) -> TurnView {
    let onward = told("Starting Ollama.app..."@, StepView::Open(Launch::AfterBrew));
    match ran {
        RanView::NotRun(e) => quiet(StepView::Fail("Failed to run brew command: "@ + e)),
        RanView::Succeeded => onward,
        RanView::Failed(stderr) => if contains(stderr, "already installed"@) {
            onward
        } else {
            quiet(StepView::Fail("Brew install failed: "@ + stderr))
        },
    }
}

/// Decides what follows Homebrew's installation.
pub fn brewed(ran: &Ran) -> (res: Turn)
    ensures
        res@ == after_brew(ran@),
{
    match ran {
        Ran::NotRun(e) => give_up("Failed to run brew command: ", e.as_str()),
        Ran::Succeeded => tell("Starting Ollama.app...", InstallStep::Open(Launch::AfterBrew)),
        Ran::Failed(stderr) => if holds_text(stderr.as_str(), "already installed") {
            tell("Starting Ollama.app...", InstallStep::Open(Launch::AfterBrew))
        } else {
            give_up("Brew install failed: ", stderr.as_str())
        },
    }
}

/// How the download of the app ended.
#[derive(Debug)]
pub enum Fetched {
    Stored,
    NotFetched(String),
    NotRead(String),
    NotSaved(String),
}

/// What a [`Fetched`] says.
pub enum FetchedView {
    Stored,
    NotFetched(Seq<char>),
    NotRead(Seq<char>),
    NotSaved(Seq<char>),
}

impl View for Fetched {
    type V = FetchedView;

    open spec fn view(&self) -> FetchedView {
        match self {
            Fetched::Stored => FetchedView::Stored,
            Fetched::NotFetched(e) => FetchedView::NotFetched(e@),
            Fetched::NotRead(e) => FetchedView::NotRead(e@),
            Fetched::NotSaved(e) => FetchedView::NotSaved(e@),
        }
    }
}

/// What follows the download of the app.
pub open spec fn after_download(fetched: FetchedView) -> TurnView {
    match fetched {
        FetchedView::Stored => told("Unzipping Ollama package..."@, StepView::Unzip),
        FetchedView::NotFetched(e) => quiet(StepView::Fail("Failed to download Ollama: "@ + e)),
        FetchedView::NotRead(e) => quiet(StepView::Fail("Failed to read Ollama bytes: "@ + e)),
        FetchedView::NotSaved(e) => quiet(StepView::Fail("Failed to save Ollama zip: "@ + e)),
    }
}

/// Decides what follows the download of the app.
pub fn downloaded(fetched: &Fetched) -> (res: Turn)
    ensures
        res@ == after_download(fetched@),
{
    match fetched {
        Fetched::Stored => tell("Unzipping Ollama package...", InstallStep::Unzip),
        Fetched::NotFetched(e) => give_up("Failed to download Ollama: ", e.as_str()),
        Fetched::NotRead(e) => give_up("Failed to read Ollama bytes: ", e.as_str()),
        Fetched::NotSaved(e) => give_up("Failed to save Ollama zip: ", e.as_str()),
    }
}

/// What follows the unpacking of the archive.
pub open spec fn after_unzip(ran: RanView) -> TurnView {
    match ran {
        RanView::NotRun(e) => quiet(StepView::Fail("Failed to unzip Ollama: "@ + e)),
        RanView::Succeeded => told("Installing to Applications folder..."@, StepView::Move),
        RanView::Failed(stderr) => quiet(StepView::Fail("Failed to unzip: "@ + stderr)),
    }
}

/// Decides what follows the unpacking of the archive.
pub fn unzipped(ran: &Ran) -> (res: Turn)
    ensures
        res@ == after_unzip(ran@),
{
    match ran {
        Ran::NotRun(e) => give_up("Failed to unzip Ollama: ", e.as_str()),
        Ran::Succeeded => tell("Installing to Applications folder...", InstallStep::Move),
        Ran::Failed(stderr) => give_up("Failed to unzip: ", stderr.as_str()),
    }
}

/// What follows the move to the applications of the system: where that failed,
/// the user's own are tried.
pub open spec fn after_move(ran: RanView) -> TurnView {
    match ran {
        RanView::NotRun(e) => quiet(
            StepView::Fail("Failed to move Ollama to Applications: "@ + e),
        ),
        RanView::Succeeded => told("Starting Ollama..."@, StepView::Open(Launch::Last)),
        RanView::Failed(_) => quiet(StepView::MoveHome),
    }
}

/// Decides what follows the move to the applications of the system.
pub fn moved(ran: &Ran) -> (res: Turn)
    ensures
        res@ == after_move(ran@),
{
    match ran {
        Ran::NotRun(e) => give_up("Failed to move Ollama to Applications: ", e.as_str()),
        Ran::Succeeded => tell("Starting Ollama...", InstallStep::Open(Launch::Last)),
        Ran::Failed(_) => hush(InstallStep::MoveHome),
    }
}

/// How the move to the user's own applications ended.
#[derive(Debug)]
pub enum HomeMove {
    NoHome,
    NoFolder(String),
    Tried(Ran),
}

/// What a [`HomeMove`] says.
pub enum HomeMoveView {
    NoHome,
    NoFolder(Seq<char>),
    Tried(RanView),
}

impl View for HomeMove {
    type V = HomeMoveView;

    open spec fn view(&self) -> HomeMoveView {
        match self {
            HomeMove::NoHome => HomeMoveView::NoHome,
            HomeMove::NoFolder(e) => HomeMoveView::NoFolder(e@),
            HomeMove::Tried(r) => HomeMoveView::Tried(r@),
        }
    }
}

/// What follows the move to the user's own applications.
pub open spec fn after_home_move(m: HomeMoveView) -> TurnView {
    match m {
        HomeMoveView::NoHome => quiet(StepView::Fail("Could not find home directory"@)),
        HomeMoveView::NoFolder(e) => quiet(
            StepView::Fail("Failed to create ~/Applications: "@ + e),
        ),
        HomeMoveView::Tried(ran) => match ran {
            RanView::NotRun(e) => quiet(
                StepView::Fail("Failed to move Ollama to ~/Applications: "@ + e),
            ),
            RanView::Succeeded => told("Starting Ollama..."@, StepView::Open(Launch::Last)),
            RanView::Failed(stderr) => quiet(
                StepView::Fail("Failed to install Ollama to Applications folder: "@ + stderr),
            ),
        },
    }
}

/// Decides what follows the move to the user's own applications.
pub fn moved_home(m: &HomeMove) -> (res: Turn)
    ensures
        res@ == after_home_move(m@),
{
    match m {
        HomeMove::NoHome => hush(InstallStep::Fail("Could not find home directory".to_owned())),
        HomeMove::NoFolder(e) => give_up("Failed to create ~/Applications: ", e.as_str()),
        HomeMove::Tried(ran) => match ran {
            Ran::NotRun(e) => give_up("Failed to move Ollama to ~/Applications: ", e.as_str()),
            Ran::Succeeded => tell("Starting Ollama...", InstallStep::Open(Launch::Last)),
            Ran::Failed(stderr) => give_up(
                "Failed to install Ollama to Applications folder: ",
                stderr.as_str(),
            ),
        },
    }
}

/// How many steps an installation can still take at most.
pub open spec fn steps_left(step: StepView) -> int {
    match step {
        StepView::Done => 0,
        StepView::Fail(_) => 0,
        StepView::Poll(launch, n) => (if n > 1 {
            n
        } else {
            1
        }) + match launch {
            Launch::Last => 0int,
            Launch::AfterBrew => 17,
            Launch::First => 32,
        },
        StepView::Open(launch) => match launch {
            Launch::Last => 13,
            Launch::AfterBrew => 30,
            Launch::First => 45,
        },
        StepView::MoveHome => 14,
        StepView::Move => 15,
        StepView::Unzip => 16,
        StepView::Download => 17,
        StepView::Brew(_) => 31,
        StepView::FindBrew => 32,
    }
}

/// An installation ends: whatever comes of a step, fewer steps are left after
/// it.
pub proof fn law_install_ends(
    launch: Launch,
    left: int,
    flag: bool,
    other: bool,
    ran: RanView,
    fetched: FetchedView,
    home: HomeMoveView,
    path: Seq<char>,
)
    ensures
        steps_left(after_open(launch, flag, other).step) < steps_left(StepView::Open(launch)),
        steps_left(after_poll(launch, left, flag).step) < steps_left(StepView::Poll(launch, left)),
        steps_left(after_brew_search(brew_at(flag, other)).step) < steps_left(StepView::FindBrew),
        steps_left(after_brew(ran).step) < steps_left(StepView::Brew(path)),
        steps_left(after_download(fetched).step) < steps_left(StepView::Download),
        steps_left(after_unzip(ran).step) < steps_left(StepView::Unzip),
        steps_left(after_move(ran).step) < steps_left(StepView::Move),
        steps_left(after_home_move(home).step) < steps_left(StepView::MoveHome),
{
}

/// A number of bytes is written in megabytes, to the nearest tenth.
pub proof fn law_megabytes(bytes: u64)
    ensures
        exists|n: nat|
            {
                &&& megabytes(bytes) == #[trigger] nat_text(n / 10) + seq!['.'] + nat_text(n % 10)
                &&& -1_048_576 <= 2 * (1_048_576 * n - 10 * bytes) <= 1_048_576
            },
{
    reveal_strlit(".");
    assert("."@ =~= seq!['.']);
    let n = div_even((bytes * 10) as nat, 1_048_576);
    law_div_even((bytes * 10) as nat, 1_048_576);
    assert(megabytes(bytes) == nat_text(n / 10) + seq!['.'] + nat_text(n % 10));
}

/// A download is told by how much of it is there, where that is known; a large one
/// is that of the weights.
pub proof fn law_download_status(c: u64, t: u64, other: Option<u64>)
    ensures
        t > 100 * 1_048_576 ==> download_status(Some(c), Some(t)) == "Downloading weights: "@ + megabytes(
            c,
        ) + " MB / "@ + megabytes(t) + " MB"@,
        t <= 100 * 1_048_576 ==> download_status(Some(c), Some(t)) == "Downloading model components: "@
            + megabytes(c) + " MB / "@ + megabytes(t) + " MB"@,
        download_status(None, other) == "Downloading model components..."@,
        download_status(other, None) == "Downloading model components..."@,
{
}

/// A status that speaks of a download is told by its size, any other as it
/// stands, and a missing one as a download.
pub proof fn law_pull_status(s: Seq<char>, rest: Seq<char>, c: Option<u64>, t: Option<u64>)
    ensures
        pull_status(Some("downloading "@ + rest), c, t) == download_status(c, t),
        !"downloading "@.is_prefix_of(s) ==> pull_status(Some(s), c, t) == s,
        pull_status(None, c, t) == "Downloading..."@,
{
    let line = "downloading "@ + rest;
    assert(line.subrange(0, "downloading "@.len() as int) =~= "downloading "@);
}

/// The percentage is what is there out of the whole, rounded down to the
/// billionth; without a whole there is none.
pub proof fn law_percentage(c: u64, t: u64, other: Option<u64>)
    ensures
        t > 0 ==> (percent(Some(c), Some(t)) matches Some(p) && p * t <= c * 100_000_000_000 < (p + 1)
            * t),
        t == 0 ==> percent(Some(c), Some(t)) is None,
        percent(None, other) is None && percent(other, None) is None,
{
    if t > 0 {
        let a = c * 100_000_000_000;
        let q = a / t as int;
        vstd::arithmetic::div_mod::lemma_fundamental_div_mod(a, t as int);
        assert(0 <= a % (t as int) < t);
        assert(0 <= q <= a) by (nonlinear_arith)
            requires
                q == a / t as int,
                t > 0,
                a >= 0,
        ;
        assert(t * q == q * t) by (nonlinear_arith);
        assert((q + 1) * t == q * t + t) by (nonlinear_arith);
        assert(percent(Some(c), Some(t)) == Some(q as u128));
    }
}

/// A report of an error is that error; any other tells the status, the bytes that
/// are there, the whole and the percentage.
pub proof fn law_report(doc: JsonView)
    ensures
        doc.text_at("error"@) matches Some(e) ==> report(doc) == Err::<PullView, Seq<char>>(e),
        doc.text_at("error"@) is None ==> (report(doc) matches Ok(p) && p.completed == doc.natural_at(
            "completed"@,
        ) && p.total == doc.natural_at("total"@) && p.percentage == percent(
            doc.natural_at("completed"@),
            doc.natural_at("total"@),
        ) && p.status == pull_status(
            doc.text_at("status"@),
            doc.natural_at("completed"@),
            doc.natural_at("total"@),
        )),
{
}

/// A text without a line end is kept until the rest of its line comes. A line that
/// ends is a report: its update comes first; an error ends the reading; and what
/// is blank or unreadable is passed over.
pub proof fn law_drained(line: Seq<char>, rest: Seq<char>)
    requires
        forall|k: int| 0 <= k < line.len() ==> #[trigger] line[k] != '\n',
    ensures
        drained(line).updates == Seq::<PullView>::empty() && drained(line).failure is None && drained(
            line,
        ).rest == line,
        ({
            let all = drained(line + seq!['\n'] + rest);
            let more = drained(rest);
            if is_blank(line) {
                all == more
            } else {
                match json_document(trimmed(line)) {
                    Err(_) => all == more,
                    Ok(doc) => match report(doc) {
                        Ok(p) => all.updates == seq![p] + more.updates && all.failure == more.failure
                            && all.rest == more.rest,
                        Err(e) => all.updates.len() == 0 && all.failure == Some(e) && all.rest == rest,
                    },
                }
            }
        }),
{
    let all = line + seq!['\n'] + rest;
    lemma_position(line, '\n');
    lemma_position(all, '\n');
    let n = position(all, '\n');
    if n < line.len() {
        assert(all[n] == line[n]);
    }
    assert(all[line.len() as int] == '\n');
    assert(n == line.len());
    assert(all.take(n) =~= line);
    assert(all.skip(n + 1) =~= rest);
    if position(line, '\n') < line.len() {
        assert(line[position(line, '\n')] == '\n');
    }
}

/// A pull is asked for by the name of the model, as a stream.
pub proof fn law_pull_body(model: Seq<char>)
    ensures
        pull_body(model) == JsonView::Object(
            seq![("name"@, JsonView::Text(model)), ("stream"@, JsonView::Boolean(true))],
        ),
{
}

/// What is told stands for what its fields hold.
pub proof fn law_pull_views(p: PullProgress, v: Seq<PullProgress>, t: Turn)
    ensures
        p@.status == p.status@ && p@.completed == p.completed && p@.total == p.total && p@.percentage
            == p.percentage,
        pull_views(v).len() == v.len(),
        forall|i: int| 0 <= i < v.len() ==> #[trigger] pull_views(v)[i] == v[i]@,
        t@.say == opt_text(t.say) && t@.step == t.step@,
{
}

/// A step, and what came of one, stand for what they hold.
pub proof fn law_step_views(s: InstallStep, r: Ran, f: Fetched, h: HomeMove)
    ensures
        match (s, s@) {
            (InstallStep::Open(l), StepView::Open(x)) => l == x,
            (InstallStep::Poll(l, n), StepView::Poll(x, m)) => l == x && n == m,
            (InstallStep::FindBrew, StepView::FindBrew) => true,
            (InstallStep::Brew(p), StepView::Brew(x)) => p@ == x,
            (InstallStep::Download, StepView::Download) => true,
            (InstallStep::Unzip, StepView::Unzip) => true,
            (InstallStep::Move, StepView::Move) => true,
            (InstallStep::MoveHome, StepView::MoveHome) => true,
            (InstallStep::Done, StepView::Done) => true,
            (InstallStep::Fail(m), StepView::Fail(x)) => m@ == x,
            _ => false,
        },
        match (r, r@) {
            (Ran::NotRun(e), RanView::NotRun(x)) => e@ == x,
            (Ran::Succeeded, RanView::Succeeded) => true,
            (Ran::Failed(e), RanView::Failed(x)) => e@ == x,
            _ => false,
        },
        match (f, f@) {
            (Fetched::Stored, FetchedView::Stored) => true,
            (Fetched::NotFetched(e), FetchedView::NotFetched(x)) => e@ == x,
            (Fetched::NotRead(e), FetchedView::NotRead(x)) => e@ == x,
            (Fetched::NotSaved(e), FetchedView::NotSaved(x)) => e@ == x,
            _ => false,
        },
        match (h, h@) {
            (HomeMove::NoHome, HomeMoveView::NoHome) => true,
            (HomeMove::NoFolder(e), HomeMoveView::NoFolder(x)) => e@ == x,
            (HomeMove::Tried(ran), HomeMoveView::Tried(x)) => ran@ == x,
            _ => false,
        },
{
}

/// An app that opens is polled twelve times; one that does not is installed, by
/// Homebrew first and by a download second, and the last one gives up. Only the
/// last is polled though it reported a failure.
pub proof fn law_after_open(launch: Launch, success: bool)
    ensures
        after_open(launch, false, success) == after_silence(launch),
        launch != Launch::Last ==> after_open(launch, true, false) == after_silence(launch),
        after_open(Launch::First, true, true).step == StepView::Poll(Launch::First, 12),
        after_open(Launch::First, true, true).say == Some("Ollama is installed. Launching..."@),
        after_open(Launch::AfterBrew, true, true).step == StepView::Poll(Launch::AfterBrew, 12),
        after_open(Launch::AfterBrew, true, true).say is None,
        after_open(Launch::Last, true, success).step == StepView::Poll(Launch::Last, 12),
        after_open(Launch::Last, true, success).say is None,
        after_silence(Launch::First).step == StepView::FindBrew,
        after_silence(Launch::First).say is None,
        after_silence(Launch::AfterBrew).step == StepView::Download,
        after_silence(Launch::AfterBrew).say == Some(
            "Downloading Ollama zip from official source..."@,
        ),
        after_silence(Launch::Last).step == StepView::Fail(
            "Ollama installed but could not be automatically started. Please open Ollama from your Applications folder."@,
        ),
        after_silence(Launch::Last).say is None,
{
}

/// Polling stops with the first answer, goes on while tries are left and then
/// falls silent.
pub proof fn law_after_poll(launch: Launch, left: int)
    ensures
        after_poll(launch, left, true).step == StepView::Done,
        after_poll(launch, left, true).say == Some("Ollama started successfully!"@),
        left > 1 ==> after_poll(launch, left, false).step == StepView::Poll(launch, left - 1)
            && after_poll(launch, left, false).say is None,
        left <= 1 ==> after_poll(launch, left, false) == after_silence(launch),
{
}

/// Homebrew is looked for where it stands on either kind of machine; without it
/// the app is downloaded.
pub proof fn law_brew_search(path: Seq<char>, on_intel: bool)
    ensures
        brew_at(true, on_intel) == Some("/opt/homebrew/bin/brew"@),
        brew_at(false, true) == Some("/usr/local/bin/brew"@),
        brew_at(false, false) is None,
        after_brew_search(Some(path)).step == StepView::Brew(path),
        after_brew_search(Some(path)).say == Some("Installing Ollama via Homebrew Cask..."@),
        after_brew_search(None) == after_silence(Launch::AfterBrew),
{
}

/// Homebrew may say that the app is there already; any other failure ends the
/// installation with what was said.
pub proof fn law_after_brew(e: Seq<char>)
    ensures
        after_brew(RanView::Succeeded).step == StepView::Open(Launch::AfterBrew),
        after_brew(RanView::Succeeded).say == Some("Starting Ollama.app..."@),
        contains(e, "already installed"@) ==> after_brew(RanView::Failed(e)) == after_brew(
            RanView::Succeeded,
        ),
        !contains(e, "already installed"@) ==> after_brew(RanView::Failed(e)).step == StepView::Fail(
            "Brew install failed: "@ + e,
        ) && after_brew(RanView::Failed(e)).say is None,
        after_brew(RanView::NotRun(e)).step == StepView::Fail("Failed to run brew command: "@ + e),
        after_brew(RanView::NotRun(e)).say is None,
{
}

/// A stored archive is unpacked and the app put among the applications; each
/// failure ends the installation with its own message.
pub proof fn law_after_download(e: Seq<char>)
    ensures
        after_download(FetchedView::Stored).step == StepView::Unzip,
        after_download(FetchedView::Stored).say == Some("Unzipping Ollama package..."@),
        after_download(FetchedView::NotFetched(e)).step == StepView::Fail(
            "Failed to download Ollama: "@ + e,
        ),
        after_download(FetchedView::NotRead(e)).step == StepView::Fail(
            "Failed to read Ollama bytes: "@ + e,
        ),
        after_download(FetchedView::NotSaved(e)).step == StepView::Fail(
            "Failed to save Ollama zip: "@ + e,
        ),
        after_unzip(RanView::Succeeded).step == StepView::Move,
        after_unzip(RanView::Succeeded).say == Some("Installing to Applications folder..."@),
        after_unzip(RanView::NotRun(e)).step == StepView::Fail("Failed to unzip Ollama: "@ + e),
        after_unzip(RanView::Failed(e)).step == StepView::Fail("Failed to unzip: "@ + e),
        forall|f: FetchedView|
            (#[trigger] after_download(f)).step is Fail ==> after_download(f).say is None,
        forall|r: RanView| (#[trigger] after_unzip(r)).step is Fail ==> after_unzip(r).say is None,
{
}

/// An app that cannot be put among the system's applications goes among the
/// user's own; from either place it is started.
pub proof fn law_after_move(e: Seq<char>)
    ensures
        after_move(RanView::Succeeded).step == StepView::Open(Launch::Last),
        after_move(RanView::Succeeded).say == Some("Starting Ollama..."@),
        after_move(RanView::Failed(e)).step == StepView::MoveHome,
        after_move(RanView::NotRun(e)).step == StepView::Fail(
            "Failed to move Ollama to Applications: "@ + e,
        ),
        after_home_move(HomeMoveView::Tried(RanView::Succeeded)) == after_move(RanView::Succeeded),
        after_home_move(HomeMoveView::NoHome).step == StepView::Fail("Could not find home directory"@),
        after_home_move(HomeMoveView::NoFolder(e)).step == StepView::Fail(
            "Failed to create ~/Applications: "@ + e,
        ),
        after_home_move(HomeMoveView::Tried(RanView::NotRun(e))).step == StepView::Fail(
            "Failed to move Ollama to ~/Applications: "@ + e,
        ),
        after_home_move(HomeMoveView::Tried(RanView::Failed(e))).step == StepView::Fail(
            "Failed to install Ollama to Applications folder: "@ + e,
        ),
        forall|r: RanView| !(r is Succeeded) ==> (#[trigger] after_move(r)).say is None,
        forall|m: HomeMoveView|
            (#[trigger] after_home_move(m)).step is Fail ==> after_home_move(m).say is None,
{
}

/// A refused pull is told by its status first and its body second.
pub proof fn law_refused_pull(status: Seq<char>, body: Seq<char>)
    ensures
        refused_pull(status, body) == "Ollama pull returned status "@ + status + seq![':', ' '] + body,
{
    reveal_strlit(": ");
    assert(": "@ =~= seq![':', ' ']);
}

} // verus!
