//! Live view of the background batch, for the app to display.
//!
//! It is read off the batch's own log, so progress shows for a run that is
//! already in flight. A crashed batch cannot leave a stale "still working" flag
//! behind: a batch runs exactly where its process is there.

use vstd::prelude::*;
use vstd::string::StringExecFns;
use crate::number::{lemma_count_reads, lemma_nat_reads, nat_text, parse_usize, read_usize};
use crate::paths::{choose_place, find_home, is_home, join_path, place_of, under};
use crate::text::{
    after_first, after_last, before_first, before_last, head_before_first, head_before_last,
    is_space, law_cut_last, law_words, lemma_after_last_at, lemma_one_line, lemma_position,
    lemma_prefix_first, lemma_run_plain, lines, opt_str, opt_text, position, run_length,
    split_lines, split_words, starts_with, strip_end, strip_prefix, strip_start, strip_start_of,
    tail_after_first, tail_after_last, texts, trim, trimmed, words, CharClass,
};

verus! {

/// How far a batch has come.
#[derive(Debug)]
pub struct BatchProgress {
    pub running: bool,
    pub done: usize,
    pub skipped: usize,
    pub failed: usize,
    /// Source video currently being worked through.
    pub current_project: Option<String>,
    /// Candidate count for that project.
    pub current_total: Option<usize>,
    /// Human-readable description of the step in flight.
    pub current_step: Option<String>,
    /// Most recent finished clip.
    pub last_done: Option<String>,
    pub pass: Option<String>,
    pub log_path: String,
}

/// What a [`BatchProgress`] says.
pub struct ProgressView {
    pub running: bool,
    pub done: int,
    pub skipped: int,
    pub failed: int,
    pub current_project: Option<Seq<char>>,
    pub current_total: Option<usize>,
    pub current_step: Option<Seq<char>>,
    pub last_done: Option<Seq<char>>,
    pub pass: Option<Seq<char>>,
    pub log_path: Seq<char>,
}

impl View for BatchProgress {
    type V = ProgressView;

    open spec fn view(&self) -> ProgressView {
        ProgressView {
            running: self.running,
            done: self.done as int,
            skipped: self.skipped as int,
            failed: self.failed as int,
            current_project: opt_text(self.current_project),
            current_total: self.current_total,
            current_step: opt_text(self.current_step),
            last_done: opt_text(self.last_done),
            pass: opt_text(self.pass),
            log_path: self.log_path@,
        }
    }
}

/// Before any line is read.
pub open spec fn nothing_yet(running: bool, log_path: Seq<char>) -> ProgressView {
    ProgressView {
        running,
        done: 0,
        skipped: 0,
        failed: 0,
        current_project: None,
        current_total: None,
        current_step: None,
        last_done: None,
        pass: None,
        log_path,
    }
}

/// The first word of a text.
pub open spec fn first_word(s: Seq<char>) -> Option<Seq<char>> {
    if words(s).len() > 0 {
        Some(words(s)[0])
    } else {
        None
    }
}

/// The count after the last colon.
pub open spec fn total_in(rest: Seq<char>) -> Option<usize> {
    match first_word(trimmed(after_last(rest, ':'))) {
        Some(w) => read_usize(w),
        None => None,
    }
}

/// What stands in the outer brackets, given all that follows the first of them.
/// The file name may hold brackets of its own, so the last bracket before a colon
/// ends it; without such a one, the first closing bracket does.
pub open spec fn bracketed(inner: Seq<char>) -> Seq<char> {
    match before_last(inner, "):"@) {
        Some(name) => name,
        None => before_first(inner, ')'),
    }
}

/// The file name in `<id> (<file>): <n> candidate(s)`, where it is not empty.
pub open spec fn file_in(rest: Seq<char>) -> Option<Seq<char>> {
    match after_first(rest, '(') {
        Some(inner) => if bracketed(inner).len() > 0 {
            Some(bracketed(inner))
        } else {
            None
        },
        None => None,
    }
}

/// The line reports a stage of the work in flight.
pub open spec fn is_stage(t: Seq<char>) -> bool {
    "[broll]"@.is_prefix_of(t) || "[title]"@.is_prefix_of(t) || "[outro]"@.is_prefix_of(t)
        || "[sfx]"@.is_prefix_of(t)
}

/// The progress after one more line of the log.
pub open spec fn after_line(p: ProgressView, line: Seq<char>) -> ProgressView {
    let t = strip_start(CharClass::Space, line);
    if "DONE "@.is_prefix_of(t) {
        ProgressView { done: p.done + 1, last_done: Some(after_last(t, '/')), ..p }
    } else if "SKIP "@.is_prefix_of(t) {
        ProgressView { skipped: p.skipped + 1, ..p }
    } else if "FAIL "@.is_prefix_of(t) {
        ProgressView { failed: p.failed + 1, ..p }
    } else if "PROJECT "@.is_prefix_of(t) {
        let rest = t.skip("PROJECT "@.len() as int);
        ProgressView {
            current_project: match file_in(rest) {
                Some(name) => Some(name),
                None => p.current_project,
            },
            current_total: total_in(rest),
            ..p
        }
    } else if "=== batch pass "@.is_prefix_of(t) {
        ProgressView { pass: first_word(t.skip("=== batch pass "@.len() as int)), ..p }
    } else if is_stage(t) {
        ProgressView { current_step: Some(t), ..p }
    } else if "TITLE "@.is_prefix_of(t) {
        ProgressView {
            current_step: Some("titling: "@ + t.skip("TITLE "@.len() as int)),
            ..p
        }
    } else {
        p
    }
}

/// The progress after the lines of the log.
pub open spec fn after_lines(p: ProgressView, parts: Seq<Seq<char>>) -> ProgressView
    decreases parts.len(),
{
    if parts.len() == 0 {
        p
    } else {
        after_line(after_lines(p, parts.drop_last()), parts.last())
    }
}

/// The progress that a log tells of; a batch that does not run has no step in
/// flight.
pub open spec fn progress_of(running: bool, log_path: Seq<char>, log: Option<Seq<char>>) -> ProgressView {
    let start = nothing_yet(running, log_path);
    match log {
        Some(text) => {
            let told = after_lines(start, lines(text));
            if running {
                told
            } else {
                ProgressView { current_step: None, ..told }
            }
        },
        None => start,
    }
}

/// Reads the first word of a text.
fn first_word_of(s: &str) -> (res: Option<String>)
    ensures
        opt_text(res) == first_word(s@),
{
    let parts = split_words(s);
    if parts.len() > 0 {
        assert(texts(parts@)[0] == parts@[0]@);
        Some(parts[0].as_str().to_owned())
    } else {
        None
    }
}

/// Reads the count after the last colon.
fn total_of(rest: &str) -> (res: Option<usize>)
    ensures
        res == total_in(rest@),
{
    let end = tail_after_last(rest, ':');
    let end = trim(end.as_str());
    match first_word_of(end.as_str()) {
        Some(w) => parse_usize(w.as_str()),
        None => None,
    }
}

/// Reads the file name of a project's line.
fn file_of(rest: &str) -> (res: Option<String>)
    ensures
        opt_text(res) == file_in(rest@),
{
    match tail_after_first(rest, '(') {
        Some(inner) => {
            let name = match head_before_last(inner.as_str(), "):") {
                Some(name) => name,
                None => head_before_first(inner.as_str(), ')'),
            };
            if name.as_str().is_empty() {
                None
            } else {
                Some(name)
            }
        },
        None => None,
    }
}

/// Takes in one more line of the log.
fn take_line(p: &mut BatchProgress, line: &str)
    requires
        old(p).done < usize::MAX,
        old(p).skipped < usize::MAX,
        old(p).failed < usize::MAX,
    ensures
        final(p)@ == after_line(old(p)@, line@),
{
    let t = strip_start_of(CharClass::Space, line);
    if starts_with(t.as_str(), "DONE ") {
        p.done = p.done + 1;
        p.last_done = Some(tail_after_last(t.as_str(), '/'));
    } else if starts_with(t.as_str(), "SKIP ") {
        p.skipped = p.skipped + 1;
    } else if starts_with(t.as_str(), "FAIL ") {
        p.failed = p.failed + 1;
    } else if let Some(rest) = strip_prefix(t.as_str(), "PROJECT ") {
        if let Some(name) = file_of(rest.as_str()) {
            p.current_project = Some(name);
        }
        p.current_total = total_of(rest.as_str());
    } else if let Some(rest) = strip_prefix(t.as_str(), "=== batch pass ") {
        p.pass = first_word_of(rest.as_str());
    } else if starts_with(t.as_str(), "[broll]") || starts_with(t.as_str(), "[title]")
        || starts_with(t.as_str(), "[outro]") || starts_with(t.as_str(), "[sfx]") {
        p.current_step = Some(t);
    } else if let Some(rest) = strip_prefix(t.as_str(), "TITLE ") {
        let mut step = "titling: ".to_owned();
        step.append(rest.as_str());
        p.current_step = Some(step);
    }
}

/// Parse the batch log into something the UI can render. Counts come from the
/// whole log; what is current comes from its last mention.
pub fn read(running: bool, log_path: &str, log: Option<&str>) -> (res: BatchProgress)
    ensures
        res@ == progress_of(running, log_path@, opt_str(log)),
{
    let mut p = BatchProgress {
        running,
        done: 0,
        skipped: 0,
        failed: 0,
        current_project: None,
        current_total: None,
        current_step: None,
        last_done: None,
        pass: None,
        log_path: log_path.to_owned(),
    };
    let ghost start = p@;
    assert(start == nothing_yet(running, log_path@));
    let text = match log {
        Some(text) => text,
        None => {
            return p;
        },
    };
    let all = split_lines(text);
    let ghost parts = texts(all@);
    let mut i: usize = 0;
    assert(parts.take(0) =~= Seq::<Seq<char>>::empty());
    while i < all.len()
        invariant
            i <= all.len(),
            parts == texts(all@),
            p.done <= i,
            p.skipped <= i,
            p.failed <= i,
            p@ == after_lines(start, parts.take(i as int)),
        decreases all@.len() - i,
    {
        assert(parts.take(i + 1).drop_last() =~= parts.take(i as int));
        assert(parts.take(i + 1).last() == all@[i as int]@);
        take_line(&mut p, all[i].as_str());
        i += 1;
    }
    assert(parts.take(i as int) =~= parts);
    if !running {
        p.current_step = None;
    }
    p
}

/// The file that the batch logs to.
pub fn log_path(temp: &str, windows: bool) -> (res: String)
    ensures
        exists|home: Option<Seq<char>>|
            is_home(home) && res@ == #[trigger] place_of(
                None,
                home,
                temp@,
                under("broll-work"@, "finish_all.log"@, windows),
                windows,
            ),
{
    let home = find_home();
    let rest = join_path("broll-work", "finish_all.log", windows);
    choose_place(None, home, temp, rest.as_str(), windows)
}

/// Whether a batch runs: some runner is found by its name. `found` looks for a
/// process by the name of its command.
pub fn batch_is_running(found: impl Fn(&str) -> bool) -> (res: bool)
    requires
        forall|name: &str| call_requires(found, (name,)),
    ensures
        res ==> call_ensures(found, ("render_parallel",), true) || call_ensures(
            found,
            ("batch_render_all",),
            true,
        ) || call_ensures(found, ("retitle_all",), true),
        !res ==> call_ensures(found, ("render_parallel",), false) && call_ensures(
            found,
            ("batch_render_all",),
            false,
        ) && call_ensures(found, ("retitle_all",), false),
{
    found("render_parallel") || found("batch_render_all") || found("retitle_all")
}

/// The lines of a log that begin with `word`, after white space.
pub open spec fn count_of(parts: Seq<Seq<char>>, word: Seq<char>) -> int
    decreases parts.len(),
{
    if parts.len() == 0 {
        0
    } else {
        count_of(parts.drop_last(), word) + if word.is_prefix_of(
            strip_start(CharClass::Space, parts.last()),
        ) {
            1int
        } else {
            0int
        }
    }
}

/// The counts are the numbers of lines that report a finished, a skipped and a
/// failed clip, wherever they stand in the log.
pub proof fn law_counts(running: bool, log_path: Seq<char>, text: Seq<char>)
    ensures
        progress_of(running, log_path, Some(text)).done == count_of(lines(text), "DONE "@),
        progress_of(running, log_path, Some(text)).skipped == count_of(lines(text), "SKIP "@),
        progress_of(running, log_path, Some(text)).failed == count_of(lines(text), "FAIL "@),
{
    lemma_counts(nothing_yet(running, log_path), lines(text));
}

/// Counting line by line.
proof fn lemma_counts(start: ProgressView, parts: Seq<Seq<char>>)
    requires
        start.done == 0,
        start.skipped == 0,
        start.failed == 0,
    ensures
        after_lines(start, parts).done == count_of(parts, "DONE "@),
        after_lines(start, parts).skipped == count_of(parts, "SKIP "@),
        after_lines(start, parts).failed == count_of(parts, "FAIL "@),
    decreases parts.len(),
{
    reveal_strlit("DONE ");
    reveal_strlit("SKIP ");
    reveal_strlit("FAIL ");
    if parts.len() > 0 {
        lemma_counts(start, parts.drop_last());
        let t = strip_start(CharClass::Space, parts.last());
        if "DONE "@.is_prefix_of(t) {
            lemma_prefix_first("DONE "@, t);
        }
        if "SKIP "@.is_prefix_of(t) {
            lemma_prefix_first("SKIP "@, t);
        }
        if "FAIL "@.is_prefix_of(t) {
            lemma_prefix_first("FAIL "@, t);
        }
    }
}

/// The line that a batch writes when it turns to a project.
pub open spec fn project_line(id: Seq<char>, file: Seq<char>, total: usize) -> Seq<char> {
    "PROJECT "@ + id + " ("@ + file + "): "@ + nat_text(total as nat) + " candidate(s)"@
}

/// What follows the file name in a project's line.
spec fn line_end(total: usize) -> Seq<char> {
    "): "@ + nat_text(total as nat) + " candidate(s)"@
}

/// The bracket before the only colon of `end` is the last one before a colon.
proof fn lemma_before_last(file: Seq<char>, end: Seq<char>)
    requires
        end.len() >= 2,
        end[0] == ')',
        end[1] == ':',
        forall|k: int| 2 <= k < end.len() ==> #[trigger] end[k] != ':',
    ensures
        before_last(file + end, "):"@) == Some(file),
    decreases end.len(),
{
    reveal_strlit("):");
    let s = file + end;
    let last = s.skip(s.len() - 2);
    if end.len() == 2 {
        assert(last =~= "):"@);
        assert(s.take(s.len() - 2) =~= file);
    } else {
        assert(last[1] == end[end.len() - 1]);
        assert(last != "):"@);
        assert(s.drop_last() =~= file + end.drop_last());
        lemma_before_last(file, end.drop_last());
    }
}

/// What the end of a project's line holds.
proof fn lemma_line_end(total: usize)
    ensures
        line_end(total).len() >= 3,
        line_end(total)[0] == ')',
        line_end(total)[1] == ':',
        forall|k: int| 2 <= k < line_end(total).len() ==> #[trigger] line_end(total)[k] != ':',
        forall|k: int| 0 <= k < line_end(total).len() ==> #[trigger] line_end(total)[k] != '\n',
        line_end(total).last() == ')',
        line_end(total).skip(2) == " "@ + nat_text(total as nat) + " candidate(s)"@,
        first_word(trimmed(line_end(total).skip(2))) == Some(nat_text(total as nat)),
{
    reveal_strlit("): ");
    reveal_strlit(" ");
    reveal_strlit(" candidate(s)");
    let digits = nat_text(total as nat);
    lemma_nat_reads(total as nat);
    let end = line_end(total);
    let tail = " candidate(s)"@;
    assert forall|k: int| 2 <= k < end.len() implies #[trigger] end[k] != ':' && end[k] != '\n' by {
        if 3 <= k < 3 + digits.len() {
            assert(end[k] == digits[k - 3]);
        } else if k >= 3 + digits.len() {
            assert(end[k] == tail[k - 3 - digits.len()]);
        }
    }
    let count = end.skip(2);
    assert(count =~= " "@ + digits + tail);
    let t = digits + tail;
    assert(count.drop_first() =~= t);
    assert(t[0] == digits[0]);
    assert(t.last() == ')');
    assert(strip_start(CharClass::Space, t) == t);
    assert(strip_start(CharClass::Space, count) == t);
    assert(strip_end(CharClass::Space, t) == t);
    assert(trimmed(count) == t);
    lemma_run_plain(CharClass::Space, t);
    let n = run_length(CharClass::Space, t);
    assert(t[digits.len() as int] == ' ');
    if n < digits.len() {
        assert(t[n] == digits[n]);
    }
    assert(n == digits.len());
    assert(t.take(n) =~= digits);
}

/// A project's line tells its file and its number of candidates, whatever
/// brackets and colons the file name holds and whatever was read before. The id
/// holds no opening bracket.
pub proof fn law_project_line(p: ProgressView, id: Seq<char>, file: Seq<char>, total: usize)
    requires
        file.len() > 0,
        forall|k: int| 0 <= k < id.len() ==> #[trigger] id[k] != '(',
    ensures
        after_line(p, project_line(id, file, total)) == (ProgressView {
            current_project: Some(file),
            current_total: Some(total),
            ..p
        }),
{
    reveal_strlit("PROJECT ");
    reveal_strlit("DONE ");
    reveal_strlit("SKIP ");
    reveal_strlit("FAIL ");
    reveal_strlit(" (");
    let line = project_line(id, file, total);
    let end = line_end(total);
    lemma_line_end(total);
    reveal_strlit("): ");
    reveal_strlit(" candidate(s)");
    assert(line[0] == 'P');
    assert(strip_start(CharClass::Space, line) == line);
    if "DONE "@.is_prefix_of(line) {
        lemma_prefix_first("DONE "@, line);
    }
    if "SKIP "@.is_prefix_of(line) {
        lemma_prefix_first("SKIP "@, line);
    }
    if "FAIL "@.is_prefix_of(line) {
        lemma_prefix_first("FAIL "@, line);
    }
    assert("PROJECT "@.is_prefix_of(line)) by {
        assert(line.take(8) =~= "PROJECT "@);
    }
    let rest = line.skip(8);
    assert(rest =~= id + " ("@ + file + end);
    lemma_position(rest, '(');
    let at = position(rest, '(');
    assert(rest[id.len() as int + 1] == '(');
    assert(at == id.len() + 1) by {
        if at < id.len() {
            assert(rest[at] == id[at]);
        } else if at == id.len() {
            assert(rest[at] == ' ');
        }
    }
    let inner = rest.skip(at + 1);
    assert(inner =~= file + end);
    lemma_before_last(file, end);
    let colon = id.len() as int + 2 + file.len() + 1;
    assert(rest[colon] == end[1]);
    assert forall|k: int| colon < k < rest.len() implies #[trigger] rest[k] != ':' by {
        assert(rest[k] == end[k - colon + 1]);
    }
    lemma_after_last_at(rest, ':', colon);
    assert(rest.skip(colon + 1) =~= end.skip(2));
    lemma_count_reads(total);
}

/// A log that turns to a project shows its file and its number of candidates.
pub proof fn law_project_read(
    running: bool,
    log_path: Seq<char>,
    id: Seq<char>,
    file: Seq<char>,
    total: usize,
)
    requires
        file.len() > 0,
        forall|k: int| 0 <= k < id.len() ==> #[trigger] id[k] != '(' && id[k] != '\n',
        forall|k: int| 0 <= k < file.len() ==> #[trigger] file[k] != '\n',
    ensures
        ({
            let log = project_line(id, file, total).push('\n');
            let shown = progress_of(running, log_path, Some(log));
            shown.current_project == Some(file) && shown.current_total == Some(total)
        }),
{
    reveal_strlit("PROJECT ");
    reveal_strlit(" (");
    let line = project_line(id, file, total);
    let end = line_end(total);
    lemma_line_end(total);
    assert(line =~= "PROJECT "@ + id + " ("@ + file + end);
    assert forall|k: int| 0 <= k < line.len() implies #[trigger] line[k] != '\n' by {
        let a = 8 + id.len();
        if 8 <= k < a {
            assert(line[k] == id[k - 8]);
        } else if a + 2 <= k < a + 2 + file.len() {
            assert(line[k] == file[k - a - 2]);
        } else if k >= a + 2 + file.len() {
            assert(line[k] == end[k - a - 2 - file.len()]);
        }
    }
    assert(line.last() == end.last());
    lemma_one_line(line);
    let start = nothing_yet(running, log_path);
    let parts = seq![line];
    assert(parts.drop_last() =~= Seq::<Seq<char>>::empty());
    assert(after_lines(start, parts.drop_last()) == start);
    law_project_line(start, id, file, total);
}

/// A batch that does not run has no step in flight, and the log's path is shown
/// whether or not there is a log.
pub proof fn law_idle(log_path: Seq<char>, log: Option<Seq<char>>)
    ensures
        progress_of(false, log_path, log).current_step is None,
        !progress_of(false, log_path, log).running,
        progress_of(false, log_path, log).log_path == log_path,
        progress_of(true, log_path, log).log_path == log_path,
{
    match log {
        Some(text) => {
            lemma_log_path(nothing_yet(false, log_path), lines(text));
            lemma_log_path(nothing_yet(true, log_path), lines(text));
        },
        None => {},
    }
}

/// No line changes the path of the log or whether the batch runs.
proof fn lemma_log_path(start: ProgressView, parts: Seq<Seq<char>>)
    ensures
        after_lines(start, parts).log_path == start.log_path,
        after_lines(start, parts).running == start.running,
    decreases parts.len(),
{
    if parts.len() > 0 {
        lemma_log_path(start, parts.drop_last());
    }
}

/// What is shown of a batch stands for what its fields hold, and before the first
/// line nothing has happened.
pub proof fn law_progress_view(p: BatchProgress, running: bool, log_path: Seq<char>)
    ensures
        p@.running == p.running && p@.done == p.done && p@.skipped == p.skipped && p@.failed
            == p.failed,
        p@.current_project == opt_text(p.current_project) && p@.current_total == p.current_total,
        p@.current_step == opt_text(p.current_step) && p@.last_done == opt_text(p.last_done),
        p@.pass == opt_text(p.pass) && p@.log_path == p.log_path@,
        ({
            let n = nothing_yet(running, log_path);
            &&& n.running == running && n.log_path == log_path
            &&& n.done == 0 && n.skipped == 0 && n.failed == 0
            &&& n.current_project is None && n.current_total is None && n.current_step is None
            &&& n.last_done is None && n.pass is None
        }),
{
}

/// The lines of a log are taken one after the other.
pub proof fn law_log_lines(p: ProgressView, parts: Seq<Seq<char>>, line: Seq<char>)
    ensures
        after_lines(p, Seq::empty()) == p,
        after_lines(p, parts.push(line)) == after_line(after_lines(p, parts), line),
{
    assert(parts.push(line).drop_last() =~= parts);
}

/// A log is told line by line; a batch that no longer runs has no step in flight,
/// and without a log nothing has happened.
pub proof fn law_progress(log_path: Seq<char>, text: Seq<char>)
    ensures
        progress_of(true, log_path, Some(text)) == after_lines(nothing_yet(true, log_path), lines(text)),
        progress_of(false, log_path, Some(text)) == (ProgressView {
            current_step: None,
            ..after_lines(nothing_yet(false, log_path), lines(text))
        }),
        forall|running: bool| #[trigger]
            progress_of(running, log_path, None) == nothing_yet(running, log_path),
{
}

/// What begins with one text does not begin with another that differs from it in
/// some place.
proof fn lemma_other_start(p: Seq<char>, rest: Seq<char>, q: Seq<char>, k: int)
    requires
        0 <= k < p.len(),
        k < q.len(),
        p[k] != q[k],
    ensures
        !q.is_prefix_of(p + rest),
{
    if q.is_prefix_of(p + rest) {
        assert((p + rest).subrange(0, q.len() as int)[k] == q[k]);
        assert((p + rest)[k] == p[k]);
    }
}

/// What begins with a text has it as a prefix, and none of the white space in
/// front of it.
proof fn lemma_start(p: Seq<char>, rest: Seq<char>)
    requires
        p.len() > 0,
        !is_space(p[0]),
    ensures
        p.is_prefix_of(p + rest),
        strip_start(CharClass::Space, p + rest) == p + rest,
        (p + rest).skip(p.len() as int) == rest,
{
    assert((p + rest).subrange(0, p.len() as int) =~= p);
    assert((p + rest)[0] == p[0]);
    assert((p + rest).skip(p.len() as int) =~= rest);
}

/// A finished clip counts one more and is shown by its file name.
pub proof fn law_done_line(p: ProgressView, dir: Seq<char>, name: Seq<char>)
    requires
        forall|k: int| 0 <= k < name.len() ==> #[trigger] name[k] != '/',
    ensures
        after_line(p, "DONE "@ + (dir + seq!['/'] + name)) == (ProgressView {
            done: p.done + 1,
            last_done: Some(name),
            ..p
        }),
{
    reveal_strlit("DONE ");
    let rest = dir + seq!['/'] + name;
    let t = "DONE "@ + rest;
    lemma_start("DONE "@, rest);
    law_cut_last("DONE "@ + dir, '/', name);
    assert(("DONE "@ + dir) + seq!['/'] + name =~= t);
}

/// A skipped and a failed clip count one more each and change nothing else.
pub proof fn law_skip_line(p: ProgressView, rest: Seq<char>)
    ensures
        after_line(p, "SKIP "@ + rest) == (ProgressView { skipped: p.skipped + 1, ..p }),
        after_line(p, "FAIL "@ + rest) == (ProgressView { failed: p.failed + 1, ..p }),
{
    reveal_strlit("DONE ");
    reveal_strlit("SKIP ");
    reveal_strlit("FAIL ");
    lemma_start("SKIP "@, rest);
    lemma_start("FAIL "@, rest);
    lemma_other_start("SKIP "@, rest, "DONE "@, 0);
    lemma_other_start("FAIL "@, rest, "DONE "@, 0);
    lemma_other_start("FAIL "@, rest, "SKIP "@, 0);
}

/// A title shows that titling is in flight and what is titled; the line of a
/// stage is itself the step in flight.
pub proof fn law_step_lines(p: ProgressView, rest: Seq<char>)
    ensures
        after_line(p, "TITLE "@ + rest) == (ProgressView {
            current_step: Some("titling: "@ + rest),
            ..p
        }),
        after_line(p, "[broll]"@ + rest) == (ProgressView {
            current_step: Some("[broll]"@ + rest),
            ..p
        }),
        after_line(p, "[title]"@ + rest) == (ProgressView {
            current_step: Some("[title]"@ + rest),
            ..p
        }),
        after_line(p, "[outro]"@ + rest) == (ProgressView {
            current_step: Some("[outro]"@ + rest),
            ..p
        }),
        after_line(p, "[sfx]"@ + rest) == (ProgressView {
            current_step: Some("[sfx]"@ + rest),
            ..p
        }),
{
    lemma_stage_line(p, "[broll]"@, rest);
    lemma_stage_line(p, "[title]"@, rest);
    lemma_stage_line(p, "[outro]"@, rest);
    lemma_stage_line(p, "[sfx]"@, rest);
    reveal_strlit("DONE ");
    reveal_strlit("SKIP ");
    reveal_strlit("FAIL ");
    reveal_strlit("PROJECT ");
    reveal_strlit("=== batch pass ");
    reveal_strlit("[broll]");
    reveal_strlit("[title]");
    reveal_strlit("[outro]");
    reveal_strlit("[sfx]");
    reveal_strlit("TITLE ");
    let title = "TITLE "@;
    lemma_start(title, rest);
    lemma_other_start(title, rest, "DONE "@, 0);
    lemma_other_start(title, rest, "SKIP "@, 0);
    lemma_other_start(title, rest, "FAIL "@, 0);
    lemma_other_start(title, rest, "PROJECT "@, 0);
    lemma_other_start(title, rest, "=== batch pass "@, 0);
    lemma_other_start(title, rest, "[broll]"@, 0);
    lemma_other_start(title, rest, "[title]"@, 0);
    lemma_other_start(title, rest, "[outro]"@, 0);
    lemma_other_start(title, rest, "[sfx]"@, 0);
}

/// The line of a stage becomes the step in flight.
proof fn lemma_stage_line(p: ProgressView, tag: Seq<char>, rest: Seq<char>)
    requires
        tag == "[broll]"@ || tag == "[title]"@ || tag == "[outro]"@ || tag == "[sfx]"@,
    ensures
        after_line(p, tag + rest) == (ProgressView { current_step: Some(tag + rest), ..p }),
{
    reveal_strlit("DONE ");
    reveal_strlit("SKIP ");
    reveal_strlit("FAIL ");
    reveal_strlit("PROJECT ");
    reveal_strlit("=== batch pass ");
    reveal_strlit("[broll]");
    reveal_strlit("[title]");
    reveal_strlit("[outro]");
    reveal_strlit("[sfx]");
    assert(tag.len() > 0 && tag[0] == '[');
    lemma_start(tag, rest);
    lemma_other_start(tag, rest, "DONE "@, 0);
    lemma_other_start(tag, rest, "SKIP "@, 0);
    lemma_other_start(tag, rest, "FAIL "@, 0);
    lemma_other_start(tag, rest, "PROJECT "@, 0);
    lemma_other_start(tag, rest, "=== batch pass "@, 0);
}

/// The line of a pass gives its number: the first word behind the mark.
pub proof fn law_pass_line(p: ProgressView, name: Seq<char>, rest: Seq<char>)
    requires
        name.len() > 0,
        forall|k: int| 0 <= k < name.len() ==> !is_space(#[trigger] name[k]),
    ensures
        after_line(p, "=== batch pass "@ + (name + seq![' '] + rest)) == (ProgressView {
            pass: Some(name),
            ..p
        }),
        after_line(p, "=== batch pass "@ + name) == (ProgressView { pass: Some(name), ..p }),
{
    reveal_strlit("DONE ");
    reveal_strlit("SKIP ");
    reveal_strlit("FAIL ");
    reveal_strlit("PROJECT ");
    reveal_strlit("=== batch pass ");
    let tag = "=== batch pass "@;
    let long = name + seq![' '] + rest;
    law_words(name, ' ', rest);
    lemma_start(tag, long);
    lemma_start(tag, name);
    lemma_other_start(tag, long, "DONE "@, 0);
    lemma_other_start(tag, long, "SKIP "@, 0);
    lemma_other_start(tag, long, "FAIL "@, 0);
    lemma_other_start(tag, long, "PROJECT "@, 0);
    lemma_other_start(tag, name, "DONE "@, 0);
    lemma_other_start(tag, name, "SKIP "@, 0);
    lemma_other_start(tag, name, "FAIL "@, 0);
    lemma_other_start(tag, name, "PROJECT "@, 0);
}

/// White space in front of a line does not count, and a line that begins with
/// none of the marks changes nothing.
pub proof fn law_other_lines(p: ProgressView, space: char, line: Seq<char>)
    requires
        is_space(space),
    ensures
        after_line(p, seq![space] + line) == after_line(p, line),
        line.len() == 0 || (!is_space(line[0]) && line[0] != 'D' && line[0] != 'S' && line[0] != 'F'
            && line[0] != 'P' && line[0] != '=' && line[0] != '[' && line[0] != 'T') ==> after_line(
            p,
            line,
        ) == p,
{
    assert((seq![space] + line).drop_first() =~= line);
    assert(strip_start(CharClass::Space, seq![space] + line) == strip_start(CharClass::Space, line));
    reveal_strlit("DONE ");
    reveal_strlit("SKIP ");
    reveal_strlit("FAIL ");
    reveal_strlit("PROJECT ");
    reveal_strlit("=== batch pass ");
    reveal_strlit("[broll]");
    reveal_strlit("[title]");
    reveal_strlit("[outro]");
    reveal_strlit("[sfx]");
    reveal_strlit("TITLE ");
    if line.len() == 0 || !is_space(line[0]) {
        assert(strip_start(CharClass::Space, line) == line);
        if line.len() > 0 {
            let t = line;
            assert("DONE "@.is_prefix_of(t) ==> t.subrange(0, 5)[0] == 'D');
            assert("SKIP "@.is_prefix_of(t) ==> t.subrange(0, 5)[0] == 'S');
            assert("FAIL "@.is_prefix_of(t) ==> t.subrange(0, 5)[0] == 'F');
            assert("PROJECT "@.is_prefix_of(t) ==> t.subrange(0, 8)[0] == 'P');
            assert("=== batch pass "@.is_prefix_of(t) ==> t.subrange(0, 15)[0] == '=');
            assert("[broll]"@.is_prefix_of(t) ==> t.subrange(0, 7)[0] == '[');
            assert("[title]"@.is_prefix_of(t) ==> t.subrange(0, 7)[0] == '[');
            assert("[outro]"@.is_prefix_of(t) ==> t.subrange(0, 7)[0] == '[');
            assert("[sfx]"@.is_prefix_of(t) ==> t.subrange(0, 5)[0] == '[');
            assert("TITLE "@.is_prefix_of(t) ==> t.subrange(0, 6)[0] == 'T');
        }
    }
}

/// A finished clip without a directory is shown by its whole line.
pub proof fn law_done_bare(p: ProgressView, name: Seq<char>)
    requires
        forall|k: int| 0 <= k < name.len() ==> #[trigger] name[k] != '/',
    ensures
        after_line(p, "DONE "@ + name) == (ProgressView {
            done: p.done + 1,
            last_done: Some("DONE "@ + name),
            ..p
        }),
{
    reveal_strlit("DONE ");
    let t = "DONE "@ + name;
    lemma_start("DONE "@, name);
    assert forall|k: int| 0 <= k < t.len() implies #[trigger] t[k] != '/' by {
        if k >= 5 {
            assert(t[k] == name[k - 5]);
        }
    }
    law_cut_last(Seq::<char>::empty(), '/', t);
}

} // verus!
