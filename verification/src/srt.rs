//! Subtitles in the SRT format.

use vstd::prelude::*;
use vstd::string::StringExecFns;
use crate::clip::{
    clip_end, clip_start, clip_words, end_in_clip, group_views, grouped, groups, heard,
    law_clip_words, law_group_at, law_groups, law_spoken, law_word_in_group, ref_views, spoken,
    spoken_text, start_in_clip, words_in_clip,
};
use crate::models::{word_views, TranscriptWord, WordView};
use crate::number::{digit_char, nat_string, nat_text, padded_string, zero_padded};

verus! {

/// The most hours that a time code shows.
pub const MOST_HOURS: u128 = 4_294_967_295;

/// The hours, minutes, seconds and milliseconds of a time; the beginning for a
/// time before it.
pub open spec fn clock_fields(v: int) -> (nat, nat, nat, nat) {
    let t = if v < 0 {
        0
    } else {
        v
    };
    let hours = t / 3_600_000_000_000;
    (
        (if hours > MOST_HOURS {
            MOST_HOURS as int
        } else {
            hours
        }) as nat,
        (t % 3_600_000_000_000 / 60_000_000_000) as nat,
        (t % 60_000_000_000 / 1_000_000_000) as nat,
        (t % 1_000_000_000 / 1_000_000) as nat,
    )
}

/// A time code: `HH:MM:SS,mmm`.
pub open spec fn clock(v: int) -> Seq<char> {
    let (h, m, s, ms) = clock_fields(v);
    zero_padded(nat_text(h), 2) + ":"@ + zero_padded(nat_text(m), 2) + ":"@ + zero_padded(
        nat_text(s),
        2,
    ) + ","@ + zero_padded(nat_text(ms), 3)
}

/// The line that says when an entry is shown.
pub open spec fn time_line(start: int, end: int) -> Seq<char> {
    clock(start) + " --> "@ + clock(end)
}

/// Writes a time code.
fn clock_text(v: i128) -> (res: String)
    ensures
        res@ == clock(v as int),
{
    let t: u128 = if v < 0 { 0 } else { v as u128 };
    let hours: u128 = t / 3_600_000_000_000;
    let shown: u128 = if hours > MOST_HOURS { MOST_HOURS } else { hours };
    let mut s = padded_string(shown, 2);
    s.append(":");
    let minutes = padded_string(t % 3_600_000_000_000 / 60_000_000_000, 2);
    s.append(minutes.as_str());
    s.append(":");
    let seconds = padded_string(t % 60_000_000_000 / 1_000_000_000, 2);
    s.append(seconds.as_str());
    s.append(",");
    let millis = padded_string(t % 1_000_000_000 / 1_000_000, 3);
    s.append(millis.as_str());
    s
}

/// Writes the line that says when an entry is shown.
pub fn format_srt_time(start: i128, end: i128) -> (res: String)
    ensures
        res@ == time_line(start as int, end as int),
{
    let mut s = clock_text(start);
    s.append(" --> ");
    let to = clock_text(end);
    s.append(to.as_str());
    s
}

/// When a group is no longer shown, counted from the start of the clip.
pub open spec fn shown_until(w: WordView, start: int, end: int) -> int {
    if end_in_clip(w, start, end) < 0 {
        0
    } else {
        end_in_clip(w, start, end)
    }
}

/// An entry: its number, its times and its text.
pub open spec fn entry(number: nat, group: Seq<WordView>, start: int, end: int) -> Seq<char> {
    nat_text(number) + "\n"@ + time_line(
        start_in_clip(group.first(), start),
        shown_until(group.last(), start, end),
    ) + "\n"@ + spoken(group) + "\n\n"@
}

/// The entries of the groups, numbered from one.
pub open spec fn entries(groups: Seq<Seq<WordView>>, start: int, end: int) -> Seq<char>
    decreases groups.len(),
{
    if groups.len() == 0 {
        Seq::empty()
    } else {
        entries(groups.drop_last(), start, end) + entry(groups.len(), groups.last(), start, end)
    }
}

/// The subtitles of a clip: its words three at a time.
pub open spec fn subtitles(words: Seq<WordView>, start: int, end: int) -> Seq<char> {
    entries(groups(clip_words(words, start, end), 3), start, end)
}

/// Writes one entry.
fn entry_text(number: u128, group: &Vec<&TranscriptWord>, start: i64, end: i64) -> (res: String)
    requires
        group@.len() > 0,
    ensures
        res@ == entry(number as nat, ref_views(group@), start as int, end as int),
{
    let from = clip_start(group[0], start);
    let to = clip_end(group[group.len() - 1], start, end);
    let until: i128 = if to < 0 { 0 } else { to };
    let mut s = nat_string(number);
    s.append("\n");
    let times = format_srt_time(from, until);
    s.append(times.as_str());
    s.append("\n");
    let text = spoken_text(group);
    s.append(text.as_str());
    s.append("\n\n");
    s
}

/// Writes the subtitles of the clip from `start_sec` to `end_sec`.
pub fn generate_srt(words: &[TranscriptWord], start_sec: i64, end_sec: i64) -> (res: String)
    ensures
        res@ == subtitles(word_views(words@), start_sec as int, end_sec as int),
{
    let in_range = words_in_clip(words, start_sec, end_sec);
    let triples = grouped(&in_range, 3);
    let ghost all = group_views(triples@);
    proof {
        law_groups(ref_views(in_range@), 3);
    }
    let mut srt: String = String::new();
    let mut i: usize = 0;
    assert(all.take(0) =~= Seq::<Seq<WordView>>::empty());
    while i < triples.len()
        invariant
            i <= triples@.len(),
            all == group_views(triples@),
            forall|k: int| 0 <= k < all.len() ==> 0 < (#[trigger] all[k]).len(),
            srt@ == entries(all.take(i as int), start_sec as int, end_sec as int),
        decreases triples@.len() - i,
    {
        assert(all[i as int] == ref_views(triples@[i as int]@));
        assert(all.take(i + 1).drop_last() =~= all.take(i as int));
        assert(all.take(i + 1).last() == all[i as int]);
        let text = entry_text(i as u128 + 1, &triples[i], start_sec, end_sec);
        srt.append(text.as_str());
        i += 1;
    }
    assert(all.take(i as int) =~= all);
    srt
}

/// The fields of a time are its digits in base sixty and the thousandths.
proof fn lemma_clock_parts(v: int)
    requires
        0 <= v < (MOST_HOURS + 1) * 3_600_000_000_000,
    ensures
        ({
            let (h, m, s, ms) = clock_fields(v);
            let rest = v % 1_000_000;
            &&& m < 60 && s < 60 && ms < 1000
            &&& v == ((h * 60 + m) * 60 + s) * 1_000_000_000 + ms * 1_000_000 + rest
            &&& 0 <= rest < 1_000_000
        }),
{
    let (h, m, s, ms) = clock_fields(v);
    let a = v / 3_600_000_000_000;
    let r = v % 3_600_000_000_000;
    let b = r / 60_000_000_000;
    let q = r % 60_000_000_000;
    let c = q / 1_000_000_000;
    let p = q % 1_000_000_000;
    let d = p / 1_000_000;
    let o = p % 1_000_000;
    assert(v == 3_600_000_000_000 * a + r);
    assert(r == 60_000_000_000 * b + q);
    assert(q == 1_000_000_000 * c + p);
    assert(p == 1_000_000 * d + o);
    vstd::arithmetic::div_mod::lemma_fundamental_div_mod_converse(
        v,
        60_000_000_000,
        60 * a + b,
        q,
    );
    vstd::arithmetic::div_mod::lemma_fundamental_div_mod_converse(
        v,
        1_000_000_000,
        3600 * a + 60 * b + c,
        p,
    );
    vstd::arithmetic::div_mod::lemma_fundamental_div_mod_converse(
        v,
        1_000_000,
        3_600_000 * a + 60_000 * b + 1000 * c + d,
        o,
    );
    assert(h == a && m == b && s == c && ms == d);
}

/// A time code gives the time back to the millisecond, and none of its fields
/// runs over.
pub proof fn law_clock(v: int)
    requires
        0 <= v < (MOST_HOURS + 1) * 3_600_000_000_000,
    ensures
        ({
            let (h, m, s, ms) = clock_fields(v);
            let shown = ((h * 60 + m) * 60 + s) * 1_000_000_000 + ms * 1_000_000;
            &&& m < 60 && s < 60 && ms < 1000
            &&& shown <= v < shown + 1_000_000
        }),
{
    lemma_clock_parts(v);
}

/// One more group is one more entry at the end, numbered after the others.
pub proof fn law_entries(gs: Seq<Seq<WordView>>, g: Seq<WordView>, start: int, end: int)
    ensures
        entries(Seq::empty(), start, end) == Seq::<char>::empty(),
        entries(gs.push(g), start, end) == entries(gs, start, end) + entry(
            gs.len() + 1,
            g,
            start,
            end,
        ),
{
    assert(gs.push(g).drop_last() =~= gs);
}

/// An entry is its number on a line, its times on a line, what its words say on
/// a line and an empty line. It is shown from the start of its first word to the
/// end of its last, both within the clip.
pub proof fn law_entry(number: nat, g: Seq<WordView>, start: int, end: int, from: int, to: int)
    requires
        g.len() > 0,
        from == if g[0].start > start {
            g[0].start - start
        } else {
            0
        },
        to == if g.last().end < start || end < start {
            0
        } else if g.last().end < end {
            g.last().end - start
        } else {
            end - start
        },
    ensures
        entry(number, g, start, end) == nat_text(number) + seq!['\n'] + clock(from) + seq![
            ' ',
            '-',
            '-',
            '>',
            ' ',
        ] + clock(to) + seq!['\n'] + spoken(g) + seq!['\n', '\n'],
{
    reveal_strlit("\n");
    reveal_strlit(" --> ");
    reveal_strlit("\n\n");
    assert("\n"@ =~= seq!['\n']);
    assert(" --> "@ =~= seq![' ', '-', '-', '>', ' ']);
    assert("\n\n"@ =~= seq!['\n', '\n']);
    assert(entry(number, g, start, end) =~= nat_text(number) + seq!['\n'] + clock(from) + seq![
        ' ',
        '-',
        '-',
        '>',
        ' ',
    ] + clock(to) + seq!['\n'] + spoken(g) + seq!['\n', '\n']);
}

/// The entries hold the entry of every group, under its own number.
pub proof fn law_entry_of_group(gs: Seq<Seq<WordView>>, start: int, end: int, k: int)
    requires
        0 <= k < gs.len(),
    ensures
        exists|a: Seq<char>, b: Seq<char>|
            entries(gs, start, end) == #[trigger] (a + entry((k + 1) as nat, gs[k], start, end) + b),
    decreases gs.len(),
{
    let e = entry((k + 1) as nat, gs[k], start, end);
    if k == gs.len() - 1 {
        let before = entries(gs.drop_last(), start, end);
        assert(entries(gs, start, end) =~= before + e + Seq::<char>::empty());
    } else {
        law_entry_of_group(gs.drop_last(), start, end, k);
        let (a, b) = choose|a: Seq<char>, b: Seq<char>|
            entries(gs.drop_last(), start, end) == #[trigger] (a + e + b);
        assert(entries(gs, start, end) =~= a + e + (b + entry(gs.len(), gs.last(), start, end)));
    }
}

/// The text of every word that is heard in the clip stands in the subtitles.
pub proof fn law_every_word_subtitled(words: Seq<WordView>, start: int, end: int, i: int)
    requires
        0 <= i < words.len(),
        words[i].end > start,
        words[i].start < end,
    ensures
        exists|a: Seq<char>, b: Seq<char>|
            subtitles(words, start, end) == #[trigger] (a + words[i].text + b),
{
    let w = words[i];
    let kept = clip_words(words, start, end);
    law_clip_words(words, start, end);
    assert(words.contains(w) && heard(w, start, end));
    assert(kept.contains(w));
    let m = choose|m: int| 0 <= m < kept.len() && kept[m] == w;
    law_word_in_group(kept, 3, m);
    let gs = groups(kept, 3);
    let k = m / 3;
    let g = gs[k];
    law_entry_of_group(gs, start, end, k);
    let e = entry((k + 1) as nat, g, start, end);
    let (a, b) = choose|a: Seq<char>, b: Seq<char>|
        entries(gs, start, end) == #[trigger] (a + e + b);
    law_spoken(g, w, m % 3);
    let (c, d) = choose|c: Seq<char>, d: Seq<char>| spoken(g) == #[trigger] (c + w.text + d);
    let head = nat_text((k + 1) as nat) + "\n"@ + time_line(
        start_in_clip(g.first(), start),
        shown_until(g.last(), start, end),
    ) + "\n"@;
    assert(e =~= head + spoken(g) + "\n\n"@);
    assert(subtitles(words, start, end) =~= (a + head + c) + w.text + (d + "\n\n"@ + b));
}

/// The subtitles are the entries of the clip's words three at a time: the
/// `k + 1`st holds the words from the `3 * k`th on.
pub proof fn law_subtitles(words: Seq<WordView>, start: int, end: int, k: int, to: int)
    requires
        0 <= 3 * k < to <= clip_words(words, start, end).len(),
        to == 3 * k + 3 || (to < 3 * k + 3 && to == clip_words(words, start, end).len()),
    ensures
        exists|a: Seq<char>, b: Seq<char>|
            subtitles(words, start, end) == #[trigger] (a + entry(
                (k + 1) as nat,
                clip_words(words, start, end).subrange(3 * k, to),
                start,
                end,
            ) + b),
{
    let kept = clip_words(words, start, end);
    law_group_at(kept, 3, k);
    let gs = groups(kept, 3);
    assert(gs[k] == kept.subrange(3 * k, to));
    law_entry_of_group(gs, start, end, k);
    let e = entry((k + 1) as nat, gs[k], start, end);
    let (a, b) = choose|a: Seq<char>, b: Seq<char>|
        entries(gs, start, end) == #[trigger] (a + e + b);
    assert(subtitles(words, start, end) == a + e + b);
}

/// Two digits, the second worth a tenth of the first.
proof fn lemma_two_digits(n: nat)
    requires
        n < 100,
    ensures
        zero_padded(nat_text(n), 2).len() == 2,
        (zero_padded(nat_text(n), 2)[0] as int - 48) * 10 + (zero_padded(nat_text(n), 2)[1] as int
            - 48) == n,
{
    reveal_with_fuel(nat_text, 3);
    if n >= 10 {
        assert(nat_text(n / 10) =~= seq![digit_char((n / 10) as int)]);
    }
}

/// Three digits, each worth a tenth of the one before.
proof fn lemma_three_digits(n: nat)
    requires
        n < 1000,
    ensures
        zero_padded(nat_text(n), 3).len() == 3,
        (zero_padded(nat_text(n), 3)[0] as int - 48) * 100 + (zero_padded(nat_text(n), 3)[1] as int
            - 48) * 10 + (zero_padded(nat_text(n), 3)[2] as int - 48) == n,
{
    reveal_with_fuel(nat_text, 4);
    if n >= 100 {
        assert(nat_text(n / 10 / 10) =~= seq![digit_char((n / 10 / 10) as int)]);
        assert(nat_text(n / 10) =~= nat_text(n / 10 / 10).push(digit_char((n / 10 % 10) as int)));
    } else if n >= 10 {
        assert(nat_text(n / 10) =~= seq![digit_char((n / 10) as int)]);
    }
}

/// The digits of a time code under a hundred hours read back as the time to the
/// millisecond, with a colon behind the hours and the minutes and a comma behind
/// the seconds. A time before the beginning is written as the beginning.
pub proof fn law_clock_text(v: int)
    requires
        0 <= v < 360_000_000_000_000,
    ensures
        ({
            let t = clock(v);
            let d = |i: int| t[i] as int - 48;
            &&& t.len() == 12
            &&& t[2] == ':' && t[5] == ':' && t[8] == ','
            &&& (((d(0) * 10 + d(1)) * 60 + d(3) * 10 + d(4)) * 60 + d(6) * 10 + d(7)) * 1000 + d(9)
                * 100 + d(10) * 10 + d(11) == v / 1_000_000
            &&& d(3) * 10 + d(4) < 60 && d(6) * 10 + d(7) < 60
        }),
        forall|before: int| before < 0 ==> #[trigger] clock(before) == clock(0),
{
    reveal_strlit(":");
    reveal_strlit(",");
    let (h, m, s, ms) = clock_fields(v);
    lemma_two_digits(h);
    lemma_two_digits(m);
    lemma_two_digits(s);
    lemma_three_digits(ms);
    let t = clock(v);
    let a = zero_padded(nat_text(h), 2);
    let b = zero_padded(nat_text(m), 2);
    let c = zero_padded(nat_text(s), 2);
    let e = zero_padded(nat_text(ms), 3);
    assert(t =~= seq![a[0], a[1], ':', b[0], b[1], ':', c[0], c[1], ',', e[0], e[1], e[2]]);
    lemma_clock_parts(v);
    assert(((h * 60 + m) * 60 + s) * 1000 + ms == v / 1_000_000);
}

/// The minutes, seconds and milliseconds of a time are those of the time within
/// its hour.
proof fn lemma_within_hour(v: int)
    requires
        0 <= v < 4_294_967_296 * 3_600_000_000_000,
    ensures
        clock_fields(v).0 == v / 3_600_000_000_000,
        clock_fields(v % 3_600_000_000_000) == (
            0nat,
            clock_fields(v).1,
            clock_fields(v).2,
            clock_fields(v).3,
        ),
{
    let a = v / 3_600_000_000_000;
    let u = v % 3_600_000_000_000;
    assert(v == 3_600_000_000_000 * a + u);
    let b = u / 60_000_000_000;
    let q = u % 60_000_000_000;
    assert(u == 60_000_000_000 * b + q);
    vstd::arithmetic::div_mod::lemma_fundamental_div_mod_converse(v, 60_000_000_000, 60 * a + b, q);
    let c = u / 1_000_000_000;
    let p = u % 1_000_000_000;
    assert(u == 1_000_000_000 * c + p);
    vstd::arithmetic::div_mod::lemma_fundamental_div_mod_converse(v, 1_000_000_000, 3600 * a + c, p);
    assert(u / 3_600_000_000_000 == 0);
    assert(u % 3_600_000_000_000 == u);
    assert(a <= 4_294_967_295);
}

/// Past a hundred hours the hours take as many digits as they need, and the rest
/// of a time code is that of the time within the hour.
pub proof fn law_clock_hours(v: int)
    requires
        0 <= v < 4_294_967_296 * 3_600_000_000_000,
    ensures
        clock(v) == zero_padded(nat_text((v / 3_600_000_000_000) as nat), 2) + clock(
            v % 3_600_000_000_000,
        ).skip(2),
{
    let u = v % 3_600_000_000_000;
    lemma_two_digits(0);
    lemma_within_hour(v);
    let (h, m, s, ms) = clock_fields(v);
    let head = zero_padded(nat_text(h), 2);
    let rest = ":"@ + zero_padded(nat_text(m), 2) + ":"@ + zero_padded(nat_text(s), 2) + ","@
        + zero_padded(nat_text(ms), 3);
    assert(clock(v) =~= head + rest);
    assert(clock(u) =~= zero_padded(nat_text(0), 2) + rest);
    assert(clock(u).skip(2) =~= rest);
}

} // verus!
