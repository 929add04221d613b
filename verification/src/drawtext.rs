//! Captions drawn by ffmpeg's `drawtext` filter, for when no overlay can be
//! made.

use vstd::prelude::*;
use vstd::string::StringExecFns;
use crate::clip::{
    clip_end, clip_start, clip_words, end_in_clip, group_views, grouped, groups, law_group_at,
    law_groups, ref_views, start_in_clip, words_in_clip,
};
use crate::models::{word_views, TranscriptWord, WordView};
use crate::number::{fixed_string, fixed_text, nat_string, nat_text};
use crate::paths::{all_seen, which_exist};
use crate::text::{
    alphanumeric, chars_of, join, joined, law_joined_holds, letter_or_digit, opt_str, put,
    replace_char, replaced, same, texts, upper, upper_of,
};

verus! {

/// A character that may stand in a filter's text.
pub open spec fn showable(c: char) -> bool {
    alphanumeric(c) || c == ' ' || c == '!' || c == '?'
}

/// `s` without the characters that could end or break a filter's text.
pub open spec fn cleaned(s: Seq<char>) -> Seq<char>
    decreases s.len(),
{
    if s.len() == 0 {
        Seq::empty()
    } else if showable(s.last()) {
        cleaned(s.drop_last()).push(s.last())
    } else {
        cleaned(s.drop_last())
    }
}

/// Removes the characters that could end or break a filter's text.
fn clean_text(s: &str) -> (res: String)
    ensures
        res@ == cleaned(s@),
{
    let v = chars_of(s);
    let mut res: String = String::new();
    let mut i: usize = 0;
    assert(v@.take(0) =~= Seq::<char>::empty());
    while i < v.len()
        invariant
            i <= v@.len(),
            res@ == cleaned(v@.take(i as int)),
        decreases v@.len() - i,
    {
        let c = v[i];
        assert(v@.take(i + 1).drop_last() =~= v@.take(i as int));
        if letter_or_digit(c) || c == ' ' || c == '!' || c == '?' {
            res.push(c);
        }
        i += 1;
    }
    assert(v@.take(i as int) =~= v@);
    res
}

/// The words of a group in capitals.
pub open spec fn capital_texts(group: Seq<WordView>) -> Seq<Seq<char>> {
    group.map_values(|w: WordView| upper(w.text))
}

/// What a group shows on screen.
pub open spec fn shown_text(group: Seq<WordView>) -> Seq<char> {
    cleaned(joined(capital_texts(group), " "@))
}

/// Writes what a group shows on screen.
fn group_text(group: &Vec<&TranscriptWord>) -> (res: String)
    ensures
        res@ == shown_text(ref_views(group@)),
{
    let ghost all = capital_texts(ref_views(group@));
    let mut parts: Vec<String> = Vec::new();
    let mut i: usize = 0;
    while i < group.len()
        invariant
            i <= group@.len(),
            all == capital_texts(ref_views(group@)),
            texts(parts@) == all.take(i as int),
        decreases group@.len() - i,
    {
        let capitals = upper_of(group[i].text.as_str());
        put(&mut parts, capitals.as_str());
        assert(texts(parts@) =~= all.take(i + 1));
        i += 1;
    }
    assert(texts(parts@) =~= all);
    let line = join(&parts, " ");
    clean_text(line.as_str())
}

/// `v` thousandths held between `low` and `high` and rounded, halves up.
pub open spec fn rounded_between(v: int, low: int, high: int) -> int {
    let held = if v < low {
        low
    } else if v > high {
        high
    } else {
        v
    };
    (held + 500) / 1000
}

/// The font size for a frame of this width: 7.5 %, from 16 to 80.
pub open spec fn font_size(width: int) -> int {
    rounded_between(width * 75, 16_000, 80_000)
}

/// The padding of a text box: 30 % of the font size, from 4 to 24.
pub open spec fn box_padding(size: int) -> int {
    rounded_between(size * 300, 4_000, 24_000)
}

/// The width of a bold outline: 10 % of the font size, from 2 to 8.
pub open spec fn bold_outline(size: int) -> int {
    rounded_between(size * 100, 2_000, 8_000)
}

/// The width of a thin outline: 8 % of the font size, from 1.5 to 6.
pub open spec fn thin_outline(size: int) -> int {
    rounded_between(size * 80, 1_500, 6_000)
}

/// Rounds thousandths after holding them between two bounds.
fn round_between(v: i128, low: i128, high: i128) -> (res: u128)
    requires
        0 <= low <= high < 1_000_000,
    ensures
        res == rounded_between(v as int, low as int, high as int),
        res <= 1_000,
{
    let held: i128 = if v < low { low } else if v > high { high } else { v };
    ((held + 500) / 1000) as u128
}

/// The part of a filter that its style decides: where the text stands and how
/// it looks.
pub open spec fn look(style: Seq<char>, width: int) -> Seq<char> {
    let size = font_size(width);
    let size_text = nat_text(size as nat);
    if style == "classic-outline"@ {
        "0.65:fontsize="@ + size_text + ":fontcolor=yellow:borderw="@ + nat_text(
            bold_outline(size) as nat,
        ) + ":bordercolor=black"@
    } else if style == "minimal-shadow"@ {
        "0.7:fontsize="@ + size_text
            + ":fontcolor=white:shadowcolor=black@0.5:shadowx=2:shadowy=2"@
    } else if style == "vibrant-cyan"@ {
        "0.7:fontsize="@ + size_text
            + ":fontcolor=0x00FFFF:shadowcolor=black@0.6:shadowx=2:shadowy=2"@
    } else if style == "vibrant-yellow-box"@ {
        "0.72:fontsize="@ + size_text
            + ":fontcolor=black:box=1:boxcolor=0xffff00e0:boxborderw="@ + nat_text(
            box_padding(size) as nat,
        )
    } else if style == "vibrant-green"@ {
        "0.7:fontsize="@ + size_text + ":fontcolor=0x39FF14:borderw="@ + nat_text(
            thin_outline(size) as nat,
        ) + ":bordercolor=black:shadowcolor=black@0.6:shadowx=2:shadowy=2"@
    } else if style == "vibrant-red"@ {
        "0.7:fontsize="@ + size_text + ":fontcolor=0xFF3B30:borderw="@ + nat_text(
            thin_outline(size) as nat,
        ) + ":bordercolor=black:shadowcolor=black@0.6:shadowx=2:shadowy=2"@
    } else {
        "0.72:fontsize="@ + size_text
            + ":fontcolor=white:box=1:boxcolor=0x000000b0:boxborderw="@ + nat_text(
            box_padding(size) as nat,
        )
    }
}

/// Writes the part of a filter that its style decides.
fn look_text(style: &str, width: i64) -> (res: String)
    ensures
        res@ == look(style@, width as int),
{
    let size = round_between(width as i128 * 75, 16_000, 80_000);
    let size_text = nat_string(size);
    if same(style, "classic-outline") {
        let mut s = "0.65:fontsize=".to_owned();
        s.append(size_text.as_str());
        s.append(":fontcolor=yellow:borderw=");
        let border = nat_string(round_between(size as i128 * 100, 2_000, 8_000));
        s.append(border.as_str());
        s.append(":bordercolor=black");
        s
    } else if same(style, "minimal-shadow") {
        let mut s = "0.7:fontsize=".to_owned();
        s.append(size_text.as_str());
        s.append(":fontcolor=white:shadowcolor=black@0.5:shadowx=2:shadowy=2");
        s
    } else if same(style, "vibrant-cyan") {
        let mut s = "0.7:fontsize=".to_owned();
        s.append(size_text.as_str());
        s.append(":fontcolor=0x00FFFF:shadowcolor=black@0.6:shadowx=2:shadowy=2");
        s
    } else if same(style, "vibrant-yellow-box") {
        let mut s = "0.72:fontsize=".to_owned();
        s.append(size_text.as_str());
        s.append(":fontcolor=black:box=1:boxcolor=0xffff00e0:boxborderw=");
        let padding = nat_string(round_between(size as i128 * 300, 4_000, 24_000));
        s.append(padding.as_str());
        s
    } else if same(style, "vibrant-green") {
        let mut s = "0.7:fontsize=".to_owned();
        s.append(size_text.as_str());
        s.append(":fontcolor=0x39FF14:borderw=");
        let border = nat_string(round_between(size as i128 * 80, 1_500, 6_000));
        s.append(border.as_str());
        s.append(":bordercolor=black:shadowcolor=black@0.6:shadowx=2:shadowy=2");
        s
    } else if same(style, "vibrant-red") {
        let mut s = "0.7:fontsize=".to_owned();
        s.append(size_text.as_str());
        s.append(":fontcolor=0xFF3B30:borderw=");
        let border = nat_string(round_between(size as i128 * 80, 1_500, 6_000));
        s.append(border.as_str());
        s.append(":bordercolor=black:shadowcolor=black@0.6:shadowx=2:shadowy=2");
        s
    } else {
        let mut s = "0.72:fontsize=".to_owned();
        s.append(size_text.as_str());
        s.append(":fontcolor=white:box=1:boxcolor=0x000000b0:boxborderw=");
        let padding = nat_string(round_between(size as i128 * 300, 4_000, 24_000));
        s.append(padding.as_str());
        s
    }
}

/// The filter that shows `text` from `from` to `to`.
pub open spec fn filter(
    font_option: Seq<char>,
    text: Seq<char>,
    style: Seq<char>,
    width: int,
    from: int,
    to: int,
) -> Seq<char> {
    "drawtext="@ + font_option + "text='"@ + text + "':x=(w-text_w)/2:y=h*"@ + look(style, width)
        + ":enable='between(t,"@ + fixed_text(from, 3) + ","@ + fixed_text(to, 3) + ")'"@
}

/// The filters of the groups, in order; a group that would not be on screen at
/// all has none.
pub open spec fn filters(
    groups: Seq<Seq<WordView>>,
    start: int,
    end: int,
    width: int,
    style: Seq<char>,
    font_option: Seq<char>,
) -> Seq<Seq<char>>
    decreases groups.len(),
{
    if groups.len() == 0 {
        Seq::empty()
    } else {
        let before = filters(groups.drop_last(), start, end, width, style, font_option);
        let from = start_in_clip(groups.last().first(), start);
        let to = end_in_clip(groups.last().last(), start, end);
        if to <= from {
            before
        } else {
            before.push(filter(font_option, shown_text(groups.last()), style, width, from, to))
        }
    }
}

/// The caption filters of a clip: its words two at a time.
pub open spec fn drawtext(
    words: Seq<WordView>,
    start: int,
    end: int,
    width: int,
    style: Seq<char>,
    font_option: Seq<char>,
) -> Seq<char> {
    joined(
        filters(groups(clip_words(words, start, end), 2), start, end, width, style, font_option),
        ","@,
    )
}

/// Writes the caption filters of a clip with a given font.
pub fn drawtext_with_font(
    words: &[TranscriptWord],
    start_sec: i64,
    end_sec: i64,
    cropped_width: i64,
    caption_style: &str,
    font_option: &str,
) -> (res: String)
    ensures
        res@ == drawtext(
            word_views(words@),
            start_sec as int,
            end_sec as int,
            cropped_width as int,
            caption_style@,
            font_option@,
        ),
{
    let in_range = words_in_clip(words, start_sec, end_sec);
    let pairs = grouped(&in_range, 2);
    let look_part = look_text(caption_style, cropped_width);
    let ghost all = group_views(pairs@);
    proof {
        law_groups(ref_views(in_range@), 2);
    }
    let mut list: Vec<String> = Vec::new();
    let mut i: usize = 0;
    assert(all.take(0) =~= Seq::<Seq<WordView>>::empty());
    assert(texts(list@) =~= Seq::<Seq<char>>::empty());
    while i < pairs.len()
        invariant
            i <= pairs@.len(),
            all == group_views(pairs@),
            look_part@ == look(caption_style@, cropped_width as int),
            forall|k: int| 0 <= k < all.len() ==> 0 < (#[trigger] all[k]).len(),
            texts(list@) == filters(
                all.take(i as int),
                start_sec as int,
                end_sec as int,
                cropped_width as int,
                caption_style@,
                font_option@,
            ),
        decreases pairs@.len() - i,
    {
        let pair = &pairs[i];
        assert(all[i as int] == ref_views(pair@));
        assert(all.take(i + 1).drop_last() =~= all.take(i as int));
        assert(all.take(i + 1).last() == all[i as int]);
        let from = clip_start(pair[0], start_sec);
        let to = clip_end(pair[pair.len() - 1], start_sec, end_sec);
        if to > from {
            let text = group_text(pair);
            let from_text = fixed_string(from, 3);
            let to_text = fixed_string(to, 3);
            let mut s = "drawtext=".to_owned();
            s.append(font_option);
            s.append("text='");
            s.append(text.as_str());
            s.append("':x=(w-text_w)/2:y=h*");
            s.append(look_part.as_str());
            s.append(":enable='between(t,");
            s.append(from_text.as_str());
            s.append(",");
            s.append(to_text.as_str());
            s.append(")'");
            put(&mut list, s.as_str());
        }
        i += 1;
    }
    assert(all.take(i as int) =~= all);
    join(&list, ",")
}

/// The fonts that captions are drawn with, in order of preference. `windir` is
/// the directory of the Windows installation.
pub open spec fn font_paths(windir: Option<Seq<char>>) -> Seq<Seq<char>> {
    let known = seq![
        "/System/Library/Fonts/Supplemental/Futura.ttc"@,
        "/System/Library/Fonts/Avenir Next.ttc"@,
        "/System/Library/Fonts/Supplemental/Arial Bold.ttf"@,
        "/System/Library/Fonts/Helvetica.ttc"@,
        "C:/Windows/Fonts/SegoeUIb.ttf"@,
        "C:/Windows/Fonts/segoeuib.ttf"@,
        "C:/Windows/Fonts/SegoeUI.ttf"@,
        "C:/Windows/Fonts/segoeui.ttf"@,
        "C:/Windows/Fonts/arialbd.ttf"@,
        "C:/Windows/Fonts/arial.ttf"@,
        "/usr/share/fonts/truetype/dejavu/DejaVuSans-Bold.ttf"@,
        "/usr/share/fonts/truetype/freefont/FreeSansBold.ttf"@,
    ];
    match windir {
        Some(w) => {
            let fonts = replaced(w, '\\', "/"@) + "/Fonts"@;
            known + seq![
                fonts + "/SegoeUIb.ttf"@,
                fonts + "/segoeuib.ttf"@,
                fonts + "/SegoeUI.ttf"@,
                fonts + "/arialbd.ttf"@,
                fonts + "/arial.ttf"@,
            ]
        },
        None => known,
    }
}

/// Adds `dir` followed by `name` to a list.
fn put_in_dir(list: &mut Vec<String>, dir: &str, name: &str)
    ensures
        texts(final(list)@) == texts(old(list)@).push(dir@ + name@),
{
    let mut path = dir.to_owned();
    path.append(name);
    put(list, path.as_str());
}

/// Lists the fonts that captions are drawn with.
pub fn caption_fonts(windir: Option<&str>) -> (res: Vec<String>)
    ensures
        texts(res@) == font_paths(opt_str(windir)),
{
    let mut list: Vec<String> = Vec::new();
    put(&mut list, "/System/Library/Fonts/Supplemental/Futura.ttc");
    put(&mut list, "/System/Library/Fonts/Avenir Next.ttc");
    put(&mut list, "/System/Library/Fonts/Supplemental/Arial Bold.ttf");
    put(&mut list, "/System/Library/Fonts/Helvetica.ttc");
    put(&mut list, "C:/Windows/Fonts/SegoeUIb.ttf");
    put(&mut list, "C:/Windows/Fonts/segoeuib.ttf");
    put(&mut list, "C:/Windows/Fonts/SegoeUI.ttf");
    put(&mut list, "C:/Windows/Fonts/segoeui.ttf");
    put(&mut list, "C:/Windows/Fonts/arialbd.ttf");
    put(&mut list, "C:/Windows/Fonts/arial.ttf");
    put(&mut list, "/usr/share/fonts/truetype/dejavu/DejaVuSans-Bold.ttf");
    put(&mut list, "/usr/share/fonts/truetype/freefont/FreeSansBold.ttf");
    match windir {
        Some(w) => {
            let mut fonts = replace_char(w, '\\', "/");
            fonts.append("/Fonts");
            put_in_dir(&mut list, fonts.as_str(), "/SegoeUIb.ttf");
            put_in_dir(&mut list, fonts.as_str(), "/segoeuib.ttf");
            put_in_dir(&mut list, fonts.as_str(), "/SegoeUI.ttf");
            put_in_dir(&mut list, fonts.as_str(), "/arialbd.ttf");
            put_in_dir(&mut list, fonts.as_str(), "/arial.ttf");
        },
        None => {},
    }
    assert(texts(list@) =~= font_paths(opt_str(windir)));
    list
}

/// The option that names a font file, with quotes in its path escaped.
pub open spec fn font_option(path: Seq<char>) -> Seq<char> {
    "fontfile='"@ + replaced(replaced(path, '\\', "/"@), '\'', "'\\''"@) + "':"@
}

/// The option for the first font that is present; nothing where none is.
pub open spec fn chosen_font(paths: Seq<Seq<char>>, present: Seq<bool>) -> Seq<char>
    decreases paths.len(),
{
    if paths.len() == 0 {
        Seq::empty()
    } else if present[0] {
        font_option(paths[0])
    } else {
        chosen_font(paths.drop_first(), present.drop_first())
    }
}

/// Writes the option for the first font that is present.
pub fn font_option_for(paths: &Vec<String>, present: &Vec<bool>) -> (res: String)
    requires
        present@.len() == paths@.len(),
    ensures
        res@ == chosen_font(texts(paths@), present@),
{
    let ghost all = texts(paths@);
    let mut i: usize = 0;
    assert(all.skip(0) =~= all);
    assert(present@.skip(0) =~= present@);
    while i < paths.len()
        invariant
            i <= paths@.len(),
            all == texts(paths@),
            present@.len() == paths@.len(),
            chosen_font(all, present@) == chosen_font(all.skip(i as int), present@.skip(i as int)),
        decreases paths@.len() - i,
    {
        assert(all.skip(i as int)[0] == paths@[i as int]@);
        if present[i] {
            let slashes = replace_char(paths[i].as_str(), '\\', "/");
            let escaped = replace_char(slashes.as_str(), '\'', "'\\''");
            let mut s = "fontfile='".to_owned();
            s.append(escaped.as_str());
            s.append("':");
            return s;
        }
        assert(all.skip(i as int).drop_first() =~= all.skip(i + 1));
        assert(present@.skip(i as int).drop_first() =~= present@.skip(i + 1));
        i += 1;
    }
    String::new()
}

/// Writes the option for the first caption font that is on this machine.
pub fn font_here(windir: Option<&str>) -> (res: String)
    ensures
        exists|present: Seq<bool>|
            all_seen(font_paths(opt_str(windir)), present) && res@ == #[trigger] chosen_font(
                font_paths(opt_str(windir)),
                present,
            ),
{
    let fonts = caption_fonts(windir);
    let present = which_exist(&fonts);
    font_option_for(&fonts, &present)
}

/// Writes the caption filters of the clip from `start_sec` to `end_sec`, with
/// the first caption font that is on this machine.
pub fn build_drawtext_filters(
    words: &[TranscriptWord],
    start_sec: i64,
    end_sec: i64,
    cropped_width: i64,
    caption_style: &str,
    windir: Option<&str>,
) -> (res: String)
    ensures
        exists|present: Seq<bool>|
            all_seen(font_paths(opt_str(windir)), present) && res@ == #[trigger] drawtext(
                word_views(words@),
                start_sec as int,
                end_sec as int,
                cropped_width as int,
                caption_style@,
                chosen_font(font_paths(opt_str(windir)), present),
            ),
{
    let option = font_here(windir);
    drawtext_with_font(words, start_sec, end_sec, cropped_width, caption_style, option.as_str())
}

/// No character of a filter's text can end the text or the filter: quotes,
/// backslashes, colons, commas and brackets are all left out.
pub proof fn law_cleaned(s: Seq<char>)
    ensures
        forall|i: int|
            0 <= i < cleaned(s).len() ==> showable(#[trigger] cleaned(s)[i]) && cleaned(s)[i] != '\''
                && cleaned(s)[i] != '\\' && cleaned(s)[i] != ':' && cleaned(s)[i] != ','
                && cleaned(s)[i] != '[' && cleaned(s)[i] != ']' && cleaned(s)[i] != ';',
    decreases s.len(),
{
    if s.len() > 0 {
        law_cleaned(s.drop_last());
        let before = cleaned(s.drop_last());
        assert forall|i: int| 0 <= i < cleaned(s).len() implies showable(#[trigger] cleaned(s)[i])
            && cleaned(s)[i] != '\'' && cleaned(s)[i] != '\\' && cleaned(s)[i] != ':' && cleaned(
            s,
        )[i] != ',' && cleaned(s)[i] != '[' && cleaned(s)[i] != ']' && cleaned(s)[i] != ';' by {
            if i < before.len() {
                assert(cleaned(s)[i] == before[i]);
            }
        }
    }
}

/// The sizes stay within what suits a phone, whatever the width of the frame.
pub proof fn law_sizes(width: int)
    ensures
        16 <= font_size(width) <= 80,
        4 <= box_padding(font_size(width)) <= 24,
        2 <= bold_outline(font_size(width)) <= 8,
        2 <= thin_outline(font_size(width)) <= 6,
{
}

/// Cleaning keeps the letters, digits, blanks, exclamation and question marks of
/// a text, each in its place, and nothing else.
pub proof fn law_cleaned_filter(s: Seq<char>)
    ensures
        cleaned(s) == s.filter(|c: char| alphanumeric(c) || c == ' ' || c == '!' || c == '?'),
    decreases s.len(),
{
    reveal(Seq::filter);
    if s.len() > 0 {
        law_cleaned_filter(s.drop_last());
    }
}

/// What a group shows are its words in capitals with one space between, cleaned.
pub proof fn law_shown_text(group: Seq<WordView>)
    ensures
        shown_text(group) == joined(group.map_values(|w: WordView| upper(w.text)), seq![' ']).filter(
            |c: char| alphanumeric(c) || c == ' ' || c == '!' || c == '?',
        ),
{
    reveal_strlit(" ");
    assert(" "@ =~= seq![' ']);
    assert(capital_texts(group) =~= group.map_values(|w: WordView| upper(w.text)));
    law_cleaned_filter(joined(capital_texts(group), " "@));
}

/// A font takes seven and a half percent of the picture's width, rounded to the
/// nearest pixel, and never less than 16 or more than 80.
pub proof fn law_font_size(width: int)
    ensures
        16_000 <= 75 * width <= 80_000 ==> -500 < 1000 * font_size(width) - 75 * width <= 500,
        75 * width < 16_000 ==> font_size(width) == 16,
        75 * width > 80_000 ==> font_size(width) == 80,
{
}

/// The padding of a box takes three tenths of the font, a bold outline a tenth
/// and a thin one eight hundredths, each rounded to the nearest pixel and held
/// within its bounds.
pub proof fn law_outlines(size: int)
    ensures
        4_000 <= 300 * size <= 24_000 ==> -500 < 1000 * box_padding(size) - 300 * size <= 500,
        300 * size < 4_000 ==> box_padding(size) == 4,
        300 * size > 24_000 ==> box_padding(size) == 24,
        2_000 <= 100 * size <= 8_000 ==> -500 < 1000 * bold_outline(size) - 100 * size <= 500,
        100 * size < 2_000 ==> bold_outline(size) == 2,
        100 * size > 8_000 ==> bold_outline(size) == 8,
        1_500 <= 80 * size <= 6_000 ==> -500 < 1000 * thin_outline(size) - 80 * size <= 500,
        80 * size < 1_500 ==> thin_outline(size) == 2,
        80 * size > 6_000 ==> thin_outline(size) == 6,
{
}

/// How each style looks: where it stands, its colour and its outline, box or
/// shadow. A style that is not known looks like the boxed one.
pub proof fn law_look(style: Seq<char>, width: int, size: Seq<char>)
    requires
        size == nat_text(font_size(width) as nat),
    ensures
        look("classic-outline"@, width) == "0.65:fontsize="@ + size + ":fontcolor=yellow:borderw="@
            + nat_text(bold_outline(font_size(width)) as nat) + ":bordercolor=black"@,
        look("minimal-shadow"@, width) == "0.7:fontsize="@ + size
            + ":fontcolor=white:shadowcolor=black@0.5:shadowx=2:shadowy=2"@,
        look("vibrant-cyan"@, width) == "0.7:fontsize="@ + size
            + ":fontcolor=0x00FFFF:shadowcolor=black@0.6:shadowx=2:shadowy=2"@,
        look("vibrant-yellow-box"@, width) == "0.72:fontsize="@ + size
            + ":fontcolor=black:box=1:boxcolor=0xffff00e0:boxborderw="@ + nat_text(
            box_padding(font_size(width)) as nat,
        ),
        look("vibrant-green"@, width) == "0.7:fontsize="@ + size + ":fontcolor=0x39FF14:borderw="@
            + nat_text(thin_outline(font_size(width)) as nat)
            + ":bordercolor=black:shadowcolor=black@0.6:shadowx=2:shadowy=2"@,
        look("vibrant-red"@, width) == "0.7:fontsize="@ + size + ":fontcolor=0xFF3B30:borderw="@
            + nat_text(thin_outline(font_size(width)) as nat)
            + ":bordercolor=black:shadowcolor=black@0.6:shadowx=2:shadowy=2"@,
        style != "classic-outline"@ && style != "minimal-shadow"@ && style != "vibrant-cyan"@ && style
            != "vibrant-yellow-box"@ && style != "vibrant-green"@ && style != "vibrant-red"@ ==> look(
            style,
            width,
        ) == "0.72:fontsize="@ + size + ":fontcolor=white:box=1:boxcolor=0x000000b0:boxborderw="@
            + nat_text(box_padding(font_size(width)) as nat),
{
    reveal_strlit("classic-outline");
    reveal_strlit("minimal-shadow");
    reveal_strlit("vibrant-cyan");
    reveal_strlit("vibrant-yellow-box");
    reveal_strlit("vibrant-green");
    reveal_strlit("vibrant-red");
    assert("classic-outline"@.len() == 15 && "minimal-shadow"@.len() == 14 && "vibrant-cyan"@.len()
        == 12);
    assert("vibrant-yellow-box"@.len() == 18 && "vibrant-green"@.len() == 13 && "vibrant-red"@.len()
        == 11);
}

/// A filter draws its text in its style, centred, and only from its start to its
/// end, to the millisecond.
pub proof fn law_filter(
    option: Seq<char>,
    text: Seq<char>,
    style: Seq<char>,
    width: int,
    from: int,
    to: int,
)
    ensures
        filter(option, text, style, width, from, to) == "drawtext="@ + option + "text='"@ + text
            + "':x=(w-text_w)/2:y=h*"@ + look(style, width) + ":enable='between(t,"@ + fixed_text(
            from,
            3,
        ) + seq![','] + fixed_text(to, 3) + seq![')', '\''],
{
    reveal_strlit(",");
    reveal_strlit(")'");
    assert(","@ =~= seq![',']);
    assert(")'"@ =~= seq![')', '\'']);
}

/// One more group adds its filter at the end, exactly where its last word ends,
/// within the clip, after its first begins.
pub proof fn law_filters(
    gs: Seq<Seq<WordView>>,
    g: Seq<WordView>,
    start: int,
    end: int,
    width: int,
    style: Seq<char>,
    option: Seq<char>,
    from: int,
    to: int,
)
    requires
        g.len() > 0,
        from == if g[0].start > start {
            g[0].start
        } else {
            start
        },
        to == if g.last().end < end {
            g.last().end
        } else {
            end
        },
    ensures
        filters(Seq::empty(), start, end, width, style, option) == Seq::<Seq<char>>::empty(),
        filters(gs.push(g), start, end, width, style, option) == filters(
            gs,
            start,
            end,
            width,
            style,
            option,
        ) + if from < to {
            seq![filter(option, shown_text(g), style, width, from - start, to - start)]
        } else {
            Seq::empty()
        },
{
    assert(gs.push(g).drop_last() =~= gs);
    let before = filters(gs, start, end, width, style, option);
    assert(before + Seq::<Seq<char>>::empty() =~= before);
}

/// Every group that is on screen has its filter.
proof fn lemma_filter_of_group(
    gs: Seq<Seq<WordView>>,
    start: int,
    end: int,
    width: int,
    style: Seq<char>,
    option: Seq<char>,
    k: int,
)
    requires
        0 <= k < gs.len(),
        start_in_clip(gs[k].first(), start) < end_in_clip(gs[k].last(), start, end),
    ensures
        filters(gs, start, end, width, style, option).contains(
            filter(
                option,
                shown_text(gs[k]),
                style,
                width,
                start_in_clip(gs[k].first(), start),
                end_in_clip(gs[k].last(), start, end),
            ),
        ),
    decreases gs.len(),
{
    let all = filters(gs, start, end, width, style, option);
    if k == gs.len() - 1 {
        assert(all[all.len() - 1] == filter(
            option,
            shown_text(gs[k]),
            style,
            width,
            start_in_clip(gs[k].first(), start),
            end_in_clip(gs[k].last(), start, end),
        ));
    } else {
        lemma_filter_of_group(gs.drop_last(), start, end, width, style, option, k);
        let before = filters(gs.drop_last(), start, end, width, style, option);
        let f = filter(
            option,
            shown_text(gs[k]),
            style,
            width,
            start_in_clip(gs[k].first(), start),
            end_in_clip(gs[k].last(), start, end),
        );
        let m = choose|m: int| 0 <= m < before.len() && before[m] == f;
        assert(all[m] == f);
    }
}

/// The clip's words are drawn two at a time: each pair that is on screen is drawn
/// from the start of its first word to the end of its last, within the clip.
pub proof fn law_pair_drawn(
    words: Seq<WordView>,
    start: int,
    end: int,
    width: int,
    style: Seq<char>,
    option: Seq<char>,
    k: int,
    pair: Seq<WordView>,
    from: int,
    to: int,
)
    requires
        0 <= k,
        2 * k < clip_words(words, start, end).len(),
        pair == clip_words(words, start, end).subrange(
            2 * k,
            if 2 * k + 2 < clip_words(words, start, end).len() {
                2 * k + 2
            } else {
                clip_words(words, start, end).len() as int
            },
        ),
        from == if pair[0].start > start {
            pair[0].start - start
        } else {
            0
        },
        to == if pair.last().end < end {
            pair.last().end - start
        } else {
            end - start
        },
        from < to,
    ensures
        exists|a: Seq<char>, b: Seq<char>|
            drawtext(words, start, end, width, style, option) == #[trigger] (a + filter(
                option,
                shown_text(pair),
                style,
                width,
                from,
                to,
            ) + b),
{
    let kept = clip_words(words, start, end);
    law_group_at(kept, 2, k);
    let gs = groups(kept, 2);
    assert(gs[k] == pair);
    lemma_filter_of_group(gs, start, end, width, style, option, k);
    let parts = filters(gs, start, end, width, style, option);
    let f = filter(option, shown_text(pair), style, width, from, to);
    let m = choose|m: int| 0 <= m < parts.len() && parts[m] == f;
    law_joined_holds(parts, ","@, m);
}

/// The filters stand in order with one comma between.
pub proof fn law_drawtext(
    words: Seq<WordView>,
    start: int,
    end: int,
    width: int,
    style: Seq<char>,
    option: Seq<char>,
)
    ensures
        drawtext(words, start, end, width, style, option) == joined(
            filters(groups(clip_words(words, start, end), 2), start, end, width, style, option),
            seq![','],
        ),
{
    reveal_strlit(",");
    assert(","@ =~= seq![',']);
}

/// The fonts that are tried, in order: those of macOS, of Windows, of Linux, and
/// those of the Windows directory where it is known.
pub proof fn law_font_paths(windir: Seq<char>)
    ensures
        font_paths(None) == seq![
            "/System/Library/Fonts/Supplemental/Futura.ttc"@,
            "/System/Library/Fonts/Avenir Next.ttc"@,
            "/System/Library/Fonts/Supplemental/Arial Bold.ttf"@,
            "/System/Library/Fonts/Helvetica.ttc"@,
            "C:/Windows/Fonts/SegoeUIb.ttf"@,
            "C:/Windows/Fonts/segoeuib.ttf"@,
            "C:/Windows/Fonts/SegoeUI.ttf"@,
            "C:/Windows/Fonts/segoeui.ttf"@,
            "C:/Windows/Fonts/arialbd.ttf"@,
            "C:/Windows/Fonts/arial.ttf"@,
            "/usr/share/fonts/truetype/dejavu/DejaVuSans-Bold.ttf"@,
            "/usr/share/fonts/truetype/freefont/FreeSansBold.ttf"@,
        ],
        font_paths(Some(windir)).take(12) == font_paths(None),
        font_paths(Some(windir)).skip(12) == seq![
            replaced(windir, '\\', seq!['/']) + "/Fonts"@ + "/SegoeUIb.ttf"@,
            replaced(windir, '\\', seq!['/']) + "/Fonts"@ + "/segoeuib.ttf"@,
            replaced(windir, '\\', seq!['/']) + "/Fonts"@ + "/SegoeUI.ttf"@,
            replaced(windir, '\\', seq!['/']) + "/Fonts"@ + "/arialbd.ttf"@,
            replaced(windir, '\\', seq!['/']) + "/Fonts"@ + "/arial.ttf"@,
        ],
{
    reveal_strlit("/");
    assert("/"@ =~= seq!['/']);
    assert(font_paths(Some(windir)).take(12) =~= font_paths(None));
    assert(font_paths(Some(windir)).skip(12) =~= seq![
        replaced(windir, '\\', seq!['/']) + "/Fonts"@ + "/SegoeUIb.ttf"@,
        replaced(windir, '\\', seq!['/']) + "/Fonts"@ + "/segoeuib.ttf"@,
        replaced(windir, '\\', seq!['/']) + "/Fonts"@ + "/SegoeUI.ttf"@,
        replaced(windir, '\\', seq!['/']) + "/Fonts"@ + "/arialbd.ttf"@,
        replaced(windir, '\\', seq!['/']) + "/Fonts"@ + "/arial.ttf"@,
    ]);
}

/// A font file stands in quotes, with slashes for backslashes and each quote
/// escaped.
pub proof fn law_font_option(path: Seq<char>)
    ensures
        font_option(path) == "fontfile='"@ + replaced(
            replaced(path, '\\', seq!['/']),
            '\'',
            seq!['\'', '\\', '\'', '\''],
        ) + seq!['\'', ':'],
{
    reveal_strlit("/");
    reveal_strlit("'\\''");
    reveal_strlit("':");
    assert("/"@ =~= seq!['/']);
    assert("'\\''"@ =~= seq!['\'', '\\', '\'', '\'']);
    assert("':"@ =~= seq!['\'', ':']);
}

/// The first font that is there is used, and none where none is.
pub proof fn law_chosen_font(paths: Seq<Seq<char>>, present: Seq<bool>, i: int)
    requires
        present.len() == paths.len(),
        0 <= i <= paths.len(),
        forall|k: int| 0 <= k < i ==> !#[trigger] present[k],
        i < paths.len() ==> present[i],
    ensures
        chosen_font(paths, present) == if i < paths.len() {
            font_option(paths[i])
        } else {
            Seq::empty()
        },
    decreases paths.len(),
{
    if i > 0 {
        assert(!present[0]);
        let rest = present.drop_first();
        assert forall|k: int| 0 <= k < i - 1 implies !#[trigger] rest[k] by {
            assert(rest[k] == present[k + 1]);
        }
        law_chosen_font(paths.drop_first(), rest, i - 1);
    }
}

} // verus!
