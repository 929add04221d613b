//! Character sequences: trimming, splitting, joining, searching and case.

use vstd::prelude::*;
use vstd::string::StringExecFns;

verus! {

/// A character with the Unicode `White_Space` property.
pub open spec fn is_space(c: char) -> bool {
    ||| '\t' <= c <= '\r'
    ||| c == ' '
    ||| c == '\u{85}'
    ||| c == '\u{a0}'
    ||| c == '\u{1680}'
    ||| '\u{2000}' <= c <= '\u{200a}'
    ||| c == '\u{2028}'
    ||| c == '\u{2029}'
    ||| c == '\u{202f}'
    ||| c == '\u{205f}'
    ||| c == '\u{3000}'
}

/// Whether `c` has the Unicode `White_Space` property.
pub fn is_whitespace(c: char) -> (res: bool)
    ensures
        res == is_space(c),
{
    ('\t' <= c && c <= '\r') || c == ' ' || c == '\u{85}' || c == '\u{a0}' || c == '\u{1680}' || (
    '\u{2000}' <= c && c <= '\u{200a}') || c == '\u{2028}' || c == '\u{2029}' || c == '\u{202f}'
        || c == '\u{205f}' || c == '\u{3000}'
}

/// An ASCII letter or digit.
pub open spec fn is_ascii_word(c: char) -> bool {
    'a' <= c <= 'z' || 'A' <= c <= 'Z' || '0' <= c <= '9'
}

/// Whether `c` is an ASCII letter or digit.
pub fn is_ascii_alphanumeric(c: char) -> (res: bool)
    ensures
        res == is_ascii_word(c),
{
    ('a' <= c && c <= 'z') || ('A' <= c && c <= 'Z') || ('0' <= c && c <= '9')
}

/// What [`char::is_alphanumeric`] answers.
pub uninterp spec fn char_alphanumeric(c: char) -> bool;

/// [`char::is_alphanumeric`]: whether a character is alphabetic or numeric in
/// Unicode. Among the ASCII characters these are the letters and the digits,
/// and no white space is one.
pub assume_specification[ char::is_alphanumeric ](c: char) -> (res: bool)
    ensures
        res == char_alphanumeric(c),
        c <= '\u{7f}' ==> res == is_ascii_word(c),
        is_space(c) ==> !res,
;

/// A letter or digit in Unicode; among the ASCII characters, an ASCII one.
pub open spec fn alphanumeric(c: char) -> bool {
    if c <= '\u{7f}' {
        is_ascii_word(c)
    } else {
        !is_space(c) && char_alphanumeric(c)
    }
}

/// Whether `c` is a letter or digit in Unicode.
pub fn letter_or_digit(c: char) -> (res: bool)
    ensures
        res == alphanumeric(c),
{
    c.is_alphanumeric()
}

/// Appends one character: [`String::push`] puts the character after all others.
pub assume_specification[ String::push ](s: &mut String, c: char)
    ensures
        final(s)@ == old(s)@.push(c),
;

/// Every character is ASCII.
pub open spec fn all_ascii(s: Seq<char>) -> bool {
    forall|i: int| 0 <= i < s.len() ==> #[trigger] s[i] <= '\u{7f}'
}

/// The lower case of an ASCII character; any other character is itself.
pub open spec fn ascii_lower(c: char) -> char {
    if 'A' <= c <= 'Z' {
        ((c as u8) + 32) as char
    } else {
        c
    }
}

/// The upper case of an ASCII character; any other character is itself.
pub open spec fn ascii_upper(c: char) -> char {
    if 'a' <= c <= 'z' {
        ((c as u8) - 32) as char
    } else {
        c
    }
}

/// What [`str::to_lowercase`] gives.
pub uninterp spec fn lowercase(s: Seq<char>) -> Seq<char>;

/// What [`str::to_uppercase`] gives.
pub uninterp spec fn uppercase(s: Seq<char>) -> Seq<char>;

/// [`str::to_lowercase`]: the Unicode lower case of a text. On an ASCII text
/// only the letters `A` to `Z` change, each to its small letter.
pub assume_specification[ str::to_lowercase ](s: &str) -> (res: String)
    ensures
        res@ == lowercase(s@),
        all_ascii(s@) ==> res@ == s@.map_values(|c: char| ascii_lower(c)),
;

/// [`str::to_uppercase`]: the Unicode upper case of a text. On an ASCII text
/// only the letters `a` to `z` change, each to its capital.
pub assume_specification[ str::to_uppercase ](s: &str) -> (res: String)
    ensures
        res@ == uppercase(s@),
        all_ascii(s@) ==> res@ == s@.map_values(|c: char| ascii_upper(c)),
;

/// The lower case of a text; of an ASCII text, letter by letter.
pub open spec fn lower(s: Seq<char>) -> Seq<char> {
    if all_ascii(s) {
        s.map_values(|c: char| ascii_lower(c))
    } else {
        lowercase(s)
    }
}

/// The upper case of a text; of an ASCII text, letter by letter.
pub open spec fn upper(s: Seq<char>) -> Seq<char> {
    if all_ascii(s) {
        s.map_values(|c: char| ascii_upper(c))
    } else {
        uppercase(s)
    }
}

/// Puts a text into lower case.
pub fn lower_of(s: &str) -> (res: String)
    ensures
        res@ == lower(s@),
{
    s.to_lowercase()
}

/// Puts a text into upper case.
pub fn upper_of(s: &str) -> (res: String)
    ensures
        res@ == upper(s@),
{
    s.to_uppercase()
}

/// A set of characters that texts are stripped of.
#[derive(Clone, Copy, PartialEq, Eq, Structural)]
pub enum CharClass {
    /// White space.
    Space,
    /// Everything that is neither a letter nor a digit.
    NotAlphanumeric,
    /// Comma, full stop, semicolon, colon.
    Pause,
    /// Double quote, single quote, asterisk.
    Quote,
    /// Full stop, exclamation mark.
    Stop,
    /// Hyphen.
    Dash,
}

/// Membership in a [`CharClass`].
pub open spec fn in_class(class: CharClass, c: char) -> bool {
    match class {
        CharClass::Space => is_space(c),
        CharClass::NotAlphanumeric => !alphanumeric(c),
        CharClass::Pause => c == ',' || c == '.' || c == ';' || c == ':',
        CharClass::Quote => c == '"' || c == '\'' || c == '*',
        CharClass::Stop => c == '.' || c == '!',
        CharClass::Dash => c == '-',
    }
}

impl CharClass {
    /// Whether `c` belongs to the class.
    pub fn has(self, c: char) -> (res: bool)
        ensures
            res == in_class(self, c),
    {
        match self {
            CharClass::Space => is_whitespace(c),
            CharClass::NotAlphanumeric => !letter_or_digit(c),
            CharClass::Pause => c == ',' || c == '.' || c == ';' || c == ':',
            CharClass::Quote => c == '"' || c == '\'' || c == '*',
            CharClass::Stop => c == '.' || c == '!',
            CharClass::Dash => c == '-',
        }
    }
}

/// `s` without its leading characters of `class`.
pub open spec fn strip_start(class: CharClass, s: Seq<char>) -> Seq<char>
    decreases s.len(),
{
    if s.len() > 0 && in_class(class, s[0]) {
        strip_start(class, s.drop_first())
    } else {
        s
    }
}

/// `s` without its trailing characters of `class`.
pub open spec fn strip_end(class: CharClass, s: Seq<char>) -> Seq<char>
    decreases s.len(),
{
    if s.len() > 0 && in_class(class, s.last()) {
        strip_end(class, s.drop_last())
    } else {
        s
    }
}

/// `s` without white space at either end.
pub open spec fn trimmed(s: Seq<char>) -> Seq<char> {
    strip_end(CharClass::Space, strip_start(CharClass::Space, s))
}

/// `s` holds nothing but white space.
pub open spec fn is_blank(s: Seq<char>) -> bool {
    trimmed(s).len() == 0
}

/// The characters of `s`, in order.
pub fn chars_of(s: &str) -> (v: Vec<char>)
    ensures
        v@ == s@,
{
    let mut v: Vec<char> = Vec::new();
    for c in it: s.chars()
        invariant
            v@ == s@.take(it.index()),
            it.seq() == s@,
    {
        v.push(c);
    }
    assert(s@.take(s@.len() as int) == s@);
    v
}

/// The text made of the characters `v[from..to]`.
pub fn text_between(v: &Vec<char>, from: usize, to: usize) -> (s: String)
    requires
        from <= to <= v@.len(),
    ensures
        s@ == v@.subrange(from as int, to as int),
{
    let mut s: String = String::new();
    let mut i: usize = from;
    while i < to
        invariant
            from <= i <= to <= v@.len(),
            s@ == v@.subrange(from as int, i as int),
        decreases to - i,
    {
        s.push(v[i]);
        i += 1;
    }
    s
}

/// The text made of the characters `v`.
pub fn text_of(v: &Vec<char>) -> (s: String)
    ensures
        s@ == v@,
{
    let s = text_between(v, 0, v.len());
    assert(v@.subrange(0, v@.len() as int) == v@);
    s
}

/// Where the text starts once leading characters of `class` are left out.
fn start_after(class: CharClass, v: &Vec<char>) -> (n: usize)
    ensures
        n <= v@.len(),
        strip_start(class, v@) == v@.skip(n as int),
{
    let mut n: usize = 0;
    assert(v@.skip(0) == v@);
    while n < v.len() && class.has(v[n])
        invariant
            n <= v@.len(),
            strip_start(class, v@) == strip_start(class, v@.skip(n as int)),
        decreases v@.len() - n,
    {
        assert(v@.skip(n as int).drop_first() == v@.skip(n + 1));
        n += 1;
    }
    n
}

/// Where the text ends once trailing characters of `class` are left out.
fn end_before(class: CharClass, v: &Vec<char>, from: usize) -> (n: usize)
    requires
        from <= v@.len(),
    ensures
        from <= n <= v@.len(),
        strip_end(class, v@.skip(from as int)) == v@.subrange(from as int, n as int),
{
    let mut n: usize = v.len();
    assert(v@.subrange(from as int, n as int) == v@.skip(from as int));
    while n > from && class.has(v[n - 1])
        invariant
            from <= n <= v@.len(),
            strip_end(class, v@.skip(from as int)) == strip_end(
                class,
                v@.subrange(from as int, n as int),
            ),
        decreases n,
    {
        assert(v@.subrange(from as int, n as int).drop_last() == v@.subrange(
            from as int,
            n - 1,
        ));
        n -= 1;
    }
    n
}

/// Removes the leading characters of `class`.
pub fn strip_start_of(class: CharClass, s: &str) -> (res: String)
    ensures
        res@ == strip_start(class, s@),
{
    let v = chars_of(s);
    let n = start_after(class, &v);
    assert(v@.skip(n as int) == v@.subrange(n as int, v@.len() as int));
    text_between(&v, n, v.len())
}

/// Removes the trailing characters of `class`.
pub fn strip_end_of(class: CharClass, s: &str) -> (res: String)
    ensures
        res@ == strip_end(class, s@),
{
    let v = chars_of(s);
    let n = end_before(class, &v, 0);
    assert(v@.skip(0) == v@);
    text_between(&v, 0, n)
}

/// Removes the characters of `class` at both ends.
pub fn strip_both_of(class: CharClass, s: &str) -> (res: String)
    ensures
        res@ == strip_end(class, strip_start(class, s@)),
{
    let v = chars_of(s);
    let from = start_after(class, &v);
    let to = end_before(class, &v, from);
    text_between(&v, from, to)
}

/// Removes the white space at both ends.
pub fn trim(s: &str) -> (res: String)
    ensures
        res@ == trimmed(s@),
{
    strip_both_of(CharClass::Space, s)
}

/// Whether `s` holds nothing but white space.
pub fn blank(s: &str) -> (res: bool)
    ensures
        res == is_blank(s@),
{
    let t = trim(s);
    t.as_str().is_empty()
}

/// Whether two texts hold the same characters.
pub fn same(a: &str, b: &str) -> (res: bool)
    ensures
        res == (a@ == b@),
{
    let x = chars_of(a);
    let y = chars_of(b);
    if x.len() != y.len() {
        return false;
    }
    let mut i: usize = 0;
    while i < x.len()
        invariant
            i <= x@.len(),
            x@.len() == y@.len(),
            x@ == a@,
            y@ == b@,
            forall|k: int| 0 <= k < i ==> x@[k] == y@[k],
        decreases x@.len() - i,
    {
        if x[i] != y[i] {
            assert(a@[i as int] != b@[i as int]);
            return false;
        }
        i += 1;
    }
    assert(a@ =~= b@);
    true
}

/// Whether the characters of `p` stand in `v` from position `at` on.
fn matches_at(v: &Vec<char>, at: usize, p: &Vec<char>) -> (res: bool)
    requires
        at <= v@.len(),
    ensures
        res == p@.is_prefix_of(v@.skip(at as int)),
{
    if v.len() - at < p.len() {
        return false;
    }
    let mut i: usize = 0;
    while i < p.len()
        invariant
            i <= p@.len(),
            at + p.len() <= v.len(),
            forall|k: int| 0 <= k < i ==> v@[at + k] == p@[k],
        decreases p@.len() - i,
    {
        if v[at + i] != p[i] {
            assert(v@.skip(at as int).subrange(0, p@.len() as int)[i as int] != p@[i as int]);
            return false;
        }
        i += 1;
    }
    assert(v@.skip(at as int).subrange(0, p@.len() as int) =~= p@);
    true
}

/// Whether `s` begins with `p`.
pub fn starts_with(s: &str, p: &str) -> (res: bool)
    ensures
        res == p@.is_prefix_of(s@),
{
    let v = chars_of(s);
    let q = chars_of(p);
    let res = matches_at(&v, 0, &q);
    assert(v@.skip(0) == v@);
    res
}

/// A text begins with the first character of its prefix.
pub proof fn lemma_prefix_first(p: Seq<char>, s: Seq<char>)
    requires
        p.len() > 0,
        p.is_prefix_of(s),
    ensures
        s.len() > 0,
        s[0] == p[0],
{
    assert(s.subrange(0, p.len() as int)[0] == s[0]);
}

/// `p` stands somewhere in `s`.
pub open spec fn contains(s: Seq<char>, p: Seq<char>) -> bool {
    exists|i: int| 0 <= i <= s.len() && p.is_prefix_of(#[trigger] s.skip(i))
}

/// Whether `p` stands somewhere in `s`.
pub fn holds_text(s: &str, p: &str) -> (res: bool)
    ensures
        res == contains(s@, p@),
{
    let v = chars_of(s);
    let q = chars_of(p);
    let mut i: usize = 0;
    loop
        invariant
            i <= v@.len(),
            v@ == s@,
            q@ == p@,
            forall|k: int| 0 <= k < i ==> !q@.is_prefix_of(#[trigger] v@.skip(k)),
        decreases v@.len() - i,
    {
        if matches_at(&v, i, &q) {
            return true;
        }
        if i == v.len() {
            return false;
        }
        i += 1;
    }
}

/// The rest of `s` after the leading `p`, if `s` begins with it.
pub open spec fn after_prefix(s: Seq<char>, p: Seq<char>) -> Option<Seq<char>> {
    if p.is_prefix_of(s) {
        Some(s.skip(p.len() as int))
    } else {
        None
    }
}

/// The text of an optional `String`.
pub open spec fn opt_text(s: Option<String>) -> Option<Seq<char>> {
    match s {
        Some(t) => Some(t@),
        None => None,
    }
}

/// The text of an optional `&str`.
pub open spec fn opt_str(s: Option<&str>) -> Option<Seq<char>> {
    match s {
        Some(t) => Some(t@),
        None => None,
    }
}

/// The rest of `s` after the leading `p`, if `s` begins with it.
pub fn strip_prefix(s: &str, p: &str) -> (res: Option<String>)
    ensures
        opt_text(res) == after_prefix(s@, p@),
{
    let v = chars_of(s);
    let q = chars_of(p);
    assert(v@.skip(0) == v@);
    if matches_at(&v, 0, &q) {
        assert(v@.skip(q@.len() as int) == v@.subrange(q@.len() as int, v@.len() as int));
        Some(text_between(&v, q.len(), v.len()))
    } else {
        None
    }
}

/// `s` without leading copies of `p`.
pub open spec fn strip_copies_start(s: Seq<char>, p: Seq<char>) -> Seq<char>
    decreases s.len(),
{
    if p.len() > 0 && p.is_prefix_of(s) {
        strip_copies_start(s.skip(p.len() as int), p)
    } else {
        s
    }
}

/// `s` without trailing copies of `p`.
pub open spec fn strip_copies_end(s: Seq<char>, p: Seq<char>) -> Seq<char>
    decreases s.len(),
{
    if p.len() > 0 && p.is_suffix_of(s) {
        strip_copies_end(s.take(s.len() - p.len()), p)
    } else {
        s
    }
}

/// Removes every leading copy of `p`.
pub fn strip_copies_start_of(s: &str, p: &str) -> (res: String)
    ensures
        res@ == strip_copies_start(s@, p@),
{
    let v = chars_of(s);
    let q = chars_of(p);
    let mut n: usize = 0;
    assert(v@.skip(0) == v@);
    while q.len() > 0 && matches_at(&v, n, &q)
        invariant
            n <= v@.len(),
            strip_copies_start(v@, q@) == strip_copies_start(v@.skip(n as int), q@),
        decreases v@.len() - n,
    {
        assert(n + q.len() <= v.len());
        assert(v@.skip(n as int).skip(q@.len() as int) == v@.skip(n + q@.len()));
        n += q.len();
    }
    assert(v@.skip(n as int) == v@.subrange(n as int, v@.len() as int));
    text_between(&v, n, v.len())
}

/// Removes every trailing copy of `p`.
pub fn strip_copies_end_of(s: &str, p: &str) -> (res: String)
    ensures
        res@ == strip_copies_end(s@, p@),
{
    let v = chars_of(s);
    let q = chars_of(p);
    let mut n: usize = v.len();
    assert(v@.take(n as int) == v@);
    loop
        invariant
            v@ == s@,
            q@ == p@,
            n <= v@.len(),
            strip_copies_end(v@, q@) == strip_copies_end(v@.take(n as int), q@),
        decreases n,
    {
        let ghost t = v@.take(n as int);
        if q.len() == 0 || n < q.len() {
            assert(t == v@.subrange(0, n as int));
            return text_between(&v, 0, n);
        }
        let at = n - q.len();
        let tail = text_between(&v, at, n);
        let tail_chars = chars_of(tail.as_str());
        assert(t.skip(at as int) == v@.subrange(at as int, n as int));
        assert(tail_chars@.skip(0) == tail_chars@);
        if !matches_at(&tail_chars, 0, &q) {
            assert(!q@.is_suffix_of(t)) by {
                if q@.is_suffix_of(t) {
                    assert(t.subrange(t.len() - q@.len(), t.len() as int) == tail_chars@);
                    assert(tail_chars@.subrange(0, q@.len() as int) == tail_chars@);
                }
            }
            assert(t == v@.subrange(0, n as int));
            return text_between(&v, 0, n);
        }
        assert(q@.is_suffix_of(t)) by {
            assert(tail_chars@.subrange(0, q@.len() as int) == tail_chars@);
            assert(t.subrange(t.len() - q@.len(), t.len() as int) == tail_chars@);
        }
        assert(t.take(at as int) == v@.take(at as int));
        n = at;
    }
}

/// The number of characters before the first one of `class`.
pub open spec fn run_length(class: CharClass, s: Seq<char>) -> int
    decreases s.len(),
{
    if s.len() == 0 || in_class(class, s[0]) {
        0
    } else {
        1 + run_length(class, s.drop_first())
    }
}

/// A run never reaches past the end of the text.
pub proof fn lemma_run_length(class: CharClass, s: Seq<char>)
    ensures
        0 <= run_length(class, s) <= s.len(),
        s.len() > 0 && !in_class(class, s[0]) ==> run_length(class, s) > 0,
    decreases s.len(),
{
    if s.len() > 0 && !in_class(class, s[0]) {
        lemma_run_length(class, s.drop_first());
    }
}

/// Stripping never makes a text longer.
pub proof fn lemma_strip_start_len(class: CharClass, s: Seq<char>)
    ensures
        strip_start(class, s).len() <= s.len(),
        strip_start(class, s).len() > 0 ==> !in_class(class, strip_start(class, s)[0]),
    decreases s.len(),
{
    if s.len() > 0 && in_class(class, s[0]) {
        lemma_strip_start_len(class, s.drop_first());
    }
}

/// The maximal runs of characters that are not white space.
pub open spec fn words(s: Seq<char>) -> Seq<Seq<char>>
    decreases s.len(),
    via words_decreases
{
    let t = strip_start(CharClass::Space, s);
    if t.len() == 0 {
        Seq::empty()
    } else {
        let n = run_length(CharClass::Space, t);
        seq![t.take(n)] + words(t.skip(n))
    }
}

#[via_fn]
proof fn words_decreases(s: Seq<char>) {
    let t = strip_start(CharClass::Space, s);
    lemma_strip_start_len(CharClass::Space, s);
    lemma_run_length(CharClass::Space, t);
}

/// The texts of a list of strings.
pub open spec fn texts(v: Seq<String>) -> Seq<Seq<char>> {
    v.map_values(|s: String| s@)
}

/// Adds a copy of `s` to the end of the list.
pub fn put(list: &mut Vec<String>, s: &str)
    ensures
        texts(final(list)@) == texts(old(list)@).push(s@),
{
    list.push(s.to_owned());
    assert(texts(list@) =~= texts(old(list)@).push(s@));
}

/// Adds copies of the items of `more` to the end of the list.
pub fn put_list(list: &mut Vec<String>, more: &Vec<String>)
    ensures
        texts(final(list)@) == texts(old(list)@) + texts(more@),
{
    let ghost before = texts(list@);
    let mut i: usize = 0;
    assert(before + texts(more@).take(0) =~= before);
    while i < more.len()
        invariant
            i <= more@.len(),
            texts(list@) == before + texts(more@).take(i as int),
        decreases more@.len() - i,
    {
        put(list, more[i].as_str());
        assert(texts(more@).take(i + 1) =~= texts(more@).take(i as int).push(more@[i as int]@));
        assert(texts(list@) =~= before + texts(more@).take(i + 1));
        i += 1;
    }
    assert(texts(more@).take(i as int) =~= texts(more@));
}

/// Splits a text into its words.
pub fn split_words(s: &str) -> (res: Vec<String>)
    ensures
        texts(res@) == words(s@),
{
    let v = chars_of(s);
    let mut res: Vec<String> = Vec::new();
    let mut i: usize = 0;
    assert(v@.skip(0) == v@);
    assert(texts(res@) + words(v@) =~= words(v@));
    loop
        invariant
            v@ == s@,
            i <= v@.len(),
            words(s@) == texts(res@) + words(v@.skip(i as int)),
        decreases v@.len() - i,
    {
        let ghost rest = v@.skip(i as int);
        let ghost t = strip_start(CharClass::Space, rest);
        let ghost begun = i;
        while i < v.len() && is_whitespace(v[i])
            invariant
                begun <= i <= v@.len(),
                t == strip_start(CharClass::Space, v@.skip(i as int)),
            decreases v@.len() - i,
        {
            assert(v@.skip(i as int).drop_first() == v@.skip(i + 1));
            i += 1;
        }
        assert(t == v@.skip(i as int));
        if i == v.len() {
            assert(words(rest) =~= Seq::<Seq<char>>::empty());
            assert(texts(res@) + words(rest) =~= texts(res@));
            return res;
        }
        let from: usize = i;
        while i < v.len() && !is_whitespace(v[i])
            invariant
                from <= i <= v@.len(),
                t == v@.skip(from as int),
                run_length(CharClass::Space, t) == (i - from) + run_length(
                    CharClass::Space,
                    v@.skip(i as int),
                ),
            decreases v@.len() - i,
        {
            assert(v@.skip(i as int).drop_first() == v@.skip(i + 1));
            i += 1;
        }
        let word = text_between(&v, from, i);
        assert(t.take(i - from) == v@.subrange(from as int, i as int));
        assert(t.skip(i - from) == v@.skip(i as int));
        let ghost before = texts(res@);
        res.push(word);
        assert(texts(res@) =~= before.push(word@));
        assert(before + (seq![word@] + words(v@.skip(i as int))) =~= before.push(word@) + words(
            v@.skip(i as int),
        ));
    }
}

/// The position of the first `c` in `s`, or its length where there is none.
pub open spec fn position(s: Seq<char>, c: char) -> int
    decreases s.len(),
{
    if s.len() == 0 || s[0] == c {
        0
    } else {
        1 + position(s.drop_first(), c)
    }
}

/// [`position`] is the first index that holds `c`.
pub proof fn lemma_position(s: Seq<char>, c: char)
    ensures
        0 <= position(s, c) <= s.len(),
        position(s, c) < s.len() ==> s[position(s, c)] == c,
        forall|k: int| 0 <= k < position(s, c) ==> s[k] != c,
    decreases s.len(),
{
    if s.len() > 0 && s[0] != c {
        lemma_position(s.drop_first(), c);
        let n = position(s.drop_first(), c);
        assert forall|k: int| 0 <= k < n + 1 implies s[k] != c by {
            if k > 0 {
                assert(s[k] == s.drop_first()[k - 1]);
            }
        }
    }
}

/// What comes behind the first `c` does not move it.
pub proof fn lemma_position_concat(a: Seq<char>, b: Seq<char>, c: char)
    requires
        position(a, c) < a.len(),
    ensures
        position(a + b, c) == position(a, c),
    decreases a.len(),
{
    if a.len() > 0 && a[0] != c {
        assert((a + b).drop_first() =~= a.drop_first() + b);
        lemma_position_concat(a.drop_first(), b, c);
    }
}

/// The position of the first `c` at or after `from`, counted from `from`.
fn position_from(v: &Vec<char>, from: usize, c: char) -> (n: usize)
    requires
        from <= v@.len(),
    ensures
        from + n <= v.len(),
        n == position(v@.skip(from as int), c),
{
    let mut i: usize = from;
    while i < v.len() && v[i] != c
        invariant
            from <= i <= v@.len(),
            position(v@.skip(from as int), c) == (i - from) + position(v@.skip(i as int), c),
        decreases v@.len() - i,
    {
        assert(v@.skip(i as int).drop_first() == v@.skip(i + 1));
        i += 1;
    }
    i - from
}

/// A line without the carriage return that ends it.
pub open spec fn without_return(s: Seq<char>) -> Seq<char> {
    if s.len() > 0 && s.last() == '\r' {
        s.drop_last()
    } else {
        s
    }
}

/// The lines of a text: each ends at a line feed, which may follow a carriage
/// return, and the text after the last line feed is a line unless it is empty.
pub open spec fn lines(s: Seq<char>) -> Seq<Seq<char>>
    decreases s.len(),
    via lines_decreases
{
    let n = position(s, '\n');
    if s.len() == 0 {
        Seq::empty()
    } else if n == s.len() {
        seq![s]
    } else {
        seq![without_return(s.take(n))] + lines(s.skip(n + 1))
    }
}

#[via_fn]
proof fn lines_decreases(s: Seq<char>) {
    lemma_position(s, '\n');
}

/// Splits a text into its lines.
pub fn split_lines(s: &str) -> (res: Vec<String>)
    ensures
        texts(res@) == lines(s@),
{
    let v = chars_of(s);
    let mut res: Vec<String> = Vec::new();
    let mut i: usize = 0;
    assert(v@.skip(0) == v@);
    assert(texts(res@) + lines(v@) =~= lines(v@));
    while i < v.len()
        invariant
            v@ == s@,
            i <= v@.len(),
            lines(s@) == texts(res@) + lines(v@.skip(i as int)),
        decreases v@.len() - i,
    {
        let ghost rest = v@.skip(i as int);
        let ghost before = texts(res@);
        let n = position_from(&v, i, '\n');
        if i + n == v.len() {
            let line = text_between(&v, i, v.len());
            assert(line@ == rest);
            res.push(line);
            assert(texts(res@) =~= before.push(line@));
            assert(before + seq![rest] =~= texts(res@));
            return res;
        }
        proof {
            lemma_position(rest, '\n');
        }
        let mut to: usize = i + n;
        assert(rest.take(n as int) == v@.subrange(i as int, to as int));
        if to > i && v[to - 1] == '\r' {
            assert(rest.take(n as int).drop_last() == v@.subrange(i as int, to - 1));
            to -= 1;
        }
        let line = text_between(&v, i, to);
        assert(line@ == without_return(rest.take(n as int)));
        res.push(line);
        i = i + n + 1;
        assert(rest.skip(n + 1) == v@.skip(i as int));
        assert(texts(res@) =~= before.push(line@));
        assert(before + (seq![line@] + lines(v@.skip(i as int))) =~= before.push(line@) + lines(
            v@.skip(i as int),
        ));
    }
    assert(lines(v@.skip(i as int)) =~= Seq::<Seq<char>>::empty());
    assert(texts(res@) + lines(v@.skip(i as int)) =~= texts(res@));
    res
}

/// The parts in order, with `sep` between each and the next.
pub open spec fn joined(parts: Seq<Seq<char>>, sep: Seq<char>) -> Seq<char>
    decreases parts.len(),
{
    if parts.len() == 0 {
        Seq::empty()
    } else if parts.len() == 1 {
        parts[0]
    } else {
        joined(parts.drop_last(), sep) + sep + parts.last()
    }
}

/// Joins the parts with `sep` between them.
pub fn join(parts: &Vec<String>, sep: &str) -> (res: String)
    ensures
        res@ == joined(texts(parts@), sep@),
{
    let mut res: String = String::new();
    let mut i: usize = 0;
    assert(texts(parts@).take(0) =~= Seq::<Seq<char>>::empty());
    while i < parts.len()
        invariant
            i <= parts@.len(),
            res@ == joined(texts(parts@).take(i as int), sep@),
        decreases parts@.len() - i,
    {
        if i > 0 {
            res.append(sep);
        }
        res.append(parts[i].as_str());
        proof {
            let all = texts(parts@).take(i + 1);
            assert(all.drop_last() =~= texts(parts@).take(i as int));
            assert(all.last() == parts@[i as int]@);
            if i == 0 {
                assert(res@ =~= all[0]);
            }
        }
        i += 1;
    }
    assert(texts(parts@).take(i as int) =~= texts(parts@));
    res
}

/// `s` with each `from` replaced by the characters `to`.
pub open spec fn replaced(s: Seq<char>, from: char, to: Seq<char>) -> Seq<char>
    decreases s.len(),
{
    if s.len() == 0 {
        Seq::empty()
    } else {
        replaced(s.drop_last(), from, to) + if s.last() == from {
            to
        } else {
            seq![s.last()]
        }
    }
}

/// Replaces each `from` by the text `to`.
pub fn replace_char(s: &str, from: char, to: &str) -> (res: String)
    ensures
        res@ == replaced(s@, from, to@),
{
    let v = chars_of(s);
    let mut res: String = String::new();
    let mut i: usize = 0;
    assert(v@.take(0) =~= Seq::<char>::empty());
    while i < v.len()
        invariant
            v@ == s@,
            i <= v@.len(),
            res@ == replaced(v@.take(i as int), from, to@),
        decreases v@.len() - i,
    {
        assert(v@.take(i + 1).drop_last() =~= v@.take(i as int));
        if v[i] == from {
            res.append(to);
        } else {
            let ghost before = res@;
            res.push(v[i]);
            assert(res@ =~= before + seq![v@[i as int]]);
        }
        i += 1;
    }
    assert(v@.take(i as int) =~= v@);
    res
}

/// The part of `s` after its last `c`; all of `s` where there is none.
pub open spec fn after_last(s: Seq<char>, c: char) -> Seq<char>
    decreases s.len(),
{
    let n = position(s, c);
    if 0 <= n < s.len() {
        after_last(s.skip(n + 1), c)
    } else {
        s
    }
}

/// The part of a text after its last `c`; all of it where there is none.
pub fn tail_after_last(s: &str, c: char) -> (res: String)
    ensures
        res@ == after_last(s@, c),
{
    let v = chars_of(s);
    let mut i: usize = 0;
    assert(v@.skip(0) == v@);
    loop
        invariant
            v@ == s@,
            i <= v@.len(),
            after_last(s@, c) == after_last(v@.skip(i as int), c),
        decreases v@.len() - i,
    {
        let n = position_from(&v, i, c);
        if i + n == v.len() {
            assert(v@.skip(i as int) == v@.subrange(i as int, v@.len() as int));
            return text_between(&v, i, v.len());
        }
        assert(v@.skip(i as int).skip(n + 1) == v@.skip(i + n + 1));
        i = i + n + 1;
    }
}

/// The part of `s` before its first `c`; all of `s` where there is none.
pub open spec fn before_first(s: Seq<char>, c: char) -> Seq<char> {
    s.take(position(s, c))
}

/// The part of `s` after its first `c`, if there is one.
pub open spec fn after_first(s: Seq<char>, c: char) -> Option<Seq<char>> {
    if position(s, c) < s.len() {
        Some(s.skip(position(s, c) + 1))
    } else {
        None
    }
}

/// The part of a text before its first `c`; all of it where there is none.
pub fn head_before_first(s: &str, c: char) -> (res: String)
    ensures
        res@ == before_first(s@, c),
{
    let v = chars_of(s);
    assert(v@.skip(0) == v@);
    let n = position_from(&v, 0, c);
    assert(v@.take(n as int) == v@.subrange(0, n as int));
    text_between(&v, 0, n)
}

/// The part of a text after its first `c`, if there is one.
pub fn tail_after_first(s: &str, c: char) -> (res: Option<String>)
    ensures
        opt_text(res) == after_first(s@, c),
{
    let v = chars_of(s);
    assert(v@.skip(0) == v@);
    let n = position_from(&v, 0, c);
    if n == v.len() {
        None
    } else {
        assert(v@.skip(n + 1) == v@.subrange(n + 1, v@.len() as int));
        Some(text_between(&v, n + 1, v.len()))
    }
}

/// The part of `s` before the last `p`, if there is one.
pub open spec fn before_last(s: Seq<char>, p: Seq<char>) -> Option<Seq<char>>
    decreases s.len(),
{
    if s.len() < p.len() || s.len() == 0 {
        None
    } else if s.skip(s.len() - p.len()) == p {
        Some(s.take(s.len() - p.len()))
    } else {
        before_last(s.drop_last(), p)
    }
}

/// The part of a text before the last `p`, if there is one.
pub fn head_before_last(s: &str, p: &str) -> (res: Option<String>)
    ensures
        opt_text(res) == before_last(s@, p@),
{
    let v = chars_of(s);
    let w = chars_of(p);
    let mut n: usize = v.len();
    assert(v@.take(n as int) =~= v@);
    while n >= w.len() && n > 0
        invariant
            v@ == s@,
            w@ == p@,
            n <= v@.len(),
            before_last(s@, p@) == before_last(v@.take(n as int), p@),
        decreases n,
    {
        let at: usize = n - w.len();
        assert(v@.take(n as int).skip(at as int) =~= v@.subrange(at as int, n as int));
        assert(v@.take(n as int).take(at as int) =~= v@.subrange(0, at as int));
        assert(v@.skip(at as int).subrange(0, w@.len() as int) =~= v@.subrange(at as int, n as int));
        if matches_at(&v, at, &w) {
            return Some(text_between(&v, 0, at));
        }
        assert(v@.take(n as int).drop_last() =~= v@.take(n - 1));
        n -= 1;
    }
    None
}

/// How many words begin in `s`.
pub open spec fn word_starts(s: Seq<char>) -> int
    decreases s.len(),
{
    if s.len() == 0 {
        0
    } else {
        word_starts(s.drop_last()) + if !is_space(s.last()) && (s.len() == 1 || is_space(
            s[s.len() - 2],
        )) {
            1int
        } else {
            0int
        }
    }
}

/// Joining two texts joins at most one word of each into one.
pub proof fn lemma_starts_concat(a: Seq<char>, b: Seq<char>)
    ensures
        word_starts(a + b) == word_starts(a) + word_starts(b) - if a.len() > 0 && b.len() > 0
            && !is_space(a.last()) && !is_space(b[0]) {
            1int
        } else {
            0int
        },
    decreases b.len(),
{
    if b.len() == 0 {
        assert(a + b =~= a);
    } else {
        let rest = b.drop_last();
        assert((a + b).drop_last() =~= a + rest);
        lemma_starts_concat(a, rest);
        if b.len() == 1 {
            assert(rest =~= Seq::<char>::empty());
            assert(a + rest =~= a);
        }
    }
}

/// Words begin a number of times, and at least once in a text that begins with
/// one.
proof fn lemma_starts_bounds(s: Seq<char>)
    ensures
        word_starts(s) >= 0,
        s.len() > 0 && !is_space(s[0]) ==> word_starts(s) >= 1,
    decreases s.len(),
{
    if s.len() > 0 {
        lemma_starts_bounds(s.drop_last());
    }
}

/// In a text of white space no word begins, and in one without it only one.
pub proof fn lemma_starts_uniform(s: Seq<char>)
    ensures
        (forall|i: int| 0 <= i < s.len() ==> is_space(#[trigger] s[i])) ==> word_starts(s) == 0,
        s.len() > 0 && (forall|i: int| 0 <= i < s.len() ==> !is_space(#[trigger] s[i]))
            ==> word_starts(s) == 1,
    decreases s.len(),
{
    if s.len() > 0 {
        let rest = s.drop_last();
        lemma_starts_uniform(rest);
        if forall|i: int| 0 <= i < s.len() ==> is_space(#[trigger] s[i]) {
            assert forall|i: int| 0 <= i < rest.len() implies is_space(#[trigger] rest[i]) by {
                assert(rest[i] == s[i]);
            }
            assert(is_space(s[s.len() - 1]));
        }
        if forall|i: int| 0 <= i < s.len() ==> !is_space(#[trigger] s[i]) {
            assert forall|i: int| 0 <= i < rest.len() implies !is_space(#[trigger] rest[i]) by {
                assert(rest[i] == s[i]);
            }
            assert(!is_space(s[s.len() - 1]));
            if s.len() > 1 {
                assert(!is_space(s[s.len() - 2]));
            }
        }
    }
}

/// Stripping leaves out leading characters of the class and nothing else.
pub proof fn lemma_strip_start_skip(class: CharClass, s: Seq<char>) -> (n: int)
    ensures
        0 <= n <= s.len(),
        strip_start(class, s) == s.skip(n),
        forall|k: int| 0 <= k < n ==> in_class(class, #[trigger] s[k]),
    decreases s.len(),
{
    if s.len() > 0 && in_class(class, s[0]) {
        let n = lemma_strip_start_skip(class, s.drop_first());
        assert(s.drop_first().skip(n) =~= s.skip(n + 1));
        assert forall|k: int| 0 <= k < n + 1 implies in_class(class, #[trigger] s[k]) by {
            if k > 0 {
                assert(s[k] == s.drop_first()[k - 1]);
            }
        }
        n + 1
    } else {
        assert(s.skip(0) =~= s);
        0
    }
}

/// Stripping leaves out trailing characters of the class and nothing else.
pub proof fn lemma_strip_end_take(class: CharClass, s: Seq<char>) -> (n: int)
    ensures
        0 <= n <= s.len(),
        strip_end(class, s) == s.take(n),
        n > 0 ==> !in_class(class, s[n - 1]),
        forall|k: int| n <= k < s.len() ==> in_class(class, #[trigger] s[k]),
    decreases s.len(),
{
    if s.len() > 0 && in_class(class, s.last()) {
        let n = lemma_strip_end_take(class, s.drop_last());
        assert(s.drop_last().take(n) =~= s.take(n));
        assert forall|k: int| n <= k < s.len() implies in_class(class, #[trigger] s[k]) by {
            if k < s.len() - 1 {
                assert(s[k] == s.drop_last()[k]);
            }
        }
        n
    } else {
        assert(s.take(s.len() as int) =~= s);
        s.len() as int
    }
}

/// A trimmed text is trimmed.
pub proof fn lemma_trimmed(s: Seq<char>)
    ensures
        trimmed(trimmed(s)) == trimmed(s),
{
    let rest = strip_start(CharClass::Space, s);
    lemma_strip_start_len(CharClass::Space, s);
    let n = lemma_strip_end_take(CharClass::Space, rest);
    let t = trimmed(s);
    if t.len() > 0 {
        assert(t[0] == rest[0]);
        assert(t.last() == rest[n - 1]);
    }
}

/// What stands behind the last `c` of a text.
pub proof fn lemma_after_last_at(s: Seq<char>, c: char, at: int)
    requires
        0 <= at < s.len(),
        s[at] == c,
        forall|k: int| at < k < s.len() ==> #[trigger] s[k] != c,
    ensures
        after_last(s, c) == s.skip(at + 1),
    decreases s.len(),
{
    lemma_position(s, c);
    let n = position(s, c);
    let rest = s.skip(n + 1);
    if n < at {
        assert forall|k: int| at - n - 1 < k < rest.len() implies #[trigger] rest[k] != c by {
            assert(rest[k] == s[k + n + 1]);
        }
        assert(rest[at - n - 1] == s[at]);
        lemma_after_last_at(rest, c, at - n - 1);
        assert(rest.skip(at - n) =~= s.skip(at + 1));
    } else {
        assert(n == at);
        lemma_position(rest, c);
        if position(rest, c) < rest.len() {
            assert(rest[position(rest, c)] == s[position(rest, c) + n + 1]);
        }
        assert(after_last(rest, c) == rest);
    }
}

/// A text is one line where it has no line feed and does not end with a carriage
/// return.
pub proof fn lemma_one_line(s: Seq<char>)
    requires
        s.len() > 0,
        s.last() != '\r',
        forall|k: int| 0 <= k < s.len() ==> #[trigger] s[k] != '\n',
    ensures
        lines(s.push('\n')) == seq![s],
{
    let all = s.push('\n');
    lemma_position(all, '\n');
    let n = position(all, '\n');
    if n < s.len() {
        assert(all[n] == s[n]);
    }
    assert(all[s.len() as int] == '\n');
    assert(n == s.len());
    assert(all.take(n) =~= s);
    assert(all.skip(n + 1) =~= Seq::<char>::empty());
    assert(lines(all.skip(n + 1)) == Seq::<Seq<char>>::empty());
    assert(lines(all) =~= seq![s]);
}

/// A run holds no character of the class and ends at one.
pub proof fn lemma_run_plain(class: CharClass, s: Seq<char>)
    ensures
        0 <= run_length(class, s) <= s.len(),
        forall|k: int| 0 <= k < run_length(class, s) ==> !in_class(class, #[trigger] s[k]),
        run_length(class, s) < s.len() ==> in_class(class, s[run_length(class, s)]),
    decreases s.len(),
{
    if s.len() > 0 && !in_class(class, s[0]) {
        lemma_run_plain(class, s.drop_first());
        let n = run_length(class, s.drop_first());
        assert forall|k: int| 0 <= k < n + 1 implies !in_class(class, #[trigger] s[k]) by {
            if k > 0 {
                assert(s[k] == s.drop_first()[k - 1]);
            }
        }
    }
}

/// There are as many words in a text as begin in it, and each is a text without
/// white space that is not empty.
pub proof fn lemma_words(s: Seq<char>)
    ensures
        words(s).len() == word_starts(s),
        forall|i: int|
            0 <= i < words(s).len() ==> (#[trigger] words(s)[i]).len() > 0 && word_starts(
                words(s)[i],
            ) == 1,
    decreases s.len(),
{
    let t = strip_start(CharClass::Space, s);
    let m = lemma_strip_start_skip(CharClass::Space, s);
    lemma_strip_start_len(CharClass::Space, s);
    let pre = s.take(m);
    assert forall|i: int| 0 <= i < pre.len() implies is_space(#[trigger] pre[i]) by {
        assert(in_class(CharClass::Space, s[i]));
    }
    lemma_starts_uniform(pre);
    lemma_starts_concat(pre, t);
    assert(pre + t =~= s);
    if pre.len() > 0 {
        assert(is_space(pre[pre.len() - 1]));
    }
    assert(word_starts(s) == word_starts(t));
    if t.len() > 0 {
        let n = run_length(CharClass::Space, t);
        lemma_run_length(CharClass::Space, t);
        lemma_run_plain(CharClass::Space, t);
        let run = t.take(n);
        let rest = t.skip(n);
        assert forall|i: int| 0 <= i < run.len() implies !is_space(#[trigger] run[i]) by {
            assert(!in_class(CharClass::Space, t[i]));
        }
        lemma_starts_uniform(run);
        lemma_starts_concat(run, rest);
        assert(run + rest =~= t);
        lemma_words(rest);
        assert(words(s) =~= seq![run] + words(rest));
        assert forall|i: int| 0 <= i < words(s).len() implies (#[trigger] words(s)[i]).len() > 0
            && word_starts(words(s)[i]) == 1 by {
            if i > 0 {
                assert(words(s)[i] == words(rest)[i - 1]);
            }
        }
    }
}

/// Fewer words begin in a part at the start of a text than in the whole.
pub proof fn lemma_starts_take(s: Seq<char>, n: int)
    requires
        0 <= n <= s.len(),
    ensures
        word_starts(s.take(n)) <= word_starts(s),
{
    let a = s.take(n);
    let b = s.skip(n);
    assert(a + b =~= s);
    lemma_starts_concat(a, b);
    lemma_starts_bounds(b);
}

/// Joining words with spaces makes no more words.
pub proof fn lemma_starts_joined(parts: Seq<Seq<char>>)
    requires
        forall|i: int| 0 <= i < parts.len() ==> word_starts(#[trigger] parts[i]) <= 1,
    ensures
        word_starts(joined(parts, " "@)) <= parts.len(),
    decreases parts.len(),
{
    reveal_strlit(" ");
    if parts.len() == 1 {
        assert(word_starts(parts[0]) <= 1);
    } else if parts.len() > 1 {
        let rest = parts.drop_last();
        assert forall|i: int| 0 <= i < rest.len() implies word_starts(#[trigger] rest[i]) <= 1 by {
            assert(rest[i] == parts[i]);
        }
        lemma_starts_joined(rest);
        lemma_starts_uniform(" "@);
        lemma_starts_concat(joined(rest, " "@), " "@);
        lemma_starts_concat(joined(rest, " "@) + " "@, parts.last());
        assert(word_starts(parts[parts.len() - 1]) <= 1);
    }
}

/// A joined text begins with its first part.
pub proof fn lemma_joined_first(parts: Seq<Seq<char>>, sep: Seq<char>)
    requires
        parts.len() > 0,
        parts[0].len() > 0,
    ensures
        joined(parts, sep).len() > 0,
        joined(parts, sep)[0] == parts[0][0],
    decreases parts.len(),
{
    if parts.len() > 1 {
        lemma_joined_first(parts.drop_last(), sep);
    }
}

/// Among the ASCII characters, the blank, the tabs and the line ends are white
/// space and nothing else is; beyond them, what Unicode lists.
pub proof fn law_space(c: char)
    ensures
        c <= '\u{7f}' ==> (is_space(c) <==> c == ' ' || c == '\t' || c == '\n' || c == '\u{b}' || c
            == '\u{c}' || c == '\r'),
        c > '\u{7f}' ==> (is_space(c) <==> c == '\u{85}' || c == '\u{a0}' || c == '\u{1680}' || (
        '\u{2000}' <= c <= '\u{200a}') || c == '\u{2028}' || c == '\u{2029}' || c == '\u{202f}' || c
            == '\u{205f}' || c == '\u{3000}'),
{
}

/// Which characters a class holds.
pub proof fn law_classes(c: char)
    ensures
        in_class(CharClass::Space, c) <==> is_space(c),
        in_class(CharClass::Pause, c) <==> c == ',' || c == '.' || c == ';' || c == ':',
        in_class(CharClass::Quote, c) <==> c == '"' || c == '\'' || c == '*',
        in_class(CharClass::Stop, c) <==> c == '.' || c == '!',
        in_class(CharClass::Dash, c) <==> c == '-',
        c <= '\u{7f}' ==> (in_class(CharClass::NotAlphanumeric, c) <==> !('a' <= c <= 'z' || 'A' <= c
            <= 'Z' || '0' <= c <= '9')),
{
}

/// Stripping takes a text's ends: what is left is a part of the text, everything
/// around it is of the class, and neither of its ends is.
pub proof fn law_strip(class: CharClass, s: Seq<char>)
    ensures
        exists|a: int, b: int|
            {
                &&& 0 <= a <= b <= s.len()
                &&& strip_end(class, strip_start(class, s)) == #[trigger] s.subrange(a, b)
                &&& forall|k: int| 0 <= k < a || b <= k < s.len() ==> in_class(class, #[trigger] s[k])
                &&& a < b ==> !in_class(class, s[a]) && !in_class(class, s[b - 1])
            },
        exists|a: int|
            {
                &&& 0 <= a <= s.len()
                &&& strip_start(class, s) == #[trigger] s.skip(a)
                &&& forall|k: int| 0 <= k < a ==> in_class(class, #[trigger] s[k])
                &&& a < s.len() ==> !in_class(class, s[a])
            },
        exists|b: int|
            {
                &&& 0 <= b <= s.len()
                &&& strip_end(class, s) == #[trigger] s.take(b)
                &&& forall|k: int| b <= k < s.len() ==> in_class(class, #[trigger] s[k])
                &&& 0 < b ==> !in_class(class, s[b - 1])
            },
{
    let a = lemma_strip_start_skip(class, s);
    lemma_strip_start_len(class, s);
    let rest = strip_start(class, s);
    let n = lemma_strip_end_take(class, rest);
    let b = a + n;
    assert(s.subrange(a, b) =~= rest.take(n));
    assert forall|k: int| 0 <= k < a || b <= k < s.len() implies in_class(class, #[trigger] s[k]) by {
        if b <= k {
            assert(s[k] == rest[k - a]);
        }
    }
    if a < b {
        assert(s[a] == rest[0]);
        assert(s[b - 1] == rest[n - 1]);
    }
    if a < s.len() {
        assert(s[a] == rest[0]);
    }
    assert(strip_start(class, s) == s.skip(a));
    let e = lemma_strip_end_take(class, s);
    assert(strip_end(class, s) == s.take(e));
}

/// Trimming takes the white space at both ends of a text and nothing else, and
/// a text is blank where it holds nothing but white space.
pub proof fn law_trim(s: Seq<char>)
    ensures
        exists|a: int, b: int|
            {
                &&& 0 <= a <= b <= s.len()
                &&& trimmed(s) == #[trigger] s.subrange(a, b)
                &&& forall|k: int| 0 <= k < a || b <= k < s.len() ==> is_space(#[trigger] s[k])
                &&& a < b ==> !is_space(s[a]) && !is_space(s[b - 1])
            },
        is_blank(s) <==> forall|k: int| 0 <= k < s.len() ==> is_space(#[trigger] s[k]),
{
    let class = CharClass::Space;
    law_strip(class, s);
    let (a, b) = choose|a: int, b: int|
        {
            &&& 0 <= a <= b <= s.len()
            &&& strip_end(class, strip_start(class, s)) == #[trigger] s.subrange(a, b)
            &&& forall|k: int| 0 <= k < a || b <= k < s.len() ==> in_class(class, #[trigger] s[k])
            &&& a < b ==> !in_class(class, s[a]) && !in_class(class, s[b - 1])
        };
    assert(trimmed(s) == s.subrange(a, b));
    assert forall|k: int| 0 <= k < a || b <= k < s.len() implies is_space(#[trigger] s[k]) by {
        assert(in_class(class, s[k]));
    }
    if is_blank(s) {
        assert(a == b);
    } else {
        assert(a < b);
        assert(!is_space(s[a]));
    }
}

/// Joining puts the separator between one part and the next, and nowhere else.
pub proof fn law_joined(parts: Seq<Seq<char>>, last: Seq<char>, sep: Seq<char>)
    ensures
        joined(Seq::empty(), sep) == Seq::<char>::empty(),
        joined(seq![last], sep) == last,
        parts.len() > 0 ==> joined(parts.push(last), sep) == joined(parts, sep) + sep + last,
{
    assert(parts.push(last).drop_last() =~= parts);
}

/// A text without line feeds is one line; a line feed ends a line and takes the
/// carriage return before it along.
pub proof fn law_lines(line: Seq<char>, rest: Seq<char>)
    requires
        forall|k: int| 0 <= k < line.len() ==> #[trigger] line[k] != '\n',
    ensures
        line.len() > 0 ==> lines(line) == seq![line],
        lines(Seq::empty()) == Seq::<Seq<char>>::empty(),
        lines(line + seq!['\n'] + rest) == seq![
            if line.len() > 0 && line.last() == '\r' {
                line.drop_last()
            } else {
                line
            },
        ] + lines(rest),
{
    let all = line + seq!['\n'] + rest;
    lemma_position(all, '\n');
    let n = position(all, '\n');
    if n < line.len() {
        assert(all[n] == line[n]);
    }
    assert(all[line.len() as int] == '\n');
    assert(n == line.len());
    assert(all.take(n) =~= line);
    assert(all.skip(n + 1) =~= rest);
    lemma_position(line, '\n');
}

/// Leading white space does not count for the words of a text.
proof fn lemma_words_space(s: Seq<char>)
    requires
        s.len() > 0,
        is_space(s[0]),
    ensures
        words(s) == words(s.drop_first()),
{
    assert(strip_start(CharClass::Space, s) == strip_start(CharClass::Space, s.drop_first()));
}

/// A run that ends within a text is not changed by what follows it.
proof fn lemma_run_concat(class: CharClass, a: Seq<char>, b: Seq<char>)
    requires
        b.len() > 0,
        in_class(class, b[0]),
    ensures
        run_length(class, a + b) == run_length(class, a),
    decreases a.len(),
{
    if a.len() == 0 {
        assert(a + b =~= b);
    } else if !in_class(class, a[0]) {
        assert((a + b).drop_first() =~= a.drop_first() + b);
        lemma_run_concat(class, a.drop_first(), b);
    }
}

/// White space separates words: the words of two texts with white space between
/// them are those of the first and then those of the second, and a text without
/// white space is one word.
pub proof fn law_words(a: Seq<char>, space: char, b: Seq<char>)
    requires
        is_space(space),
    ensures
        words(a + seq![space] + b) == words(a) + words(b),
        a.len() > 0 && (forall|k: int| 0 <= k < a.len() ==> !is_space(#[trigger] a[k])) ==> words(a)
            == seq![a],
    decreases a.len(),
{
    let class = CharClass::Space;
    let all = a + seq![space] + b;
    let tail = seq![space] + b;
    assert(all =~= a + tail);
    assert(tail.drop_first() =~= b);
    lemma_words_space(tail);
    assert(words(Seq::<char>::empty()) =~= Seq::<Seq<char>>::empty());
    if a.len() == 0 {
        assert(all =~= tail);
        assert(a =~= Seq::<char>::empty());
        assert(words(a) + words(b) =~= words(b));
    } else if is_space(a[0]) {
        assert(all.drop_first() =~= a.drop_first() + seq![space] + b);
        lemma_words_space(all);
        lemma_words_space(a);
        law_words(a.drop_first(), space, b);
    } else {
        lemma_run_plain(class, a);
        lemma_run_length(class, a);
        lemma_run_concat(class, a, tail);
        let n = run_length(class, a);
        assert(strip_start(class, a) == a);
        assert(strip_start(class, all) == all);
        assert(all.take(n) =~= a.take(n));
        assert(all.skip(n) =~= a.skip(n) + seq![space] + b);
        law_words(a.skip(n), space, b);
        assert(words(all) =~= seq![a.take(n)] + (words(a.skip(n)) + words(b)));
        assert(words(a) == seq![a.take(n)] + words(a.skip(n)));
        assert(words(all) =~= words(a) + words(b));
        if forall|k: int| 0 <= k < a.len() ==> !is_space(#[trigger] a[k]) {
            if n < a.len() {
                assert(is_space(a[n]));
            }
            assert(a.take(n) =~= a);
            assert(a.skip(n) =~= Seq::<char>::empty());
            assert(words(a) =~= seq![a]);
        }
    }
}

/// Replacing a character goes through a text character by character.
pub proof fn law_replaced(s: Seq<char>, c: char, from: char, to: Seq<char>)
    ensures
        replaced(Seq::empty(), from, to) == Seq::<char>::empty(),
        replaced(s.push(c), from, to) == replaced(s, from, to) + if c == from {
            to
        } else {
            seq![c]
        },
{
    assert(s.push(c).drop_last() =~= s);
}

/// A text is cut at the first occurrence of a character.
pub proof fn law_cut_first(a: Seq<char>, c: char, b: Seq<char>)
    requires
        forall|k: int| 0 <= k < a.len() ==> #[trigger] a[k] != c,
    ensures
        before_first(a + seq![c] + b, c) == a,
        after_first(a + seq![c] + b, c) == Some(b),
        before_first(a, c) == a,
        after_first(a, c) is None,
{
    let all = a + seq![c] + b;
    lemma_position(all, c);
    lemma_position(a, c);
    let n = position(all, c);
    if n < a.len() {
        assert(all[n] == a[n]);
    }
    assert(all[a.len() as int] == c);
    assert(all.take(n) =~= a);
    assert(all.skip(n + 1) =~= b);
    assert(a.take(position(a, c)) =~= a);
}

/// A text is cut at the last occurrence of a character.
pub proof fn law_cut_last(a: Seq<char>, c: char, b: Seq<char>)
    requires
        forall|k: int| 0 <= k < b.len() ==> #[trigger] b[k] != c,
    ensures
        after_last(a + seq![c] + b, c) == b,
        after_last(b, c) == b,
{
    let all = a + seq![c] + b;
    assert forall|k: int| a.len() < k < all.len() implies #[trigger] all[k] != c by {
        assert(all[k] == b[k - a.len() - 1]);
    }
    lemma_after_last_at(all, c, a.len() as int);
    assert(all.skip(a.len() as int + 1) =~= b);
    lemma_position(b, c);
}

/// What stands before the last occurrence of a text: the occurrence follows it,
/// and there is none further on. Where nothing does, the text does not occur.
pub proof fn law_before_last(s: Seq<char>, p: Seq<char>)
    requires
        p.len() > 0,
    ensures
        match before_last(s, p) {
            Some(a) => {
                &&& a.len() + p.len() <= s.len()
                &&& s.take(a.len() as int) == a
                &&& s.subrange(a.len() as int, a.len() as int + p.len()) == p
                &&& forall|k: int|
                    a.len() < k <= s.len() - p.len() ==> #[trigger] s.subrange(k, k + p.len()) != p
            },
            None => forall|k: int|
                0 <= k <= s.len() - p.len() ==> #[trigger] s.subrange(k, k + p.len()) != p,
        },
    decreases s.len(),
{
    if s.len() >= p.len() {
        let at = s.len() - p.len();
        assert(s.skip(at) =~= s.subrange(at, at + p.len()));
        if s.skip(at) != p {
            let t = s.drop_last();
            law_before_last(t, p);
            assert forall|k: int| 0 <= k < at implies #[trigger] s.subrange(k, k + p.len())
                == t.subrange(k, k + p.len()) by {
                assert(s.subrange(k, k + p.len()) =~= t.subrange(k, k + p.len()));
            }
            match before_last(s, p) {
                Some(a) => {
                    assert(s.take(a.len() as int) =~= t.take(a.len() as int));
                    assert forall|k: int| a.len() < k <= s.len() - p.len() implies #[trigger] s.subrange(
                        k,
                        k + p.len(),
                    ) != p by {
                        if k < at {
                            assert(t.subrange(k, k + p.len()) != p);
                        }
                    }
                },
                None => {
                    assert forall|k: int| 0 <= k <= s.len() - p.len() implies #[trigger] s.subrange(
                        k,
                        k + p.len(),
                    ) != p by {
                        if k < at {
                            assert(t.subrange(k, k + p.len()) != p);
                        }
                    }
                },
            }
        }
    }
}

/// A text holds another exactly where it is made of something, the other and
/// something else.
pub proof fn law_contains(s: Seq<char>, p: Seq<char>)
    ensures
        contains(s, p) <==> exists|a: Seq<char>, b: Seq<char>| s == #[trigger] (a + p + b),
{
    if contains(s, p) {
        let i = choose|i: int| 0 <= i <= s.len() && p.is_prefix_of(#[trigger] s.skip(i));
        let b = s.skip(i).skip(p.len() as int);
        assert(s.skip(i).take(p.len() as int) =~= p);
        assert(s =~= s.take(i) + p + b);
    }
    if exists|a: Seq<char>, b: Seq<char>| s == #[trigger] (a + p + b) {
        let (a, b) = choose|a: Seq<char>, b: Seq<char>| s == #[trigger] (a + p + b);
        assert(s.skip(a.len() as int) =~= p + b);
        assert(s.skip(a.len() as int).subrange(0, p.len() as int) =~= p);
        assert(p.is_prefix_of(s.skip(a.len() as int)));
    }
}

/// What follows a prefix, and that copies of a text are taken off an end one
/// after the other.
pub proof fn law_prefix(p: Seq<char>, rest: Seq<char>)
    ensures
        after_prefix(p + rest, p) == Some(rest),
        after_prefix(rest, p) is None <==> !p.is_prefix_of(rest),
        p.len() > 0 ==> strip_copies_start(p + rest, p) == strip_copies_start(rest, p),
        p.len() > 0 ==> strip_copies_end(rest + p, p) == strip_copies_end(rest, p),
        !p.is_prefix_of(rest) ==> strip_copies_start(rest, p) == rest,
        !p.is_suffix_of(rest) ==> strip_copies_end(rest, p) == rest,
{
    assert((p + rest).subrange(0, p.len() as int) =~= p);
    assert((p + rest).skip(p.len() as int) =~= rest);
    let e = rest + p;
    assert(e.subrange(e.len() - p.len(), e.len() as int) =~= p);
    assert(e.take(e.len() - p.len()) =~= rest);
}

/// The case of an ASCII text is changed letter by letter: a small letter and its
/// capital are 32 apart, and nothing else changes.
pub proof fn law_case(s: Seq<char>)
    requires
        all_ascii(s),
    ensures
        upper(s).len() == s.len(),
        lower(s).len() == s.len(),
        forall|i: int|
            0 <= i < s.len() ==> (#[trigger] upper(s)[i]) as int == if 'a' <= s[i] <= 'z' {
                s[i] as int - 32
            } else {
                s[i] as int
            },
        forall|i: int|
            0 <= i < s.len() ==> (#[trigger] lower(s)[i]) as int == if 'A' <= s[i] <= 'Z' {
                s[i] as int + 32
            } else {
                s[i] as int
            },
{
}

/// Beyond ASCII, the case of a text is changed as Unicode says.
pub proof fn law_case_beyond(s: Seq<char>)
    requires
        !all_ascii(s),
    ensures
        upper(s) == uppercase(s),
        lower(s) == lowercase(s),
{
}

/// A list of texts stands for what each of them holds, and an optional text for
/// what it holds.
pub proof fn law_texts(v: Seq<String>, s: Option<String>, t: Option<&str>)
    ensures
        texts(v).len() == v.len(),
        forall|i: int| 0 <= i < v.len() ==> #[trigger] texts(v)[i] == v[i]@,
        opt_text(s) == match s {
            Some(x) => Some(x@),
            None => None,
        },
        opt_str(t) == match t {
            Some(x) => Some(x@),
            None => None,
        },
{
}

/// A joined text holds each of its parts.
pub proof fn law_joined_holds(parts: Seq<Seq<char>>, sep: Seq<char>, i: int)
    requires
        0 <= i < parts.len(),
    ensures
        exists|a: Seq<char>, b: Seq<char>| joined(parts, sep) == #[trigger] (a + parts[i] + b),
    decreases parts.len(),
{
    let none = Seq::<char>::empty();
    if parts.len() == 1 {
        assert(joined(parts, sep) =~= none + parts[i] + none);
    } else if i == parts.len() - 1 {
        assert(joined(parts, sep) =~= (joined(parts.drop_last(), sep) + sep) + parts[i] + none);
    } else {
        law_joined_holds(parts.drop_last(), sep, i);
        let (a, b) = choose|a: Seq<char>, b: Seq<char>|
            joined(parts.drop_last(), sep) == #[trigger] (a + parts[i] + b);
        assert(joined(parts, sep) =~= a + parts[i] + (b + sep + parts.last()));
    }
}

/// Where the text between two points neither begins nor ends with white space
/// and there is nothing but white space around it, trimming leaves just it.
pub proof fn law_trim_at(s: Seq<char>, a: int, b: int)
    requires
        0 <= a < b <= s.len(),
        forall|k: int| 0 <= k < a || b <= k < s.len() ==> is_space(#[trigger] s[k]),
        !is_space(s[a]),
        !is_space(s[b - 1]),
    ensures
        trimmed(s) == s.subrange(a, b),
{
    law_trim(s);
    let (c, d) = choose|c: int, d: int|
        {
            &&& 0 <= c <= d <= s.len()
            &&& trimmed(s) == #[trigger] s.subrange(c, d)
            &&& forall|k: int| 0 <= k < c || d <= k < s.len() ==> is_space(#[trigger] s[k])
            &&& c < d ==> !is_space(s[c]) && !is_space(s[d - 1])
        };
    assert(c <= a < d);
    assert(c <= b - 1 < d);
    assert(a <= c < b);
    assert(a <= d - 1 < b);
}

/// A text that neither begins nor ends with white space is trimmed already, and
/// white space around it does not count.
pub proof fn law_trim_around(a: Seq<char>, s: Seq<char>, b: Seq<char>)
    requires
        s.len() > 0,
        !is_space(s[0]),
        !is_space(s.last()),
        forall|k: int| 0 <= k < a.len() ==> is_space(#[trigger] a[k]),
        forall|k: int| 0 <= k < b.len() ==> is_space(#[trigger] b[k]),
    ensures
        trimmed(s) == s,
        trimmed(a + s + b) == s,
{
    law_trim_at(s, 0, s.len() as int);
    assert(s.subrange(0, s.len() as int) =~= s);
    let t = a + s + b;
    let from = a.len() as int;
    let to = from + s.len();
    assert(t[from] == s[0]);
    assert(t[to - 1] == s[s.len() - 1]);
    assert forall|k: int| 0 <= k < from || to <= k < t.len() implies is_space(#[trigger] t[k]) by {
        if k < from {
            assert(t[k] == a[k]);
        } else {
            assert(t[k] == b[k - to]);
        }
    }
    law_trim_at(t, from, to);
    assert(t.subrange(from, to) =~= s);
}

/// A text is ASCII exactly where each of its characters is.
pub proof fn law_ascii(s: Seq<char>, c: char)
    ensures
        all_ascii(Seq::empty()),
        all_ascii(s.push(c)) <==> all_ascii(s) && c as int <= 127,
{
    if all_ascii(s.push(c)) {
        assert forall|i: int| 0 <= i < s.len() implies #[trigger] s[i] <= '\u{7f}' by {
            assert(s.push(c)[i] == s[i]);
        }
        assert(s.push(c)[s.len() as int] == c);
    }
    if all_ascii(s) && c as int <= 127 {
        assert forall|i: int| 0 <= i < s.push(c).len() implies #[trigger] s.push(c)[i] <= '\u{7f}' by {
            if i < s.len() {
                assert(s.push(c)[i] == s[i]);
            }
        }
    }
}

} // verus!
