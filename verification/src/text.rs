//! Text normalisation: the character-level rules shared by the extractors.
//!
//! Every rule is stated over `Seq<char>`, the view of a string, and each
//! executable function returns exactly what its rule describes.

use vstd::prelude::*;

verus! {

// ---------------------------------------------------------------------
// Character classes
// ---------------------------------------------------------------------

/// The characters with the Unicode `White_Space` property: the ones that
/// trimming removes from both ends of a string.
pub open spec fn is_whitespace(c: char) -> bool {
    let n = c as u32;
    ||| 0x09 <= n <= 0x0D
    ||| n == 0x20
    ||| n == 0x85
    ||| n == 0xA0
    ||| n == 0x1680
    ||| 0x2000 <= n <= 0x200A
    ||| n == 0x2028
    ||| n == 0x2029
    ||| n == 0x202F
    ||| n == 0x205F
    ||| n == 0x3000
}

/// Line breaks and tabs: layout characters that markup injects into text
/// nodes. Ordinary spaces are not among them.
pub open spec fn is_layout_char(c: char) -> bool {
    c == '\n' || c == '\t'
}

/// Characters in the ASCII range.
pub open spec fn is_ascii_char(c: char) -> bool {
    (c as u32) < 0x80
}

/// `c` with an ASCII capital replaced by its small letter; any other
/// character is unchanged.
pub open spec fn ascii_lower(c: char) -> char {
    if 'A' <= c <= 'Z' {
        ((c as u8) + 32) as char
    } else {
        c
    }
}

pub fn char_is_whitespace(c: char) -> (r: bool)
    ensures
        r == is_whitespace(c),
{
    let n: u32 = c as u32;
    (0x09 <= n && n <= 0x0D) || n == 0x20 || n == 0x85 || n == 0xA0 || n == 0x1680 || (0x2000 <= n
        && n <= 0x200A) || n == 0x2028 || n == 0x2029 || n == 0x202F || n == 0x205F || n == 0x3000
}

pub fn char_is_layout(c: char) -> (r: bool)
    ensures
        r == is_layout_char(c),
{
    c == '\n' || c == '\t'
}

pub fn char_is_ascii(c: char) -> (r: bool)
    ensures
        r == is_ascii_char(c),
{
    let n: u32 = c as u32;
    n < 0x80
}

pub fn char_ascii_lower(c: char) -> (r: char)
    ensures
        r == ascii_lower(c),
{
    if 'A' <= c && c <= 'Z' {
        let b: u8 = c as u8;
        (b + 32) as char
    } else {
        c
    }
}

// ---------------------------------------------------------------------
// Strings and characters
// ---------------------------------------------------------------------

/// The characters of `s`, in order.
pub fn chars_of(s: &str) -> (chars: Vec<char>)
    ensures
        chars@ == s@,
{
    let mut chars: Vec<char> = Vec::new();
    for c in it: s.chars()
        invariant
            it.seq() == s@,
            chars@ == it.seq().take(it.index()),
    {
        chars.push(c);
    }
    chars
}

/// Builds a `String` from characters through `String::from_iter`: the
/// result holds exactly the characters of `chars`, in order.
#[verifier::external_body]
pub(crate) fn string_from_chars(chars: &Vec<char>) -> (s: String)
    ensures
        s@ == chars@,
{
    String::from_iter(chars)
}

// ---------------------------------------------------------------------
// Joining fragments
// ---------------------------------------------------------------------

/// The text of a sequence of fragments: the fragments one after another,
/// with nothing between them.
pub open spec fn joined(fragments: Seq<Seq<char>>) -> Seq<char> {
    fragments.flatten()
}

/// Concatenates the fragments, in order, without a separator.
pub fn join_fragments(fragments: &Vec<String>) -> (out: Vec<char>)
    ensures
        out@ == joined(fragments.deep_view()),
{
    let ghost frags = fragments.deep_view();
    let mut out: Vec<char> = Vec::new();
    let mut i: usize = 0;
    while i < fragments.len()
        invariant
            i <= fragments.len(),
            frags == fragments.deep_view(),
            out@ == frags.take(i as int).flatten(),
        decreases fragments.len() - i,
    {
        let piece = chars_of(fragments[i].as_str());
        let mut k: usize = 0;
        let ghost before = out@;
        while k < piece.len()
            invariant
                k <= piece.len(),
                out@ == before + piece@.take(k as int),
            decreases piece.len() - k,
        {
            out.push(piece[k]);
            k += 1;
        }
        proof {
            assert(piece@.take(piece.len() as int) =~= piece@);
            assert(frags[i as int] == piece@);
            assert(frags.take(i + 1) =~= frags.take(i as int).push(frags[i as int]));
            frags.take(i as int).lemma_flatten_push(frags[i as int]);
        }
        i += 1;
    }
    proof {
        assert(frags.take(fragments.len() as int) =~= frags);
    }
    out
}

// ---------------------------------------------------------------------
// Tag stripping
// ---------------------------------------------------------------------

/// Whether a `>` stands somewhere after position `at`.
pub open spec fn closes_after(s: Seq<char>, at: int) -> bool {
    exists|j: int| at < j < s.len() && s[j] == '>'
}

/// The text of `s` from position `from` on, without its tags. A tag starts
/// at a `<` that has a `>` somewhere after it, and runs up to and including
/// the first such `>`. `in_tag` says whether `from` lies inside a tag.
pub open spec fn strip_tags_from(s: Seq<char>, from: int, in_tag: bool) -> Seq<char>
    decreases s.len() - from,
{
    if from < 0 || from >= s.len() {
        Seq::empty()
    } else if in_tag {
        strip_tags_from(s, from + 1, s[from] != '>')
    } else if s[from] == '<' && closes_after(s, from) {
        strip_tags_from(s, from + 1, true)
    } else {
        seq![s[from]] + strip_tags_from(s, from + 1, false)
    }
}

/// `s` without its tags: every leftmost, non-overlapping stretch that
/// starts with `<`, ends with the next `>` and holds no other `>`.
pub open spec fn strip_tags(s: Seq<char>) -> Seq<char> {
    strip_tags_from(s, 0, false)
}

/// Removes every tag from `s`.
pub fn strip_tags_chars(s: &Vec<char>) -> (out: Vec<char>)
    ensures
        out@ == strip_tags(s@),
{
    // Position just past the last `>`; 0 when there is none.
    let mut close_limit: usize = 0;
    let mut j: usize = 0;
    while j < s.len()
        invariant
            j <= s.len(),
            close_limit <= j,
            close_limit > 0 ==> s@[close_limit - 1] == '>',
            forall|k: int| close_limit <= k < j ==> s@[k] != '>',
        decreases s.len() - j,
    {
        if s[j] == '>' {
            close_limit = j + 1;
        }
        j += 1;
    }
    let mut out: Vec<char> = Vec::new();
    let mut in_tag = false;
    let mut i: usize = 0;
    while i < s.len()
        invariant
            i <= s.len(),
            close_limit <= s.len(),
            close_limit > 0 ==> s@[close_limit - 1] == '>',
            forall|k: int| close_limit <= k < s.len() ==> s@[k] != '>',
            strip_tags(s@) == out@ + strip_tags_from(s@, i as int, in_tag),
        decreases s.len() - i,
    {
        let c = s[i];
        proof {
            if close_limit > i + 1 {
                assert(i < close_limit - 1 < s.len() && s@[close_limit - 1] == '>');
            }
            assert(closes_after(s@, i as int) == (close_limit > i + 1));
        }
        if in_tag {
            in_tag = c != '>';
        } else if c == '<' && close_limit > i + 1 {
            in_tag = true;
        } else {
            out.push(c);
            proof {
                let rest = strip_tags_from(s@, i + 1, false);
                assert(out@.drop_last() + (seq![c] + rest) =~= out@ + rest);
            }
        }
        i += 1;
    }
    proof {
        assert(strip_tags_from(s@, s.len() as int, in_tag) =~= Seq::<char>::empty());
        assert(out@ + Seq::<char>::empty() =~= out@);
    }
    out
}

// ---------------------------------------------------------------------
// Dropping characters
// ---------------------------------------------------------------------

/// `s` without its line breaks and tabs.
pub open spec fn without_layout(s: Seq<char>) -> Seq<char> {
    s.filter(|c: char| !is_layout_char(c))
}

/// The ASCII characters of `s`, in order.
pub open spec fn ascii_only(s: Seq<char>) -> Seq<char> {
    s.filter(|c: char| is_ascii_char(c))
}

/// Filtering one element further: the step that the filtering loops take.
proof fn lemma_filter_step(s: Seq<char>, pred: spec_fn(char) -> bool, i: int)
    requires
        0 <= i < s.len(),
    ensures
        s.take(i + 1).filter(pred) == if pred(s[i]) {
            s.take(i).filter(pred).push(s[i])
        } else {
            s.take(i).filter(pred)
        },
{
    reveal(Seq::filter);
    assert(s.take(i + 1).drop_last() =~= s.take(i));
}

/// Removes line breaks and tabs.
pub fn drop_layout_chars(s: &Vec<char>) -> (out: Vec<char>)
    ensures
        out@ == without_layout(s@),
{
    let ghost pred = |c: char| !is_layout_char(c);
    let mut out: Vec<char> = Vec::new();
    let mut i: usize = 0;
    proof {
        reveal(Seq::filter);
    }
    while i < s.len()
        invariant
            i <= s.len(),
            pred == (|c: char| !is_layout_char(c)),
            out@ == s@.take(i as int).filter(pred),
        decreases s.len() - i,
    {
        proof {
            lemma_filter_step(s@, pred, i as int);
        }
        if !char_is_layout(s[i]) {
            out.push(s[i]);
        }
        i += 1;
    }
    proof {
        assert(s@.take(s.len() as int) =~= s@);
    }
    out
}

/// Keeps the ASCII characters only.
pub fn keep_ascii_chars(s: &Vec<char>) -> (out: Vec<char>)
    ensures
        out@ == ascii_only(s@),
{
    let ghost pred = |c: char| is_ascii_char(c);
    let mut out: Vec<char> = Vec::new();
    let mut i: usize = 0;
    proof {
        reveal(Seq::filter);
    }
    while i < s.len()
        invariant
            i <= s.len(),
            pred == (|c: char| is_ascii_char(c)),
            out@ == s@.take(i as int).filter(pred),
        decreases s.len() - i,
    {
        proof {
            lemma_filter_step(s@, pred, i as int);
        }
        if char_is_ascii(s[i]) {
            out.push(s[i]);
        }
        i += 1;
    }
    proof {
        assert(s@.take(s.len() as int) =~= s@);
    }
    out
}

// ---------------------------------------------------------------------
// Trimming
// ---------------------------------------------------------------------

/// `s` without its leading whitespace.
pub open spec fn trim_start(s: Seq<char>) -> Seq<char>
    decreases s.len(),
{
    if s.len() > 0 && is_whitespace(s.first()) {
        trim_start(s.drop_first())
    } else {
        s
    }
}

/// `s` without its trailing whitespace.
pub open spec fn trim_end(s: Seq<char>) -> Seq<char>
    decreases s.len(),
{
    if s.len() > 0 && is_whitespace(s.last()) {
        trim_end(s.drop_last())
    } else {
        s
    }
}

/// `s` without its leading and trailing whitespace.
pub open spec fn trimmed(s: Seq<char>) -> Seq<char> {
    trim_end(trim_start(s))
}

/// Removes leading and trailing whitespace.
pub fn trim_chars(s: &Vec<char>) -> (out: Vec<char>)
    ensures
        out@ == trimmed(s@),
{
    let mut start: usize = 0;
    proof {
        assert(s@.skip(0) =~= s@);
    }
    while start < s.len() && char_is_whitespace(s[start])
        invariant
            start <= s.len(),
            trim_start(s@) == trim_start(s@.skip(start as int)),
        decreases s.len() - start,
    {
        proof {
            assert(s@.skip(start as int).drop_first() =~= s@.skip(start + 1));
        }
        start += 1;
    }
    let mut end: usize = s.len();
    proof {
        assert(s@.subrange(start as int, end as int) =~= s@.skip(start as int));
    }
    while end > start && char_is_whitespace(s[end - 1])
        invariant
            start <= end <= s.len(),
            trimmed(s@) == trim_end(s@.subrange(start as int, end as int)),
        decreases end,
    {
        proof {
            assert(s@.subrange(start as int, end as int).drop_last() =~= s@.subrange(
                start as int,
                end - 1,
            ));
        }
        end -= 1;
    }
    let mut out: Vec<char> = Vec::new();
    let mut i: usize = start;
    while i < end
        invariant
            start <= i <= end <= s.len(),
            out@ == s@.subrange(start as int, i as int),
        decreases end - i,
    {
        out.push(s[i]);
        proof {
            assert(s@.subrange(start as int, i as int).push(s@[i as int]) =~= s@.subrange(
                start as int,
                i + 1,
            ));
        }
        i += 1;
    }
    out
}

// ---------------------------------------------------------------------
// Comparing without regard to ASCII case
// ---------------------------------------------------------------------

/// `s` with every ASCII capital replaced by its small letter.
pub open spec fn lowercase(s: Seq<char>) -> Seq<char> {
    s.map_values(|c: char| ascii_lower(c))
}

/// Equality up to ASCII case.
pub open spec fn eq_ignore_case(a: Seq<char>, b: Seq<char>) -> bool {
    lowercase(a) =~= lowercase(b)
}

/// Whether `needle` stands in `hay` at position `at`.
pub open spec fn occurs_at(hay: Seq<char>, needle: Seq<char>, at: int) -> bool {
    &&& 0 <= at
    &&& at + needle.len() <= hay.len()
    &&& hay.subrange(at, at + needle.len()) =~= needle
}

/// Whether `needle` stands somewhere in `hay`, up to ASCII case.
pub open spec fn contains_ignore_case(hay: Seq<char>, needle: Seq<char>) -> bool {
    exists|at: int| occurs_at(lowercase(hay), lowercase(needle), at)
}

/// Whether the two hold the same characters.
pub fn chars_equal(a: &Vec<char>, b: &Vec<char>) -> (r: bool)
    ensures
        r == (a@ == b@),
{
    if a.len() != b.len() {
        return false;
    }
    let mut i: usize = 0;
    while i < a.len()
        invariant
            i <= a.len(),
            a.len() == b.len(),
            forall|k: int| 0 <= k < i ==> a@[k] == b@[k],
        decreases a.len() - i,
    {
        if a[i] != b[i] {
            return false;
        }
        i += 1;
    }
    proof {
        assert(a@ =~= b@);
    }
    true
}

/// Whether the two are equal up to ASCII case.
pub fn chars_eq_ignore_case(a: &Vec<char>, b: &Vec<char>) -> (r: bool)
    ensures
        r == eq_ignore_case(a@, b@),
{
    if a.len() != b.len() {
        return false;
    }
    let mut i: usize = 0;
    while i < a.len()
        invariant
            i <= a.len(),
            a.len() == b.len(),
            forall|k: int| 0 <= k < i ==> ascii_lower(a@[k]) == ascii_lower(b@[k]),
        decreases a.len() - i,
    {
        if char_ascii_lower(a[i]) != char_ascii_lower(b[i]) {
            proof {
                assert(lowercase(a@)[i as int] != lowercase(b@)[i as int]);
            }
            return false;
        }
        i += 1;
    }
    true
}

/// Whether `needle` stands somewhere in `hay`, up to ASCII case.
pub fn chars_contain_ignore_case(hay: &Vec<char>, needle: &Vec<char>) -> (r: bool)
    ensures
        r == contains_ignore_case(hay@, needle@),
{
    if needle.len() > hay.len() {
        return false;
    }
    let last: usize = hay.len() - needle.len();
    let mut at: usize = 0;
    while at <= last
        invariant
            at <= last + 1,
            last == hay.len() - needle.len(),
            forall|k: int| 0 <= k < at ==> !occurs_at(lowercase(hay@), lowercase(needle@), k),
        decreases last + 1 - at,
    {
        let mut j: usize = 0;
        while j < needle.len() && char_ascii_lower(hay[at + j]) == char_ascii_lower(needle[j])
            invariant
                j <= needle.len(),
                at + needle.len() <= hay.len(),
                forall|k: int| 0 <= k < j ==> ascii_lower(hay@[at + k]) == ascii_lower(needle@[k]),
            decreases needle.len() - j,
        {
            j += 1;
        }
        if j == needle.len() {
            proof {
                assert(occurs_at(lowercase(hay@), lowercase(needle@), at as int));
            }
            return true;
        }
        proof {
            let window = lowercase(hay@).subrange(at as int, at + needle.len());
            assert(window[j as int] != lowercase(needle@)[j as int]);
        }
        at += 1;
    }
    false
}

// ---------------------------------------------------------------------
// De-duplication
// ---------------------------------------------------------------------

/// The views of a vector of character vectors.
pub open spec fn views(items: Seq<Vec<char>>) -> Seq<Seq<char>> {
    items.map_values(|v: Vec<char>| v@)
}

/// The distinct items of `items`, each at the place of its first
/// occurrence.
pub open spec fn first_occurrences(items: Seq<Seq<char>>) -> Seq<Seq<char>>
    decreases items.len(),
{
    if items.len() == 0 {
        Seq::empty()
    } else {
        let earlier = first_occurrences(items.drop_last());
        if earlier.contains(items.last()) {
            earlier
        } else {
            earlier.push(items.last())
        }
    }
}

/// The parts one after another, with a single space between neighbours.
pub open spec fn join_with_space(parts: Seq<Seq<char>>) -> Seq<char>
    decreases parts.len(),
{
    if parts.len() == 0 {
        Seq::empty()
    } else if parts.len() == 1 {
        parts[0]
    } else {
        join_with_space(parts.drop_last()) + seq![' '] + parts.last()
    }
}

/// Each piece without its leading and trailing whitespace.
pub open spec fn all_trimmed(pieces: Seq<Seq<char>>) -> Seq<Seq<char>> {
    pieces.map_values(|p: Seq<char>| trimmed(p))
}

/// The value that a run of repeated text pieces stands for: the pieces are
/// trimmed, only the first occurrence of each distinct piece is kept, and
/// what is left is joined with single spaces.
pub open spec fn dedup_joined(pieces: Seq<Seq<char>>) -> Seq<char> {
    join_with_space(first_occurrences(all_trimmed(pieces)))
}

/// Whether `item` is among `items`.
fn holds_item(items: &Vec<Vec<char>>, item: &Vec<char>) -> (r: bool)
    ensures
        r == views(items@).contains(item@),
{
    let mut i: usize = 0;
    while i < items.len()
        invariant
            i <= items.len(),
            forall|k: int| 0 <= k < i ==> views(items@)[k] != item@,
        decreases items.len() - i,
    {
        if chars_equal(&items[i], item) {
            proof {
                assert(views(items@)[i as int] == item@);
            }
            return true;
        }
        i += 1;
    }
    false
}

/// Joins the parts with single spaces.
pub fn join_parts_with_space(parts: &Vec<Vec<char>>) -> (out: Vec<char>)
    ensures
        out@ == join_with_space(views(parts@)),
{
    let ghost all = views(parts@);
    let mut out: Vec<char> = Vec::new();
    let mut i: usize = 0;
    while i < parts.len()
        invariant
            i <= parts.len(),
            all == views(parts@),
            out@ == join_with_space(all.take(i as int)),
        decreases parts.len() - i,
    {
        if i > 0 {
            out.push(' ');
        }
        let ghost before = out@;
        let part = &parts[i];
        let mut k: usize = 0;
        while k < part.len()
            invariant
                k <= part.len(),
                out@ == before + part@.take(k as int),
            decreases part.len() - k,
        {
            out.push(part[k]);
            k += 1;
        }
        proof {
            assert(part@.take(part.len() as int) =~= part@);
            assert(all[i as int] == part@);
            assert(all.take(i + 1).drop_last() =~= all.take(i as int));
            assert(all.take(i + 1).last() == part@);
            if i == 0 {
                assert(before + part@ =~= part@);
            }
        }
        i += 1;
    }
    proof {
        assert(all.take(parts.len() as int) =~= all);
    }
    out
}

/// Trims each piece, keeps the first occurrence of each distinct piece and
/// joins what is left with single spaces.
pub fn dedup_join(pieces: &Vec<String>) -> (out: String)
    ensures
        out@ == dedup_joined(pieces.deep_view()),
{
    let ghost all = all_trimmed(pieces.deep_view());
    let mut kept: Vec<Vec<char>> = Vec::new();
    let mut i: usize = 0;
    while i < pieces.len()
        invariant
            i <= pieces.len(),
            all == all_trimmed(pieces.deep_view()),
            views(kept@) == first_occurrences(all.take(i as int)),
        decreases pieces.len() - i,
    {
        let raw = chars_of(pieces[i].as_str());
        let piece = trim_chars(&raw);
        proof {
            assert(all[i as int] == piece@);
            assert(all.take(i + 1).drop_last() =~= all.take(i as int));
            assert(all.take(i + 1).last() == piece@);
        }
        if !holds_item(&kept, &piece) {
            let ghost before = views(kept@);
            kept.push(piece);
            proof {
                assert(views(kept@) =~= before.push(piece@));
            }
        }
        i += 1;
    }
    proof {
        assert(all.take(pieces.len() as int) =~= all);
    }
    let joined_chars = join_parts_with_space(&kept);
    string_from_chars(&joined_chars)
}

// ---------------------------------------------------------------------
// The normaliser
// ---------------------------------------------------------------------

/// The text of one element, given the fragments of its text nodes: the
/// fragments joined, tags stripped, line breaks and tabs removed. Interior
/// spaces stay.
pub open spec fn normalized(fragments: Seq<Seq<char>>) -> Seq<char> {
    without_layout(strip_tags(joined(fragments)))
}

/// The text of one ingredient entry: the normalised text, reduced to its
/// ASCII characters and trimmed.
pub open spec fn normalized_ingredient(fragments: Seq<Seq<char>>) -> Seq<char> {
    trimmed(ascii_only(normalized(fragments)))
}

/// Normalises the text fragments of one element.
pub fn normalize_chars(fragments: &Vec<String>) -> (out: Vec<char>)
    ensures
        out@ == normalized(fragments.deep_view()),
{
    let whole = join_fragments(fragments);
    let bare = strip_tags_chars(&whole);
    drop_layout_chars(&bare)
}

/// Normalises the text fragments of one element. Never fails; the result
/// may be empty.
pub fn normalize(fragments: &Vec<String>) -> (out: String)
    ensures
        out@ == normalized(fragments.deep_view()),
{
    let chars = normalize_chars(fragments);
    string_from_chars(&chars)
}

/// Normalises the text fragments of one ingredient entry.
pub fn normalize_ingredient(fragments: &Vec<String>) -> (out: String)
    ensures
        out@ == normalized_ingredient(fragments.deep_view()),
{
    let plain = normalize_chars(fragments);
    let ascii = keep_ascii_chars(&plain);
    let entry = trim_chars(&ascii);
    string_from_chars(&entry)
}

// ---------------------------------------------------------------------
// Comparing strings
// ---------------------------------------------------------------------

/// Whether the two strings hold the same characters.
pub fn text_equals(a: &str, b: &str) -> (r: bool)
    ensures
        r == (a@ == b@),
{
    let left = chars_of(a);
    let right = chars_of(b);
    chars_equal(&left, &right)
}

/// Whether `needle` stands somewhere in `hay`, up to ASCII case.
pub fn text_contains_ignore_case(hay: &str, needle: &str) -> (r: bool)
    ensures
        r == contains_ignore_case(hay@, needle@),
{
    let left = chars_of(hay);
    let right = chars_of(needle);
    chars_contain_ignore_case(&left, &right)
}

// ---------------------------------------------------------------------
// Lemmas
// ---------------------------------------------------------------------

/// Whether no `<` of `s` has a `>` somewhere after it: `s` holds no tag.
pub open spec fn holds_no_tag(s: Seq<char>) -> bool {
    forall|i: int, j: int| 0 <= i < j < s.len() ==> !(s[i] == '<' && s[j] == '>')
}

/// Where no `>` stands at or after `from`, none is left after stripping.
proof fn lemma_no_close_stays(s: Seq<char>, from: int, in_tag: bool)
    requires
        0 <= from,
        forall|j: int| from <= j < s.len() ==> s[j] != '>',
    ensures
        forall|k: int|
            0 <= k < strip_tags_from(s, from, in_tag).len() ==> strip_tags_from(s, from, in_tag)[k]
                != '>',
    decreases s.len() - from,
{
    if from < s.len() {
        lemma_no_close_stays(s, from + 1, true);
        lemma_no_close_stays(s, from + 1, false);
        assert(!closes_after(s, from));
        let all = strip_tags_from(s, from, in_tag);
        if in_tag {
            assert(s[from] != '>');
            assert(all == strip_tags_from(s, from + 1, true));
        } else {
            let rest = strip_tags_from(s, from + 1, false);
            assert(all =~= seq![s[from]] + rest);
            assert forall|k: int| 0 <= k < all.len() implies all[k] != '>' by {
                if k > 0 {
                    assert(all[k] == rest[k - 1]);
                } else {
                    assert(all[0] == s[from]);
                }
            }
        }
    } else {
        assert(strip_tags_from(s, from, in_tag) =~= Seq::<char>::empty());
    }
}

/// What is left of `s` from `from` on after stripping holds no tag.
proof fn lemma_strip_tags_from_leaves_no_tag(s: Seq<char>, from: int, in_tag: bool)
    requires
        0 <= from,
    ensures
        holds_no_tag(strip_tags_from(s, from, in_tag)),
    decreases s.len() - from,
{
    if from < s.len() {
        lemma_strip_tags_from_leaves_no_tag(s, from + 1, true);
        lemma_strip_tags_from_leaves_no_tag(s, from + 1, false);
        if !in_tag && !(s[from] == '<' && closes_after(s, from)) {
            let rest = strip_tags_from(s, from + 1, false);
            let all = strip_tags_from(s, from, in_tag);
            assert(all =~= seq![s[from]] + rest);
            if s[from] == '<' {
                assert forall|j: int| from + 1 <= j < s.len() implies s[j] != '>' by {
                    if s[j] == '>' {
                        assert(closes_after(s, from));
                    }
                }
                lemma_no_close_stays(s, from + 1, false);
            }
            assert forall|i: int, j: int| 0 <= i < j < all.len() implies !(all[i] == '<' && all[j]
                == '>') by {
                assert(all[j] == rest[j - 1]);
                if i > 0 {
                    assert(all[i] == rest[i - 1]);
                }
            }
        }
    }
}

/// Tag stripping is complete: the stripped text holds no tag.
pub proof fn lemma_strip_tags_leaves_no_tag(s: Seq<char>)
    ensures
        holds_no_tag(strip_tags(s)),
{
    lemma_strip_tags_from_leaves_no_tag(s, 0, false);
}

/// The distinct items of a run of equal items: the item, once.
proof fn lemma_first_occurrences_of_repeats(items: Seq<Seq<char>>, value: Seq<char>)
    requires
        items.len() > 0,
        forall|i: int| 0 <= i < items.len() ==> items[i] == value,
    ensures
        first_occurrences(items) == seq![value],
    decreases items.len(),
{
    if items.len() == 1 {
        assert(first_occurrences(items.drop_last()) =~= Seq::<Seq<char>>::empty());
        assert(first_occurrences(items) =~= seq![value]);
    } else {
        lemma_first_occurrences_of_repeats(items.drop_last(), value);
        assert(seq![value][0] == value);
        assert(first_occurrences(items.drop_last()).contains(items.last()));
    }
}

/// De-duplication: pieces that all hold the same text, whatever the
/// whitespace around it, stand for that text, once.
pub proof fn lemma_repeats_collapse(pieces: Seq<Seq<char>>, value: Seq<char>)
    requires
        pieces.len() > 0,
        forall|i: int| 0 <= i < pieces.len() ==> trimmed(#[trigger] pieces[i]) == value,
    ensures
        dedup_joined(pieces) == value,
{
    lemma_first_occurrences_of_repeats(all_trimmed(pieces), value);
    assert(seq![value].len() == 1);
    assert(seq![value][0] == value);
}

/// De-duplication keeps every distinct item, and each only once.
pub proof fn lemma_first_occurrences_distinct(items: Seq<Seq<char>>)
    ensures
        first_occurrences(items).no_duplicates(),
        forall|x: Seq<char>| first_occurrences(items).contains(x) <==> items.contains(x),
    decreases items.len(),
{
    if items.len() > 0 {
        let head = items.drop_last();
        let earlier = first_occurrences(head);
        let kept = first_occurrences(items);
        lemma_first_occurrences_distinct(head);
        assert forall|x: Seq<char>| kept.contains(x) <==> items.contains(x) by {
            if items.contains(x) {
                let i = choose|i: int| 0 <= i < items.len() && items[i] == x;
                if i < items.len() - 1 {
                    assert(head[i] == x);
                    assert(head.contains(x));
                    assert(earlier.contains(x));
                    let k = choose|k: int| 0 <= k < earlier.len() && earlier[k] == x;
                    assert(kept[k] == x);
                } else if !earlier.contains(items.last()) {
                    assert(kept[kept.len() - 1] == x);
                } else {
                    let k = choose|k: int| 0 <= k < earlier.len() && earlier[k] == x;
                    assert(kept[k] == x);
                }
            }
            if kept.contains(x) {
                let k = choose|k: int| 0 <= k < kept.len() && kept[k] == x;
                if k < earlier.len() {
                    assert(earlier[k] == x);
                    assert(earlier.contains(x));
                    assert(head.contains(x));
                    let i = choose|i: int| 0 <= i < head.len() && head[i] == x;
                    assert(items[i] == x);
                } else {
                    assert(items[items.len() - 1] == x);
                }
            }
        }
    }
}

// ---------------------------------------------------------------------
// Names in a whitespace-separated list
// ---------------------------------------------------------------------

/// Whether positions `a..b` of `s` hold one name of a whitespace-separated
/// list: a run of characters without whitespace that cannot be made longer.
pub open spec fn is_name_at(s: Seq<char>, a: int, b: int) -> bool {
    &&& 0 <= a < b <= s.len()
    &&& forall|k: int| a <= k < b ==> !is_whitespace(#[trigger] s[k])
    &&& (a == 0 || is_whitespace(s[a - 1]))
    &&& (b == s.len() || is_whitespace(s[b]))
}

/// Whether one of the names that `s` lists holds `keyword`, up to ASCII
/// case.
pub open spec fn some_name_contains(s: Seq<char>, keyword: Seq<char>) -> bool {
    exists|a: int, b: int| is_name_at(s, a, b) && contains_ignore_case(s.subrange(a, b), keyword)
}

/// Whether `s` is not empty and holds no whitespace.
pub open spec fn is_word(s: Seq<char>) -> bool {
    s.len() > 0 && forall|k: int| 0 <= k < s.len() ==> !is_whitespace(#[trigger] s[k])
}

/// Where the name that holds position `at` starts.
spec fn name_start(s: Seq<char>, at: int) -> int
    decreases at,
{
    if at <= 0 {
        0
    } else if is_whitespace(s[at - 1]) {
        at
    } else {
        name_start(s, at - 1)
    }
}

/// Where the name that holds the position before `from` ends.
spec fn name_end(s: Seq<char>, from: int) -> int
    decreases s.len() - from,
{
    if from >= s.len() {
        s.len() as int
    } else if is_whitespace(s[from]) {
        from
    } else {
        name_end(s, from + 1)
    }
}

proof fn lemma_name_start(s: Seq<char>, at: int)
    requires
        0 <= at <= s.len(),
    ensures
        0 <= name_start(s, at) <= at,
        forall|k: int| name_start(s, at) <= k < at ==> !is_whitespace(#[trigger] s[k]),
        name_start(s, at) == 0 || is_whitespace(s[name_start(s, at) - 1]),
    decreases at,
{
    if at > 0 && !is_whitespace(s[at - 1]) {
        lemma_name_start(s, at - 1);
    }
}

proof fn lemma_name_end(s: Seq<char>, from: int)
    requires
        0 <= from <= s.len(),
    ensures
        from <= name_end(s, from) <= s.len(),
        forall|k: int| from <= k < name_end(s, from) ==> !is_whitespace(#[trigger] s[k]),
        name_end(s, from) == s.len() || is_whitespace(s[name_end(s, from)]),
    decreases s.len() - from,
{
    if from < s.len() && !is_whitespace(s[from]) {
        lemma_name_end(s, from + 1);
    }
}

/// A keyword without whitespace stands in a whitespace-separated list
/// exactly when it stands in one of the names of the list.
pub proof fn lemma_keyword_stands_in_a_name(s: Seq<char>, keyword: Seq<char>)
    requires
        is_word(keyword),
    ensures
        contains_ignore_case(s, keyword) <==> some_name_contains(s, keyword),
{
    let low = lowercase(s);
    let key = lowercase(keyword);
    let n = keyword.len() as int;
    if contains_ignore_case(s, keyword) {
        let at = choose|at: int| occurs_at(low, key, at);
        assert forall|k: int| at <= k < at + n implies !is_whitespace(#[trigger] s[k]) by {
            assert(low.subrange(at, at + n)[k - at] == key[k - at]);
            assert(ascii_lower(s[k]) == ascii_lower(keyword[k - at]));
            assert(!is_whitespace(keyword[k - at]));
        }
        lemma_name_start(s, at);
        lemma_name_end(s, at + n);
        let a = name_start(s, at);
        let b = name_end(s, at + n);
        assert(is_name_at(s, a, b));
        let name = s.subrange(a, b);
        assert(lowercase(name).subrange(at - a, at - a + n) =~= low.subrange(at, at + n));
        assert(occurs_at(lowercase(name), key, at - a));
    }
    if some_name_contains(s, keyword) {
        let (a, b) = choose|a: int, b: int|
            is_name_at(s, a, b) && contains_ignore_case(s.subrange(a, b), keyword);
        let name = s.subrange(a, b);
        let at = choose|at: int| occurs_at(lowercase(name), key, at);
        assert(low.subrange(a + at, a + at + n) =~= lowercase(name).subrange(at, at + n));
        assert(occurs_at(low, key, a + at));
    }
}

} // verus!
