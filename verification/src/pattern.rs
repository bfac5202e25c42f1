//! The regular expressions that lines and replies are read with, and the
//! searches of the `regex` crate.
use crate::ascii;
use crate::text;
use vstd::prelude::*;
use vstd::utf8::*;

verus! {

/// What a status report of a resting machine contains.
pub const IDLE: &'static str = "<Idle";

/// A Z word of a line: the letter, then a sign, digits and a point, as far as
/// they are there.
pub const Z_WORD: &'static str = "(Z[+-]?\\d*\\.?\\d*)";

/// The machine's state: the word after a `<`, or else the letters that the
/// reply begins with.
pub const STATE: &'static str = "<(\\w+)|^\\[?([A-Za-z]+)";

/// The machine's position: the first and the third coordinate.
pub const POSITION: &'static str = "[MW]Pos:([-\\d.]+),[-\\d.]+,([-\\d.]+)";

/// The feed rate and the spindle speed.
pub const FEED_AND_SPINDLE: &'static str = "FS?:([-\\d.]+),([-\\d.]+)";

/// Whether `c` has a meaning of its own in a regular expression.
pub open spec fn meta_character(c: char) -> bool {
    ||| c == '\\' || c == '.' || c == '+' || c == '*' || c == '?' || c == '(' || c == ')'
    ||| c == '|' || c == '[' || c == ']' || c == '{' || c == '}' || c == '^' || c == '$'
    ||| c == '#' || c == '&' || c == '-' || c == '~'
}

/// Whether `pattern` is short and stands for itself, character by character.
pub open spec fn plain_pattern(pattern: Seq<char>) -> bool {
    &&& pattern.len() <= 64
    &&& forall|i: int| 0 <= i < pattern.len() ==> !meta_character(#[trigger] pattern[i])
}

/// Whether `pattern` reads a status report.
pub open spec fn report_pattern(pattern: Seq<char>) -> bool {
    pattern == STATE@ || pattern == POSITION@ || pattern == FEED_AND_SPINDLE@
}

/// The text of `s` between the byte offsets `start` and `end` of its UTF-8 form.
pub open spec fn between(s: Seq<char>, start: int, end: int) -> Seq<char> {
    decode_utf8(encode_utf8(s).subrange(start, end))
}

/// Whether `offset` is a byte offset in `s` at which a character begins, or its end.
pub open spec fn at_character(s: Seq<char>, offset: int) -> bool {
    0 <= offset <= encode_utf8(s).len() && is_char_boundary(encode_utf8(s), offset)
}

/// Whether `spans` are pieces of `s` by their byte offsets, from the front to
/// the back and without overlap.
pub open spec fn spans_fit(s: Seq<char>, spans: Seq<(usize, usize)>) -> bool {
    &&& forall|i: int|
        #![trigger spans[i]]
        0 <= i < spans.len() ==> {
            &&& spans[i].0 <= spans[i].1
            &&& at_character(s, spans[i].0 as int)
            &&& at_character(s, spans[i].1 as int)
        }
    &&& forall|i: int, j: int|
        #![trigger spans[i], spans[j]]
        0 <= i < j < spans.len() ==> spans[i].1 <= spans[j].0
}

/// The texts of the groups of a match; a group that took no part has none.
pub open spec fn group_texts(groups: Seq<Option<String>>) -> Seq<Option<Seq<char>>> {
    Seq::new(
        groups.len(),
        |i: int|
            match groups[i] {
                Some(text) => Some(text@),
                None => None,
            },
    )
}

/// The groups of a search result, where there was a match.
pub open spec fn match_texts(groups: Option<Vec<Option<String>>>) -> Option<
    Seq<Option<Seq<char>>>,
> {
    match groups {
        Some(groups) => Some(group_texts(groups@)),
        None => None,
    }
}

/// What `regex::Regex::captures` finds of `pattern` in `text`: the groups of
/// the first match, where there is one.
pub uninterp spec fn regex_captures(pattern: Seq<char>, text: Seq<char>) -> Option<
    Seq<Option<Seq<char>>>,
>;

/// Where `regex::Regex::find_iter` finds `pattern` in `text`, by byte offsets.
pub uninterp spec fn regex_find_iter(pattern: Seq<char>, text: Seq<char>) -> Seq<(usize, usize)>;

/// `regex::Regex::is_match`, of the expression that `regex::Regex::new` makes
/// of `pattern`. A pattern without meta characters matches where it occurs as
/// it stands. A short one stays within the size limit of `Regex::new`, which
/// then returns no error.
#[verifier::external_body]
pub(crate) fn regex_is_match(pattern: &str, text: &str) -> (r: bool)
    requires
        plain_pattern(pattern@),
    ensures
        r == text::occurs(pattern@, text@),
{
    regex::Regex::new(pattern).unwrap().is_match(text)
}

/// `regex::Regex::captures`, of the expression that `regex::Regex::new` makes
/// of `pattern`: the text of each group of the leftmost match, the whole match
/// first. What the match is in a text with characters beyond ASCII, some of
/// which are digits or letters too, is left to the named result. Stated of it:
/// each of the three expressions has two groups; each text is a piece of the text
/// searched and not empty, since every group is a repetition of one character
/// or more; and the two groups of the position and of the feed rate and
/// spindle speed take part in every match, since no part of those expressions
/// is optional but for one letter outside the groups. In an ASCII text the
/// match is stated in full: each repetition in the expressions is greedy, and
/// none of the characters it takes can be the one that has to follow it.
#[verifier::external_body]
pub(crate) fn regex_captures_of(pattern: &str, text: &str) -> (r: Option<Vec<Option<String>>>)
    requires
        report_pattern(pattern@),
    ensures
        match_texts(r) == regex_captures(pattern@, text@),
        r matches Some(groups) ==> {
            &&& groups.len() == 3
            &&& forall|i: int|
                0 <= i < 3 ==> (#[trigger] groups[i] matches Some(piece) ==> piece@.len() > 0
                    && text::occurs(piece@, text@))
            &&& pattern@ != STATE@ ==> groups[1] is Some && groups[2] is Some
        },
        is_ascii_chars(text@) && pattern@ == STATE@ ==> match_texts(r) == ascii::state_match(
            text@,
        ),
        is_ascii_chars(text@) && pattern@ == POSITION@ ==> match_texts(r) == ascii::position_match(
            text@,
        ),
        is_ascii_chars(text@) && pattern@ == FEED_AND_SPINDLE@ ==> match_texts(r)
            == ascii::feed_match(text@),
{
    regex::Regex::new(pattern).unwrap().captures(text).map(
        |c| c.iter().map(|m| m.map(|m| m.as_str().to_string())).collect(),
    )
}

/// `regex::Regex::find_iter`, of the expression that `regex::Regex::new` makes
/// of the pattern of a Z word: the byte offsets at which each match begins and
/// ends. Where the matches are in a text with characters beyond ASCII, some of
/// which are digits too, is left to the named result. Stated of them: they come
/// from the front to the back and do not overlap, their ends fall on character
/// boundaries, and each begins with the letter that the expression begins with.
/// In an ASCII text every `Z` begins a match, since all that may follow it in
/// the expression is optional and no `Z`, and the match takes as much of that as
/// there is, since each repetition in the expression is greedy.
#[verifier::external_body]
pub(crate) fn regex_find_iter_of(pattern: &str, text: &str) -> (r: Vec<(usize, usize)>)
    requires
        pattern@ == Z_WORD@,
    ensures
        r@ == regex_find_iter(pattern@, text@),
        spans_fit(text@, r@),
        forall|i: int|
            #![trigger r@[i]]
            0 <= i < r@.len() ==> {
                let word = between(text@, r@[i].0 as int, r@[i].1 as int);
                word.len() > 0 && word[0] == 'Z'
            },
        is_ascii_chars(text@) ==> r@ == ascii::z_words(text@),
{
    regex::Regex::new(pattern).unwrap().find_iter(text).map(|m| (m.start(), m.end())).collect()
}

/// The text of `s` between two byte offsets.
pub fn piece(s: &str, start: usize, end: usize) -> (r: String)
    requires
        start <= end,
        at_character(s@, start as int),
        at_character(s@, end as int),
    ensures
        r@ == between(s@, start as int, end as int),
{
    let ghost bytes = encode_utf8(s@);
    proof {
        encode_utf8_valid_utf8(s@);
        valid_utf8_split(bytes, start as int);
    }
    let (_, rest) = s.split_at(start);
    let ghost tail = bytes.subrange(start as int, bytes.len() as int);
    proof {
        lemma_boundary_after(bytes, start as int, end as int);
    }
    let (front, _) = rest.split_at(end - start);
    proof {
        assert(tail.subrange(0, end - start) == bytes.subrange(start as int, end as int));
        encode_utf8_decode_utf8(front@);
    }
    front.to_owned()
}

/// What follows a character boundary has its boundaries where the whole has them.
proof fn lemma_boundary_after(bytes: Seq<u8>, start: int, end: int)
    requires
        valid_utf8(bytes),
        0 <= start <= end <= bytes.len(),
        is_char_boundary(bytes, start),
        is_char_boundary(bytes, end),
    ensures
        valid_utf8(bytes.subrange(start, bytes.len() as int)),
        is_char_boundary(bytes.subrange(start, bytes.len() as int), end - start),
{
    let tail = bytes.subrange(start, bytes.len() as int);
    valid_utf8_split(bytes, start);
    if end == bytes.len() {
        is_char_boundary_start_end_of_seq(tail);
    } else {
        assert(tail[end - start] == bytes[end]);
        is_char_boundary_iff_not_is_continuation_byte(bytes, end);
        is_char_boundary_iff_not_is_continuation_byte(tail, end - start);
    }
}

/// Two neighbouring pieces of a text are one piece.
pub proof fn lemma_between_joins(s: Seq<char>, a: int, b: int, c: int)
    requires
        a <= b <= c,
        at_character(s, a),
        at_character(s, b),
        at_character(s, c),
    ensures
        between(s, a, b) + between(s, b, c) == between(s, a, c),
{
    let bytes = encode_utf8(s);
    encode_utf8_valid_utf8(s);
    lemma_boundary_after(bytes, a, c);
    lemma_boundary_after(bytes, a, b);
    let tail = bytes.subrange(a, bytes.len() as int);
    valid_utf8_split(tail, c - a);
    let whole = tail.subrange(0, c - a);
    assert(whole == bytes.subrange(a, c));
    assert(is_char_boundary(whole, b - a)) by {
        if b == c {
            is_char_boundary_start_end_of_seq(whole);
        } else {
            assert(whole[b - a] == tail[b - a]);
            is_char_boundary_iff_not_is_continuation_byte(tail, b - a);
            is_char_boundary_iff_not_is_continuation_byte(whole, b - a);
        }
    }
    decode_utf8_split(whole, b - a);
    assert(whole.subrange(0, b - a) == bytes.subrange(a, b));
    assert(whole.subrange(b - a, whole.len() as int) == bytes.subrange(b, c));
}

/// A piece of a text of ASCII characters is the same by bytes as by characters.
pub proof fn law_pieces_of_ascii_texts(s: Seq<char>, start: int, end: int)
    requires
        is_ascii_chars(s),
        0 <= start <= end <= s.len(),
    ensures
        at_character(s, start),
        at_character(s, end),
        between(s, start, end) == s.subrange(start, end),
{
    lemma_ascii_boundary(s, start);
    lemma_ascii_boundary(s, end);
    let bytes = encode_utf8(s);
    let part = s.subrange(start, end);
    is_ascii_chars_encode_utf8(s);
    is_ascii_chars_encode_utf8(part);
    assert(encode_utf8(part) =~= bytes.subrange(start, end)) by {
        assert forall|k: int| 0 <= k < part.len() implies encode_utf8(part)[k] == bytes.subrange(
            start,
            end,
        )[k] by {
            assert(part[k] == s[start + k]);
        }
    }
    encode_utf8_decode_utf8(part);
}

/// At each place of a text of ASCII characters a character begins.
proof fn lemma_ascii_boundary(s: Seq<char>, i: int)
    requires
        is_ascii_chars(s),
        0 <= i <= s.len(),
    ensures
        at_character(s, i),
{
    let bytes = encode_utf8(s);
    encode_utf8_valid_utf8(s);
    is_ascii_chars_encode_utf8(s);
    if i == s.len() {
        is_char_boundary_start_end_of_seq(bytes);
    } else {
        assert('\0' <= s[i] <= '\u{7f}');
        assert(bytes[i] == s[i] as u8);
        is_char_boundary_iff_not_is_continuation_byte(bytes, i);
    }
}

/// From its first byte to its last a text is itself.
pub proof fn lemma_between_whole(s: Seq<char>)
    ensures
        between(s, 0, encode_utf8(s).len() as int) == s,
        at_character(s, 0),
        at_character(s, encode_utf8(s).len() as int),
{
    let bytes = encode_utf8(s);
    encode_utf8_valid_utf8(s);
    is_char_boundary_start_end_of_seq(bytes);
    assert(bytes.subrange(0, bytes.len() as int) == bytes);
    encode_utf8_decode_utf8(s);
}

/// The expressions, as the `regex` crate reads them.
pub proof fn law_the_expressions()
    ensures
        IDLE@ == "<Idle"@,
        Z_WORD@ == "(Z[+-]?\\d*\\.?\\d*)"@,
        STATE@ == "<(\\w+)|^\\[?([A-Za-z]+)"@,
        POSITION@ == "[MW]Pos:([-\\d.]+),[-\\d.]+,([-\\d.]+)"@,
        FEED_AND_SPINDLE@ == "FS?:([-\\d.]+),([-\\d.]+)"@,
{
}

/// The texts of the groups of a match are those of its strings, one by one; a
/// group without a string has none.
pub proof fn law_groups_are_those_of_the_match(groups: Vec<Option<String>>, i: int)
    requires
        0 <= i < groups@.len(),
    ensures
        match_texts(None) == None::<Seq<Option<Seq<char>>>>,
        match_texts(Some(groups)) is Some,
        match_texts(Some(groups))->0.len() == groups@.len(),
        groups@[i] matches Some(found) ==> match_texts(Some(groups))->0[i] == Some(found@),
        groups@[i] is None ==> match_texts(Some(groups))->0[i] is None,
{
}

} // verus!
