//! Adding the Z offset to the Z words of a line.
//!
//! Which words of a line are shifted, and how the shifted numbers go back into
//! it, is decided here; the sum of two numbers is formed elsewhere, from the
//! text of the one and the bit pattern of the other.
use crate::ascii;
use crate::pattern;
use crate::single;
use crate::single::Single;
use crate::text;
use vstd::prelude::*;
use vstd::utf8::*;

verus! {

/// Whether an offset is too small to be added at all.
pub open spec fn negligible(offset: Single) -> bool {
    !offset.is_nan() && offset.magnitude() < (Single { bits: single::ONE_MILLIONTH }).magnitude()
}

/// Where the words of `line` stand that `offset` shifts.
pub open spec fn shifted_spans(line: Seq<char>, offset: Single) -> Seq<(usize, usize)> {
    if negligible(offset) {
        Seq::empty()
    } else {
        pattern::regex_find_iter(pattern::Z_WORD@, line)
    }
}

/// Where they stand in a line of ASCII characters.
pub open spec fn ascii_spans(line: Seq<char>, offset: Single) -> Seq<(usize, usize)> {
    if negligible(offset) {
        Seq::empty()
    } else {
        ascii::z_words(line)
    }
}

/// Whether the words of `line` that `offset` shifts stand where they stand in a
/// line of ASCII characters, if it is one.
pub open spec fn known_in_ascii(line: Seq<char>, offset: Single) -> bool {
    is_ascii_chars(line) ==> shifted_spans(line, offset) == ascii_spans(line, offset)
}

/// The word that stands at the span `i`.
pub open spec fn word_at(line: Seq<char>, spans: Seq<(usize, usize)>, i: int) -> Seq<char> {
    pattern::between(line, spans[i].0 as int, spans[i].1 as int)
}

/// Whether `spans` are words of `line` that begin with a `Z`.
pub open spec fn z_words_fit(line: Seq<char>, spans: Seq<(usize, usize)>) -> bool {
    &&& pattern::spans_fit(line, spans)
    &&& forall|i: int|
        #![trigger spans[i]]
        0 <= i < spans.len() ==> word_at(line, spans, i).len() > 0 && word_at(line, spans, i)[0]
            == 'Z'
}

/// What follows the `Z` in each of the words.
pub open spec fn numbers_of(line: Seq<char>, spans: Seq<(usize, usize)>) -> Seq<Seq<char>> {
    Seq::new(spans.len(), |i: int| word_at(line, spans, i).drop_first())
}

/// The byte offset at which the first `n` words are over.
pub open spec fn end_of(spans: Seq<(usize, usize)>, n: int) -> int {
    if n == 0 {
        0
    } else {
        spans[n - 1].1 as int
    }
}

/// `line` up to the end of its first `n` words, with these replaced by `Z` and
/// the first `n` of `numbers`.
pub open spec fn replaced_to(
    line: Seq<char>,
    spans: Seq<(usize, usize)>,
    numbers: Seq<Seq<char>>,
    n: int,
) -> Seq<char>
    decreases n,
{
    if n <= 0 {
        Seq::empty()
    } else {
        replaced_to(line, spans, numbers, n - 1) + pattern::between(
            line,
            end_of(spans, n - 1),
            spans[n - 1].0 as int,
        ) + "Z"@ + numbers[n - 1]
    }
}

/// `line` with each of its words replaced by `Z` and the number that belongs to
/// it, and everything else kept.
pub open spec fn replaced(
    line: Seq<char>,
    spans: Seq<(usize, usize)>,
    numbers: Seq<Seq<char>>,
) -> Seq<char> {
    replaced_to(line, spans, numbers, spans.len() as int) + pattern::between(
        line,
        end_of(spans, spans.len() as int),
        encode_utf8(line).len() as int,
    )
}

/// A line whose Z words are to be shifted.
#[derive(Debug)]
pub struct OffsetPlan {
    line: String,
    spans: Vec<(usize, usize)>,
}

impl OffsetPlan {
    /// The line.
    pub closed spec fn line(self) -> Seq<char> {
        self.line@
    }

    /// Where its words stand that are shifted.
    pub closed spec fn spans(self) -> Seq<(usize, usize)> {
        self.spans@
    }

    /// The words are words of the line.
    pub open spec fn well_formed(self) -> bool {
        z_words_fit(self.line(), self.spans())
    }

    /// The numbers that the offset is to be added to, as they are written.
    pub fn numbers(&self) -> (r: Vec<String>)
        requires
            self.well_formed(),
        ensures
            text::texts(r@) == numbers_of(self.line(), self.spans()),
    {
        numbers_at(self.line.as_str(), &self.spans)
    }

    /// The line with the sums put in, each in the place of its number.
    pub fn finish(&self, sums: &Vec<String>) -> (r: String)
        requires
            self.well_formed(),
            sums.len() == self.spans().len(),
        ensures
            r@ == replaced(self.line(), self.spans(), text::texts(sums@)),
    {
        replace_words(self.line.as_str(), &self.spans, sums)
    }
}

/// Whether `offset` is too small to be added at all.
pub fn is_negligible(offset: Single) -> (r: bool)
    ensures
        r == negligible(offset),
{
    single::is_smaller(offset, Single { bits: single::ONE_MILLIONTH })
}

/// The number that an offset is added to: as it was read, or zero where it could
/// not be read.
pub fn or_zero(read: Option<Single>) -> (r: Single)
    ensures
        r == match read {
            Some(number) => number,
            None => Single { bits: single::ZERO },
        },
{
    match read {
        Some(number) => number,
        None => Single { bits: single::ZERO },
    }
}

/// What is to be done to `line` for its Z words to be shifted by `offset`:
/// nothing under a negligible offset, and nothing in a line without a `Z`.
pub fn apply_offset_to_line(line: &str, offset: Single) -> (r: OffsetPlan)
    ensures
        r.well_formed(),
        r.line() == line@,
        r.spans() == shifted_spans(line@, offset),
        is_ascii_chars(line@) ==> r.spans() == ascii_spans(line@, offset),
        !line@.contains('Z') ==> r.spans().len() == 0,
{
    let spans: Vec<(usize, usize)> = if is_negligible(offset) {
        Vec::new()
    } else {
        pattern::regex_find_iter_of(pattern::Z_WORD, line)
    };
    proof {
        assert(z_words_fit(line@, spans@));
        lemma_words_need_a_z(line@, spans@);
    }
    OffsetPlan { line: line.to_owned(), spans }
}

/// What follows the `Z` in each of the words that stand at `spans`.
pub fn numbers_at(line: &str, spans: &Vec<(usize, usize)>) -> (r: Vec<String>)
    requires
        z_words_fit(line@, spans@),
    ensures
        text::texts(r@) == numbers_of(line@, spans@),
{
    let mut r: Vec<String> = Vec::new();
    let mut i: usize = 0;
    while i < spans.len()
        invariant
            z_words_fit(line@, spans@),
            i <= spans.len(),
            r.len() == i,
            forall|k: int| 0 <= k < i ==> (#[trigger] r@[k])@ == word_at(line@, spans@, k).drop_first(),
        decreases spans.len() - i,
    {
        let (start, end) = spans[i];
        let word = pattern::piece(line, start, end);
        let len: usize = word.as_str().unicode_len();
        let number = word.as_str().substring_char(1, len).to_owned();
        assert(word@.subrange(1, word@.len() as int) == word@.drop_first());
        r.push(number);
        i = i + 1;
    }
    assert(text::texts(r@) =~= numbers_of(line@, spans@));
    r
}

/// `line` with the words that stand at `spans` replaced by `Z` and `numbers`.
pub fn replace_words(line: &str, spans: &Vec<(usize, usize)>, numbers: &Vec<String>) -> (r: String)
    requires
        pattern::spans_fit(line@, spans@),
        numbers.len() == spans.len(),
    ensures
        r@ == replaced(line@, spans@, text::texts(numbers@)),
{
    let mut r: String = String::new();
    let mut done: usize = 0;
    let mut i: usize = 0;
    let ghost all = text::texts(numbers@);
    proof {
        pattern::lemma_between_whole(line@);
    }
    while i < spans.len()
        invariant
            pattern::spans_fit(line@, spans@),
            numbers.len() == spans.len(),
            all == text::texts(numbers@),
            i <= spans.len(),
            done == end_of(spans@, i as int),
            pattern::at_character(line@, done as int),
            r@ == replaced_to(line@, spans@, all, i as int),
        decreases spans.len() - i,
    {
        let (start, end) = spans[i];
        assert(done <= start) by {
            if i > 0 {
                assert(spans@[i - 1].1 <= spans@[i as int].0);
            }
        }
        let kept = pattern::piece(line, done, start);
        r.append(kept.as_str());
        r.append("Z");
        r.append(numbers[i].as_str());
        done = end;
        i = i + 1;
    }
    let rest = pattern::piece(line, done, line.as_bytes().len());
    r.append(rest.as_str());
    r
}

/// A line that has a Z word has a `Z`.
proof fn lemma_words_need_a_z(line: Seq<char>, spans: Seq<(usize, usize)>)
    requires
        z_words_fit(line, spans),
    ensures
        !line.contains('Z') ==> spans.len() == 0,
{
    if spans.len() > 0 {
        let (start, end) = spans[0];
        let len = encode_utf8(line).len() as int;
        pattern::lemma_between_whole(line);
        pattern::lemma_between_joins(line, 0, start as int, end as int);
        pattern::lemma_between_joins(line, 0, end as int, len);
        let before = pattern::between(line, 0, start as int);
        assert(line[before.len() as int] == word_at(line, spans, 0)[0]);
    }
}

/// In a line of ASCII characters each `Z` begins one of the words that an offset
/// shifts, and each of them is the text from its `Z` on, with the sign, the
/// digits, the point and the digits that follow.
pub proof fn law_each_z_of_an_ascii_line_begins_a_word(line: Seq<char>, at: int, word: int)
    requires
        is_ascii_chars(line),
        line.len() <= usize::MAX,
    ensures
        z_words_fit(line, ascii::z_words(line)),
        0 <= at < line.len() ==> (line[at] == 'Z' <==> exists|k: int|
            0 <= k < ascii::z_words(line).len() && (#[trigger] ascii::z_words(
                line,
            )[k]).0 == at),
        0 <= word < ascii::z_words(line).len() ==> ({
            let (start, end) = ascii::z_words(line)[word];
            &&& end == ascii::z_word_end(line, start as int)
            &&& word_at(line, ascii::z_words(line), word) == line.subrange(
                start as int,
                end as int,
            )
        }),
{
    let spans = ascii::z_words(line);
    ascii::lemma_z_words(line, 0);
    assert forall|k: int| #![trigger spans[k]] 0 <= k < spans.len() implies {
        &&& pattern::at_character(line, spans[k].0 as int)
        &&& pattern::at_character(line, spans[k].1 as int)
        &&& word_at(line, spans, k) == line.subrange(spans[k].0 as int, spans[k].1 as int)
    } by {
        pattern::law_pieces_of_ascii_texts(line, spans[k].0 as int, spans[k].1 as int);
    }
}

/// Only the Z words of a line are touched: with the numbers that they had put
/// back into them, the line is what it was.
pub proof fn law_the_rest_of_the_line_is_kept(line: Seq<char>, spans: Seq<(usize, usize)>)
    requires
        z_words_fit(line, spans),
    ensures
        replaced(line, spans, numbers_of(line, spans)) == line,
{
    let n = spans.len() as int;
    let len = encode_utf8(line).len() as int;
    pattern::lemma_between_whole(line);
    lemma_own_numbers(line, spans, n);
    pattern::lemma_between_joins(line, 0, end_of(spans, n), len);
}

proof fn lemma_own_numbers(line: Seq<char>, spans: Seq<(usize, usize)>, n: int)
    requires
        z_words_fit(line, spans),
        0 <= n <= spans.len(),
    ensures
        replaced_to(line, spans, numbers_of(line, spans), n) == pattern::between(
            line,
            0,
            end_of(spans, n),
        ),
        pattern::at_character(line, end_of(spans, n)),
    decreases n,
{
    pattern::lemma_between_whole(line);
    if n == 0 {
        assert(encode_utf8(line).subrange(0, 0) == Seq::<u8>::empty());
        assert(pattern::between(line, 0, 0) =~= Seq::<char>::empty());
    } else {
        let done = end_of(spans, n - 1);
        let (start, end) = spans[n - 1];
        let word = word_at(line, spans, n - 1);
        let numbers = numbers_of(line, spans);
        lemma_own_numbers(line, spans, n - 1);
        assert(done <= start) by {
            if n > 1 {
                assert(spans[n - 2].1 <= spans[n - 1].0);
            }
        }
        pattern::lemma_between_joins(line, 0, done, start as int);
        pattern::lemma_between_joins(line, 0, start as int, end as int);
        reveal_strlit("Z");
        assert("Z"@ + numbers[n - 1] =~= word);
        assert(replaced_to(line, spans, numbers, n) =~= (replaced_to(line, spans, numbers, n - 1)
            + pattern::between(line, done, start as int)) + ("Z"@ + numbers[n - 1]));
    }
}

/// Under a negligible offset a line is sent as it is.
pub proof fn law_a_negligible_offset_changes_nothing(line: Seq<char>, offset: Single)
    requires
        negligible(offset),
    ensures
        numbers_of(line, shifted_spans(line, offset)).len() == 0,
        replaced(line, shifted_spans(line, offset), Seq::empty()) == line,
{
    pattern::lemma_between_whole(line);
    assert(replaced(line, shifted_spans(line, offset), Seq::empty()) =~= line);
}

/// Without an offset every line is sent as it is.
pub proof fn law_no_offset_changes_nothing(line: Seq<char>)
    ensures
        replaced(line, shifted_spans(line, Single { bits: single::ZERO }), Seq::empty()) == line,
{
    single::lemma_scaled_order(0, single::ONE_MILLIONTH as int);
    law_a_negligible_offset_changes_nothing(line, Single { bits: single::ZERO });
}

/// An offset is negligible below a millionth, whatever its sign; what is not a
/// number is not negligible.
pub proof fn law_which_offsets_are_negligible(offset: Single)
    ensures
        negligible(offset) <==> offset.bits as int % 0x8000_0000 < 0x3586_37bd,
{
    single::lemma_scaled_order(offset.bits as int % 0x8000_0000, single::ONE_MILLIONTH as int);
}

/// An offset of a millionth or more shifts each word that the expression for Z
/// words finds, and a smaller one shifts none.
pub proof fn law_which_words_are_shifted(line: Seq<char>, offset: Single)
    ensures
        offset.bits as int % 0x8000_0000 < 0x3586_37bd ==> shifted_spans(line, offset).len() == 0
            && ascii_spans(line, offset).len() == 0,
        offset.bits as int % 0x8000_0000 >= 0x3586_37bd ==> shifted_spans(line, offset)
            == pattern::regex_find_iter("(Z[+-]?\\d*\\.?\\d*)"@, line) && ascii_spans(line, offset)
            == ascii::z_words(line),
{
    law_which_offsets_are_negligible(offset);
}

/// The text of `line` between two bytes of its UTF-8 form.
pub open spec fn text_between(line: Seq<char>, a: int, b: int) -> Seq<char> {
    decode_utf8(encode_utf8(line).subrange(a, b))
}

/// `line` from the byte `done` on, with a `Z` and the number in the place of each
/// of the words.
pub open spec fn woven(
    line: Seq<char>,
    done: int,
    spans: Seq<(usize, usize)>,
    numbers: Seq<Seq<char>>,
) -> Seq<char>
    decreases spans.len(),
{
    if spans.len() == 0 {
        text_between(line, done, encode_utf8(line).len() as int)
    } else {
        text_between(line, done, spans[0].0 as int) + seq!['Z'] + numbers[0] + woven(
            line,
            spans[0].1 as int,
            spans.drop_first(),
            numbers.drop_first(),
        )
    }
}

/// A line with its words replaced is the text before the first word, a `Z` and
/// the number, the text up to the next word, and so on to the end of the line.
pub proof fn law_words_are_replaced_in_their_places(
    line: Seq<char>,
    spans: Seq<(usize, usize)>,
    numbers: Seq<Seq<char>>,
)
    requires
        numbers.len() == spans.len(),
    ensures
        replaced(line, spans, numbers) == woven(line, 0, spans, numbers),
{
    assert(spans.skip(0) =~= spans);
    assert(numbers.skip(0) =~= numbers);
    lemma_woven(line, spans, numbers, 0);
}

proof fn lemma_woven(
    line: Seq<char>,
    spans: Seq<(usize, usize)>,
    numbers: Seq<Seq<char>>,
    k: int,
)
    requires
        numbers.len() == spans.len(),
        0 <= k <= spans.len(),
    ensures
        replaced(line, spans, numbers) == replaced_to(line, spans, numbers, k) + woven(
            line,
            end_of(spans, k),
            spans.skip(k),
            numbers.skip(k),
        ),
    decreases spans.len() - k,
{
    if k < spans.len() {
        lemma_woven(line, spans, numbers, k + 1);
        reveal_strlit("Z");
        assert("Z"@ =~= seq!['Z']);
        assert(spans.skip(k).drop_first() =~= spans.skip(k + 1));
        assert(numbers.skip(k).drop_first() =~= numbers.skip(k + 1));
        let rest = woven(line, end_of(spans, k + 1), spans.skip(k + 1), numbers.skip(k + 1));
        let gap = pattern::between(line, end_of(spans, k), spans[k].0 as int);
        assert(replaced_to(line, spans, numbers, k + 1) + rest =~= replaced_to(
            line,
            spans,
            numbers,
            k,
        ) + (gap + seq!['Z'] + numbers[k] + rest));
    } else {
        assert(replaced_to(line, spans, numbers, k) + woven(
            line,
            end_of(spans, k),
            spans.skip(k),
            numbers.skip(k),
        ) =~= replaced(line, spans, numbers));
    }
}

/// The numbers of the words of a line are what stands behind the `Z` of each.
pub proof fn law_numbers_stand_behind_the_z(line: Seq<char>, spans: Seq<(usize, usize)>, i: int)
    requires
        z_words_fit(line, spans),
        0 <= i < spans.len(),
    ensures
        numbers_of(line, spans).len() == spans.len(),
        seq!['Z'] + numbers_of(line, spans)[i] == text_between(
            line,
            spans[i].0 as int,
            spans[i].1 as int,
        ),
{
    let word = word_at(line, spans, i);
    assert(word =~= seq![word[0]] + word.drop_first());
}

/// A number that could be read is taken as it is, and one that could not as zero.
pub proof fn law_unread_numbers_are_zero(read: Option<Single>, taken: Single)
    requires
        call_ensures(or_zero, (read,), taken),
    ensures
        read matches Some(number) ==> taken == number,
        read is None ==> taken.bits == 0,
{
}

/// What is to be done to a line is decided by the offset and by where the Z words
/// of that line stand; in an ASCII line, at each `Z`.
pub proof fn law_what_is_done_to_a_line(line: &str, offset: Single, plan: OffsetPlan)
    requires
        call_ensures(apply_offset_to_line, (line, offset), plan),
    ensures
        plan.line() == line@,
        offset.bits as int % 0x8000_0000 < 0x3586_37bd ==> plan.spans().len() == 0,
        offset.bits as int % 0x8000_0000 >= 0x3586_37bd ==> plan.spans()
            == pattern::regex_find_iter("(Z[+-]?\\d*\\.?\\d*)"@, line@),
        offset.bits as int % 0x8000_0000 >= 0x3586_37bd && is_ascii_chars(line@) ==> plan.spans()
            == ascii::z_words(line@),
{
    law_which_words_are_shifted(line@, offset);
}

/// The sums go into the line in the places of its numbers, and nothing else of it
/// changes.
pub proof fn law_the_sums_go_into_the_line(plan: OffsetPlan, sums: Vec<String>, r: String)
    requires
        sums@.len() == plan.spans().len(),
        call_ensures(OffsetPlan::finish, (&plan, &sums), r),
    ensures
        r@ == woven(plan.line(), 0, plan.spans(), text::texts(sums@)),
{
    law_words_are_replaced_in_their_places(plan.line(), plan.spans(), text::texts(sums@));
}

} // verus!
