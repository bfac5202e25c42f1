//! What a line keeps when its Z words are shifted, and how the shift is undone.
use crate::ascii;
use crate::offset;
use crate::pattern;
use vstd::prelude::*;
use vstd::utf8::*;

verus! {

/// Whether `n` is a decimal number: a sign, if there is one, digits, a point and
/// digits.
pub open spec fn decimal(n: Seq<char>) -> bool {
    let start: int = if n.len() > 0 && (n[0] == '+' || n[0] == '-') {
        1
    } else {
        0
    };
    let whole = ascii::digits_end(n, start);
    &&& whole < n.len() && n[whole] == '.'
    &&& ascii::digits_end(n, whole + 1) == n.len()
}

/// What stands around the words of `line`: before the first one, between each
/// two, and after the last one.
pub open spec fn outside(line: Seq<char>, spans: Seq<(usize, usize)>) -> Seq<Seq<char>> {
    Seq::new(
        spans.len() + 1,
        |i: int|
            pattern::between(
                line,
                offset::end_of(spans, i),
                if i < spans.len() {
                    spans[i].0 as int
                } else {
                    encode_utf8(line).len() as int
                },
            ),
    )
}

/// A line of ASCII characters with its words replaced by `sums`.
pub open spec fn shifted(line: Seq<char>, sums: Seq<Seq<char>>) -> Seq<char> {
    offset::replaced(line, ascii::z_words(line), sums)
}

/// Whether `sums` can take the place of the numbers in a line of ASCII
/// characters: there is a decimal number for each of them.
pub open spec fn sums_fit(line: Seq<char>, sums: Seq<Seq<char>>) -> bool {
    &&& is_ascii_chars(line)
    &&& line.len() <= usize::MAX
    &&& sums.len() == ascii::z_words(line).len()
    &&& forall|k: int| 0 <= k < sums.len() ==> decimal(#[trigger] sums[k])
    &&& shifted(line, sums).len() <= usize::MAX
}

/// A line of ASCII characters whose words are shifted keeps its shape: it has as
/// many words as before, and as many `Z`s, with the sums as the numbers, and the
/// text around the words is the same.
pub proof fn law_a_shifted_line_keeps_its_shape(line: Seq<char>, sums: Seq<Seq<char>>)
    requires
        sums_fit(line, sums),
    ensures
        is_ascii_chars(shifted(line, sums)),
        ascii::z_words(shifted(line, sums)).len() == ascii::z_words(line).len(),
        shifted(line, sums).filter(|c: char| c == 'Z').len() == line.filter(
            |c: char| c == 'Z',
        ).len(),
        offset::numbers_of(shifted(line, sums), ascii::z_words(shifted(line, sums))) == sums,
        outside(shifted(line, sums), ascii::z_words(shifted(line, sums))) == outside(
            line,
            ascii::z_words(line),
        ),
{
    let spans = ascii::z_words(line);
    let s = shifted(line, sums);
    let n = spans.len() as int;
    let words = new_spans(line, sums);
    lemma_shifted_is_ascii(line, sums);
    lemma_words(line, sums, 0);
    assert(words.skip(0) =~= words);
    assert(ascii::z_words(s) == words);
    ascii::law_as_many_words_as_zs(s);
    ascii::law_as_many_words_as_zs(line);
    is_ascii_chars_encode_utf8(s);
    is_ascii_chars_encode_utf8(line);
    let numbers = offset::numbers_of(s, words);
    assert forall|k: int| 0 <= k < n implies numbers[k] == #[trigger] sums[k] by {
        lemma_layout(line, sums, k);
        let (start, end) = words[k];
        pattern::law_pieces_of_ascii_texts(s, start as int, end as int);
        assert(offset::word_at(s, words, k).drop_first() =~= s.subrange(start + 1, end as int));
    }
    assert(numbers =~= sums);
    let before = outside(line, spans);
    let after = outside(s, words);
    assert forall|k: int| 0 <= k <= n implies after[k] == before[k] by {
        lemma_end(line, sums, k);
        let p = offset::end_of(words, k);
        let a = offset::end_of(spans, k);
        if k < n {
            lemma_layout(line, sums, k);
            pattern::law_pieces_of_ascii_texts(s, p, words[k].0 as int);
            pattern::law_pieces_of_ascii_texts(line, a, spans[k].0 as int);
        } else {
            lemma_tail(line, sums);
            pattern::law_pieces_of_ascii_texts(s, p, s.len() as int);
            pattern::law_pieces_of_ascii_texts(line, a, line.len() as int);
        }
    }
    assert(after =~= before);
}

/// A shift is undone by another one: whatever the words of a shifted line are
/// replaced by, the line is what it would be without the first shift, and with
/// the numbers put back that it had, it is what it was.
pub proof fn law_a_shift_can_be_undone(
    line: Seq<char>,
    sums: Seq<Seq<char>>,
    others: Seq<Seq<char>>,
)
    requires
        sums_fit(line, sums),
        others.len() == sums.len(),
    ensures
        shifted(shifted(line, sums), others) == shifted(line, others),
        shifted(shifted(line, sums), offset::numbers_of(line, ascii::z_words(line))) == line,
{
    let spans = ascii::z_words(line);
    let s = shifted(line, sums);
    let words = ascii::z_words(s);
    let numbers = offset::numbers_of(line, spans);
    law_a_shifted_line_keeps_its_shape(line, sums);
    lemma_same_outside(line, spans, s, words, others);
    lemma_same_outside(line, spans, s, words, numbers);
    offset::law_each_z_of_an_ascii_line_begins_a_word(line, 0, 0);
    offset::law_the_rest_of_the_line_is_kept(line, spans);
}

/// Lines that are the same around their words are the same with the same numbers
/// in them.
proof fn lemma_same_outside(
    line: Seq<char>,
    spans: Seq<(usize, usize)>,
    other: Seq<char>,
    words: Seq<(usize, usize)>,
    numbers: Seq<Seq<char>>,
)
    requires
        words.len() == spans.len(),
        outside(other, words) == outside(line, spans),
    ensures
        offset::replaced(other, words, numbers) == offset::replaced(line, spans, numbers),
{
    let n = spans.len() as int;
    lemma_same_outside_to(line, spans, other, words, numbers, n);
    assert(outside(other, words)[n] == outside(line, spans)[n]);
}

proof fn lemma_same_outside_to(
    line: Seq<char>,
    spans: Seq<(usize, usize)>,
    other: Seq<char>,
    words: Seq<(usize, usize)>,
    numbers: Seq<Seq<char>>,
    n: int,
)
    requires
        words.len() == spans.len(),
        outside(other, words) == outside(line, spans),
        0 <= n <= spans.len(),
    ensures
        offset::replaced_to(other, words, numbers, n) == offset::replaced_to(
            line,
            spans,
            numbers,
            n,
        ),
    decreases n,
{
    if n > 0 {
        lemma_same_outside_to(line, spans, other, words, numbers, n - 1);
        assert(outside(other, words)[n - 1] == outside(line, spans)[n - 1]);
    }
}

/// How far a shifted line goes with its first `k` words.
spec fn end_after(line: Seq<char>, sums: Seq<Seq<char>>, k: int) -> int {
    offset::replaced_to(line, ascii::z_words(line), sums, k).len() as int
}

/// Where the word `k` begins in a shifted line.
spec fn start_of(line: Seq<char>, sums: Seq<Seq<char>>, k: int) -> int {
    let spans = ascii::z_words(line);
    end_after(line, sums, k) + (spans[k].0 - offset::end_of(spans, k))
}

/// Where the words of a shifted line stand.
spec fn new_spans(line: Seq<char>, sums: Seq<Seq<char>>) -> Seq<(usize, usize)> {
    Seq::new(
        ascii::z_words(line).len(),
        |k: int| (start_of(line, sums, k) as usize, end_after(line, sums, k + 1) as usize),
    )
}

/// What stands before the word `k` of a line holds no `Z`.
proof fn lemma_gap(line: Seq<char>, k: int)
    requires
        is_ascii_chars(line),
        line.len() <= usize::MAX,
        0 <= k <= ascii::z_words(line).len(),
    ensures
        ({
            let spans = ascii::z_words(line);
            let a = offset::end_of(spans, k);
            let b = if k < spans.len() {
                spans[k].0 as int
            } else {
                line.len() as int
            };
            &&& 0 <= a <= b <= line.len()
            &&& forall|p: int| a <= p < b ==> #[trigger] line[p] != 'Z'
            &&& k < spans.len() ==> b < line.len() && line[b] == 'Z'
            &&& 0 < k && a < line.len() ==> !ascii::digit(line[a])
        }),
{
    let spans = ascii::z_words(line);
    let a = offset::end_of(spans, k);
    ascii::lemma_z_words(line, 0);
    if k > 0 {
        let last = spans[k - 1];
        ascii::lemma_z_word_end(line, last.0 as int);
        if k < spans.len() {
            assert(spans[k - 1].1 <= spans[k].0);
        }
    }
    assert forall|p: int|
        a <= p < (if k < spans.len() {
            spans[k].0 as int
        } else {
            line.len() as int
        }) implies #[trigger] line[p] != 'Z' by {
        if line[p] == 'Z' {
            let j = choose|j: int| 0 <= j < spans.len() && (#[trigger] spans[j]).0 == p;
            if j < k - 1 {
                assert(spans[j].1 <= spans[k - 1].0);
            }
            if k < j {
                assert(spans[k].1 <= spans[j].0);
            }
        }
    }
}

/// A shifted line begins with what it is up to any of its words.
proof fn lemma_prefix(line: Seq<char>, sums: Seq<Seq<char>>, k: int, n: int)
    requires
        0 <= k <= n,
    ensures
        ({
            let spans = ascii::z_words(line);
            let short = offset::replaced_to(line, spans, sums, k);
            let long = offset::replaced_to(line, spans, sums, n);
            short.len() <= long.len() && long.take(short.len() as int) == short
        }),
    decreases n - k,
{
    let spans = ascii::z_words(line);
    let short = offset::replaced_to(line, spans, sums, k);
    let long = offset::replaced_to(line, spans, sums, n);
    if k < n {
        lemma_prefix(line, sums, k, n - 1);
        let middle = offset::replaced_to(line, spans, sums, n - 1);
        assert(long.take(middle.len() as int) =~= middle);
        assert(long.take(short.len() as int) =~= middle.take(short.len() as int));
    } else {
        assert(long.take(short.len() as int) =~= short);
    }
}

/// What stands in a shifted line up to the end of its word `k`.
proof fn lemma_layout(line: Seq<char>, sums: Seq<Seq<char>>, k: int)
    requires
        sums_fit(line, sums),
        0 <= k < sums.len(),
    ensures
        ({
            let spans = ascii::z_words(line);
            let s = shifted(line, sums);
            let a = offset::end_of(spans, k);
            let b = spans[k].0 as int;
            let p = end_after(line, sums, k);
            let start = start_of(line, sums, k);
            let end = end_after(line, sums, k + 1);
            &&& 0 <= a <= b < line.len()
            &&& 0 <= p <= start < end <= s.len()
            &&& end == start + 1 + sums[k].len()
            &&& start - p == b - a
            &&& s.subrange(p, start) == line.subrange(a, b)
            &&& s[start] == 'Z'
            &&& s.subrange(start + 1, end) == sums[k]
        }),
{
    let spans = ascii::z_words(line);
    let n = spans.len() as int;
    let s = shifted(line, sums);
    let a = offset::end_of(spans, k);
    let b = spans[k].0 as int;
    lemma_gap(line, k);
    pattern::law_pieces_of_ascii_texts(line, a, b);
    reveal_strlit("Z");
    lemma_prefix(line, sums, k + 1, n);
    let done = offset::replaced_to(line, spans, sums, k);
    let next = offset::replaced_to(line, spans, sums, k + 1);
    let all = offset::replaced_to(line, spans, sums, n);
    let start = start_of(line, sums, k);
    let end = next.len() as int;
    assert(next == done + line.subrange(a, b) + "Z"@ + sums[k]);
    assert(s.take(end) =~= all.take(end));
    assert(s.take(end) =~= next);
    assert(s.subrange(done.len() as int, start) =~= s.take(end).subrange(
        done.len() as int,
        start,
    ));
    assert(s.subrange(done.len() as int, start) =~= line.subrange(a, b));
    assert(s[start] == s.take(end)[start]);
    assert(s.subrange(start + 1, end) =~= s.take(end).subrange(start + 1, end));
    assert(s.subrange(start + 1, end) =~= sums[k]);
}

/// What stands in a shifted line after its last word.
proof fn lemma_tail(line: Seq<char>, sums: Seq<Seq<char>>)
    requires
        sums_fit(line, sums),
    ensures
        ({
            let spans = ascii::z_words(line);
            let s = shifted(line, sums);
            let n = spans.len() as int;
            &&& 0 <= offset::end_of(spans, n) <= line.len()
            &&& 0 <= end_after(line, sums, n) <= s.len()
            &&& s.len() - end_after(line, sums, n) == line.len() - offset::end_of(spans, n)
            &&& s.subrange(end_after(line, sums, n), s.len() as int) == line.subrange(
                offset::end_of(spans, n),
                line.len() as int,
            )
        }),
{
    let spans = ascii::z_words(line);
    let n = spans.len() as int;
    let s = shifted(line, sums);
    lemma_gap(line, n);
    is_ascii_chars_encode_utf8(line);
    pattern::law_pieces_of_ascii_texts(line, offset::end_of(spans, n), line.len() as int);
    assert(s.subrange(end_after(line, sums, n), s.len() as int) =~= line.subrange(
        offset::end_of(spans, n),
        line.len() as int,
    ));
}

/// The words of a shifted line end where they are said to.
proof fn lemma_end(line: Seq<char>, sums: Seq<Seq<char>>, k: int)
    requires
        sums_fit(line, sums),
        0 <= k <= sums.len(),
    ensures
        offset::end_of(new_spans(line, sums), k) == end_after(line, sums, k),
        k < sums.len() ==> {
            &&& new_spans(line, sums)[k].0 == start_of(line, sums, k)
            &&& new_spans(line, sums)[k].1 == end_after(line, sums, k + 1)
        },
{
    if k > 0 {
        lemma_layout(line, sums, k - 1);
    }
    if k < sums.len() {
        lemma_layout(line, sums, k);
    }
}

/// After a word of a shifted line no digit follows.
proof fn lemma_no_digit_follows(line: Seq<char>, sums: Seq<Seq<char>>, k: int)
    requires
        sums_fit(line, sums),
        0 < k <= sums.len(),
    ensures
        ({
            let end = end_after(line, sums, k);
            end < shifted(line, sums).len() ==> !ascii::digit(shifted(line, sums)[end])
        }),
{
    let s = shifted(line, sums);
    let end = end_after(line, sums, k);
    let a = offset::end_of(ascii::z_words(line), k);
    lemma_gap(line, k);
    if k < sums.len() {
        lemma_layout(line, sums, k);
        let start = start_of(line, sums, k);
        if end < start {
            assert(s[end] == s.subrange(end, start)[0]);
            assert(s[end] == line[a]);
        }
    } else {
        lemma_tail(line, sums);
        if end < s.len() {
            assert(s[end] == s.subrange(end, s.len() as int)[0]);
            assert(s[end] == line[a]);
        }
    }
}

/// A Z with a decimal number after it, and then no digit, is a word.
proof fn lemma_decimal_word(s: Seq<char>, start: int, end: int)
    requires
        0 <= start < end <= s.len(),
        decimal(s.subrange(start + 1, end)),
        end < s.len() ==> !ascii::digit(s[end]),
    ensures
        ascii::z_word_end(s, start) == end,
        forall|p: int| start < p < end ==> #[trigger] s[p] != 'Z',
        forall|p: int| start < p < end ==> '\0' <= #[trigger] s[p] <= '\u{7f}',
{
    let n = s.subrange(start + 1, end);
    let digits = |c: char| ascii::digit(c);
    let first: int = if n.len() > 0 && (n[0] == '+' || n[0] == '-') {
        1
    } else {
        0
    };
    let whole = ascii::digits_end(n, first);
    let base = start + 1;
    ascii::lemma_run_end(n, first, digits);
    ascii::lemma_run_end(n, whole + 1, digits);
    assert(n[0] == s[base]);
    assert forall|p: int| base + first <= p < base + whole implies digits(#[trigger] s[p]) by {
        assert(n[p - base] == s[p]);
    }
    assert(s[base + whole] == n[whole]);
    ascii::lemma_run(s, base + first, base + whole, digits);
    assert forall|p: int| base + whole + 1 <= p < end implies digits(#[trigger] s[p]) by {
        assert(n[p - base] == s[p]);
    }
    ascii::lemma_run(s, base + whole + 1, end, digits);
    assert forall|p: int| start < p < end implies #[trigger] s[p] != 'Z' && '\0' <= s[p]
        <= '\u{7f}' by {
        assert(n[p - base] == s[p]);
        if first <= p - base < whole || whole < p - base {
            assert(digits(s[p]));
        }
    }
}

/// Where nothing but other letters stands, no word begins.
proof fn lemma_no_word(s: Seq<char>, i: int, j: int)
    requires
        0 <= i <= j <= s.len(),
        forall|p: int| i <= p < j ==> #[trigger] s[p] != 'Z',
    ensures
        ascii::z_words_from(s, i) == ascii::z_words_from(s, j),
    decreases j - i,
{
    if i < j {
        assert(s[i] != 'Z');
        lemma_no_word(s, i + 1, j);
    }
}

/// From the end of any of its words on, a shifted line has the words that follow.
proof fn lemma_words(line: Seq<char>, sums: Seq<Seq<char>>, k: int)
    requires
        sums_fit(line, sums),
        0 <= k <= sums.len(),
    ensures
        ascii::z_words_from(shifted(line, sums), end_after(line, sums, k)) == new_spans(
            line,
            sums,
        ).skip(k),
    decreases sums.len() - k,
{
    let s = shifted(line, sums);
    let words = new_spans(line, sums);
    let a = offset::end_of(ascii::z_words(line), k);
    let p = end_after(line, sums, k);
    lemma_gap(line, k);
    if k < sums.len() {
        let start = start_of(line, sums, k);
        let end = end_after(line, sums, k + 1);
        lemma_layout(line, sums, k);
        assert forall|q: int| p <= q < start implies #[trigger] s[q] != 'Z' by {
            assert(s[q] == s.subrange(p, start)[q - p]);
            assert(s[q] == line[a + (q - p)]);
        }
        lemma_no_word(s, p, start);
        lemma_no_digit_follows(line, sums, k + 1);
        assert(decimal(sums[k]));
        lemma_decimal_word(s, start, end);
        lemma_no_word(s, start + 1, end);
        lemma_words(line, sums, k + 1);
        assert(words.skip(k) =~= seq![words[k]] + words.skip(k + 1));
    } else {
        lemma_tail(line, sums);
        assert forall|q: int| p <= q < s.len() implies #[trigger] s[q] != 'Z' by {
            assert(s[q] == s.subrange(p, s.len() as int)[q - p]);
            assert(s[q] == line[a + (q - p)]);
        }
        lemma_no_word(s, p, s.len() as int);
        assert(words.skip(k) =~= Seq::empty());
    }
}

/// A shifted line of ASCII characters is one.
proof fn lemma_shifted_is_ascii(line: Seq<char>, sums: Seq<Seq<char>>)
    requires
        sums_fit(line, sums),
    ensures
        is_ascii_chars(shifted(line, sums)),
{
    let s = shifted(line, sums);
    let n = sums.len() as int;
    lemma_ascii_to(line, sums, n);
    lemma_tail(line, sums);
    let p = end_after(line, sums, n);
    let a = offset::end_of(ascii::z_words(line), n);
    assert forall|q: int| 0 <= q < s.len() implies '\0' <= #[trigger] s[q] <= '\u{7f}' by {
        if p <= q {
            assert(s[q] == s.subrange(p, s.len() as int)[q - p]);
            assert(s[q] == line[a + (q - p)]);
        }
    }
}

proof fn lemma_ascii_to(line: Seq<char>, sums: Seq<Seq<char>>, k: int)
    requires
        sums_fit(line, sums),
        0 <= k <= sums.len(),
    ensures
        forall|q: int|
            0 <= q < end_after(line, sums, k) ==> '\0' <= #[trigger] shifted(line, sums)[q]
                <= '\u{7f}',
    decreases k,
{
    if k > 0 {
        let s = shifted(line, sums);
        let p = end_after(line, sums, k - 1);
        let start = start_of(line, sums, k - 1);
        let end = end_after(line, sums, k);
        lemma_ascii_to(line, sums, k - 1);
        lemma_layout(line, sums, k - 1);
        lemma_no_digit_follows(line, sums, k);
        assert(decimal(sums[k - 1]));
        lemma_decimal_word(s, start, end);
        assert forall|q: int| 0 <= q < end implies '\0' <= #[trigger] s[q] <= '\u{7f}' by {
            if p <= q < start {
                assert(s[q] == s.subrange(p, start)[q - p]);
            }
        }
    }
}

} // verus!
