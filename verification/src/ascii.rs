//! What the expressions for lines and replies match in texts of ASCII
//! characters.
use vstd::prelude::*;

verus! {

/// Whether `c` is a digit.
pub open spec fn digit(c: char) -> bool {
    '0' <= c <= '9'
}

/// Whether `c` is a letter.
pub open spec fn letter(c: char) -> bool {
    'A' <= c <= 'Z' || 'a' <= c <= 'z'
}

/// Whether `c` can stand in a word.
pub open spec fn word_character(c: char) -> bool {
    letter(c) || digit(c) || c == '_'
}

/// Whether `c` can stand in a reading of a report.
pub open spec fn reading_character(c: char) -> bool {
    digit(c) || c == '-' || c == '.'
}

/// Where the run of characters of `class` ends that stands in `s` from `i` on.
pub open spec fn run_end(s: Seq<char>, i: int, class: spec_fn(char) -> bool) -> int
    decreases s.len() - i,
{
    if 0 <= i < s.len() && class(s[i]) {
        run_end(s, i + 1, class)
    } else {
        i
    }
}

/// Where the digits end that stand in `s` from `i` on.
pub open spec fn digits_end(s: Seq<char>, i: int) -> int {
    run_end(s, i, |c: char| digit(c))
}

/// Where the letters end that stand in `s` from `i` on.
pub open spec fn letters_end(s: Seq<char>, i: int) -> int {
    run_end(s, i, |c: char| letter(c))
}

/// Where the word ends that stands in `s` from `i` on.
pub open spec fn word_end(s: Seq<char>, i: int) -> int {
    run_end(s, i, |c: char| word_character(c))
}

/// Where the reading ends that stands in `s` from `i` on.
pub open spec fn reading_end(s: Seq<char>, i: int) -> int {
    run_end(s, i, |c: char| reading_character(c))
}

/// Where the Z word ends whose letter stands in `s` at `i`: after a sign,
/// digits, a point and digits, as far as they are there.
pub open spec fn z_word_end(s: Seq<char>, i: int) -> int {
    let sign = if i + 1 < s.len() && (s[i + 1] == '+' || s[i + 1] == '-') {
        i + 2
    } else {
        i + 1
    };
    let whole = digits_end(s, sign);
    let point = if whole < s.len() && s[whole] == '.' {
        whole + 1
    } else {
        whole
    };
    digits_end(s, point)
}

/// Where the Z words stand in `s` from `i` on: one at each `Z`.
pub open spec fn z_words_from(s: Seq<char>, i: int) -> Seq<(usize, usize)>
    decreases s.len() - i,
{
    if i < 0 || i >= s.len() {
        Seq::empty()
    } else if s[i] == 'Z' {
        seq![(i as usize, z_word_end(s, i) as usize)] + z_words_from(s, i + 1)
    } else {
        z_words_from(s, i + 1)
    }
}

/// Where the Z words stand in `s`.
pub open spec fn z_words(s: Seq<char>) -> Seq<(usize, usize)> {
    z_words_from(s, 0)
}

/// The first word of `s` after a `<`, from `i` on, as the first group.
pub open spec fn bracket_match(s: Seq<char>, i: int) -> Option<Seq<Option<Seq<char>>>>
    decreases s.len() - i,
{
    if i < 0 || i >= s.len() {
        None
    } else if s[i] == '<' && word_end(s, i + 1) > i + 1 {
        Some(
            seq![
                Some(s.subrange(i, word_end(s, i + 1))),
                Some(s.subrange(i + 1, word_end(s, i + 1))),
                None,
            ],
        )
    } else {
        bracket_match(s, i + 1)
    }
}

/// What the expression for the state matches: the letters that `s` begins with,
/// maybe after a `[`, as the second group, or else the first word after a `<`.
pub open spec fn state_match(s: Seq<char>) -> Option<Seq<Option<Seq<char>>>> {
    let start: int = if s.len() > 0 && s[0] == '[' {
        1
    } else {
        0
    };
    let end = letters_end(s, start);
    if end > start {
        Some(seq![Some(s.subrange(0, end)), None, Some(s.subrange(start, end))])
    } else {
        bracket_match(s, 0)
    }
}

/// Whether a reading stands in `s` at `i`, with a comma right after it.
pub open spec fn reading_and_comma(s: Seq<char>, i: int) -> bool {
    i < reading_end(s, i) < s.len() && s[reading_end(s, i)] == ','
}

/// Where the reading stands that follows the one at `i` and its comma.
pub open spec fn next_reading(s: Seq<char>, i: int) -> int {
    reading_end(s, i) + 1
}

/// Whether a position stands in `s` at `i`: `MPos:` or `WPos:` and three
/// readings with commas between them.
pub open spec fn position_at(s: Seq<char>, i: int) -> bool {
    let x = i + 5;
    let y = next_reading(s, x);
    let z = next_reading(s, y);
    &&& 0 <= i && x <= s.len()
    &&& s[i] == 'M' || s[i] == 'W'
    &&& s[i + 1] == 'P' && s[i + 2] == 'o' && s[i + 3] == 's' && s[i + 4] == ':'
    &&& reading_and_comma(s, x)
    &&& reading_and_comma(s, y)
    &&& reading_end(s, z) > z
}

/// The first position in `s` from `i` on, with its first and its third reading
/// as the groups.
pub open spec fn position_from(s: Seq<char>, i: int) -> Option<Seq<Option<Seq<char>>>>
    decreases s.len() - i,
{
    if i < 0 || i >= s.len() {
        None
    } else if position_at(s, i) {
        let x = i + 5;
        let z = next_reading(s, next_reading(s, x));
        Some(
            seq![
                Some(s.subrange(i, reading_end(s, z))),
                Some(s.subrange(x, reading_end(s, x))),
                Some(s.subrange(z, reading_end(s, z))),
            ],
        )
    } else {
        position_from(s, i + 1)
    }
}

/// What the expression for the position matches.
pub open spec fn position_match(s: Seq<char>) -> Option<Seq<Option<Seq<char>>>> {
    position_from(s, 0)
}

/// Where the first reading stands of a feed rate that begins in `s` at `i`: after
/// an `F`, an `S` if one follows, and a colon.
pub open spec fn feed_reading(s: Seq<char>, i: int) -> int {
    if i + 1 < s.len() && s[i + 1] == 'S' {
        i + 3
    } else {
        i + 2
    }
}

/// Whether a feed rate and a spindle speed stand in `s` at `i`: `F:` or `FS:` and
/// two readings with a comma between them.
pub open spec fn feed_at(s: Seq<char>, i: int) -> bool {
    let feed = feed_reading(s, i);
    let spindle = next_reading(s, feed);
    &&& 0 <= i && feed <= s.len()
    &&& s[i] == 'F' && s[feed - 1] == ':'
    &&& reading_and_comma(s, feed)
    &&& reading_end(s, spindle) > spindle
}

/// The first feed rate and spindle speed in `s` from `i` on, with the two
/// readings as the groups.
pub open spec fn feed_from(s: Seq<char>, i: int) -> Option<Seq<Option<Seq<char>>>>
    decreases s.len() - i,
{
    if i < 0 || i >= s.len() {
        None
    } else if feed_at(s, i) {
        let feed = feed_reading(s, i);
        let spindle = next_reading(s, feed);
        Some(
            seq![
                Some(s.subrange(i, reading_end(s, spindle))),
                Some(s.subrange(feed, reading_end(s, feed))),
                Some(s.subrange(spindle, reading_end(s, spindle))),
            ],
        )
    } else {
        feed_from(s, i + 1)
    }
}

/// What the expression for the feed rate and the spindle speed matches.
pub open spec fn feed_match(s: Seq<char>) -> Option<Seq<Option<Seq<char>>>> {
    feed_from(s, 0)
}

/// A run is made of characters of its class, and ends before another one.
pub proof fn lemma_run_end(s: Seq<char>, i: int, class: spec_fn(char) -> bool)
    requires
        0 <= i <= s.len(),
    ensures
        i <= run_end(s, i, class) <= s.len(),
        forall|k: int| i <= k < run_end(s, i, class) ==> class(#[trigger] s[k]),
        run_end(s, i, class) < s.len() ==> !class(s[run_end(s, i, class)]),
    decreases s.len() - i,
{
    if i < s.len() && class(s[i]) {
        lemma_run_end(s, i + 1, class);
    }
}

/// A run that ends before another character, or with the text, ends there.
pub proof fn lemma_run(s: Seq<char>, i: int, end: int, class: spec_fn(char) -> bool)
    requires
        0 <= i <= end <= s.len(),
        forall|k: int| i <= k < end ==> class(#[trigger] s[k]),
        end < s.len() ==> !class(s[end]),
    ensures
        run_end(s, i, class) == end,
    decreases end - i,
{
    if i < end {
        assert(class(s[i]));
        lemma_run(s, i + 1, end, class);
    }
}

/// A Z word holds no other `Z`, and no digit follows it.
pub proof fn lemma_z_word_end(s: Seq<char>, i: int)
    requires
        0 <= i < s.len(),
    ensures
        i < z_word_end(s, i) <= s.len(),
        forall|k: int| i < k < z_word_end(s, i) ==> s[k] != 'Z',
        z_word_end(s, i) < s.len() ==> !digit(s[z_word_end(s, i)]),
{
    let sign = if i + 1 < s.len() && (s[i + 1] == '+' || s[i + 1] == '-') {
        i + 2
    } else {
        i + 1
    };
    lemma_run_end(s, sign, |c: char| digit(c));
    let whole = digits_end(s, sign);
    let point = if whole < s.len() && s[whole] == '.' {
        whole + 1
    } else {
        whole
    };
    lemma_run_end(s, point, |c: char| digit(c));
}

/// A text has as many Z words as it has `Z`s.
pub proof fn law_as_many_words_as_zs(s: Seq<char>)
    ensures
        z_words(s).len() == s.filter(|c: char| c == 'Z').len(),
{
    lemma_count_from(s, 0);
    assert(s.skip(0) =~= s);
}

proof fn lemma_count_from(s: Seq<char>, i: int)
    requires
        0 <= i <= s.len(),
    ensures
        z_words_from(s, i).len() == s.skip(i).filter(|c: char| c == 'Z').len(),
    decreases s.len() - i,
{
    let keep = |c: char| c == 'Z';
    reveal(Seq::filter);
    if i < s.len() {
        let one = seq![s[i]];
        lemma_count_from(s, i + 1);
        assert(s.skip(i) =~= one + s.skip(i + 1));
        Seq::filter_distributes_over_add(one, s.skip(i + 1), keep);
        assert(one.drop_last().filter(keep) =~= Seq::empty());
        assert(one.filter(keep).len() == (if s[i] == 'Z' {
            1int
        } else {
            0
        }));
    }
}

/// The Z words of `s` from `i` on begin at its `Z`s, come from the front to the
/// back and do not overlap.
pub proof fn lemma_z_words(s: Seq<char>, i: int)
    requires
        0 <= i <= s.len() <= usize::MAX,
    ensures
        ({
            let spans = z_words_from(s, i);
            &&& forall|k: int|
                #![trigger spans[k]]
                0 <= k < spans.len() ==> {
                    &&& i <= spans[k].0 < spans[k].1 <= s.len()
                    &&& s[spans[k].0 as int] == 'Z'
                    &&& spans[k].1 == z_word_end(s, spans[k].0 as int)
                }
            &&& forall|j: int, k: int|
                #![trigger spans[j], spans[k]]
                0 <= j < k < spans.len() ==> spans[j].1 <= spans[k].0
            &&& forall|p: int|
                #![trigger s[p]]
                i <= p < s.len() && s[p] == 'Z' ==> exists|k: int|
                    0 <= k < spans.len() && (#[trigger] spans[k]).0 == p
        }),
    decreases s.len() - i,
{
    let spans = z_words_from(s, i);
    if i < s.len() {
        lemma_z_words(s, i + 1);
        let rest = z_words_from(s, i + 1);
        if s[i] == 'Z' {
            lemma_z_word_end(s, i);
            assert(spans[0] == (i as usize, z_word_end(s, i) as usize));
            assert forall|k: int| #![trigger spans[k]] 0 <= k < spans.len() implies {
                &&& i <= spans[k].0 < spans[k].1 <= s.len()
                &&& s[spans[k].0 as int] == 'Z'
                &&& spans[k].1 == z_word_end(s, spans[k].0 as int)
            } by {
                if k > 0 {
                    assert(spans[k] == rest[k - 1]);
                }
            }
            assert forall|j: int, k: int|
                #![trigger spans[j], spans[k]]
                0 <= j < k < spans.len() implies spans[j].1 <= spans[k].0 by {
                assert(spans[k] == rest[k - 1]);
                if j > 0 {
                    assert(spans[j] == rest[j - 1]);
                } else {
                    assert(s[spans[k].0 as int] == 'Z');
                }
            }
            assert forall|p: int|
                #![trigger s[p]]
                i <= p < s.len() && s[p] == 'Z' implies exists|k: int|
                0 <= k < spans.len() && (#[trigger] spans[k]).0 == p by {
                if p > i {
                    let k = choose|k: int| 0 <= k < rest.len() && (#[trigger] rest[k]).0 == p;
                    assert(spans[k + 1] == rest[k]);
                }
            }
        } else {
            assert(spans == rest);
        }
    } else {
        assert(spans.len() == 0);
    }
}

/// Whether `s` holds digits alone from `a` to `b`.
pub open spec fn digits_between(s: Seq<char>, a: int, b: int) -> bool {
    forall|k: int| a <= k < b ==> '0' <= #[trigger] s[k] <= '9'
}

/// The word that begins with a `Z` is the letter, a sign, digits, a point and
/// digits, and nothing that could go on with it follows: no sign is left out,
/// nor a digit, nor a point.
pub proof fn law_a_z_word_is_its_whole_number(s: Seq<char>, i: int)
    requires
        0 <= i < s.len(),
    ensures
        exists|a: int, b: int, c: int|
            #![trigger digits_between(s, a, b), digits_between(s, c, z_word_end(s, i))]
            {
                &&& i < a <= b <= c <= z_word_end(s, i) <= s.len()
                &&& a == i + 1 ==> i + 1 < s.len() ==> s[i + 1] != '+' && s[i + 1] != '-'
                &&& a != i + 1 ==> a == i + 2 && (s[i + 1] == '+' || s[i + 1] == '-')
                &&& digits_between(s, a, b)
                &&& b < s.len() ==> !('0' <= s[b] <= '9')
                &&& c == b ==> b < s.len() ==> s[b] != '.'
                &&& c != b ==> c == b + 1 && s[b] == '.'
                &&& digits_between(s, c, z_word_end(s, i))
                &&& z_word_end(s, i) < s.len() ==> !('0' <= s[z_word_end(s, i)] <= '9')
            },
{
    let class = |c: char| digit(c);
    let a = if i + 1 < s.len() && (s[i + 1] == '+' || s[i + 1] == '-') {
        i + 2
    } else {
        i + 1
    };
    let b = digits_end(s, a);
    let c = if b < s.len() && s[b] == '.' {
        b + 1
    } else {
        b
    };
    let end = digits_end(s, c);
    lemma_run_end(s, a, class);
    lemma_run_end(s, c, class);
    assert(digits_between(s, a, b)) by {
        assert forall|k: int| a <= k < b implies '0' <= #[trigger] s[k] <= '9' by {
            assert(class(s[k]));
        }
    }
    assert(digits_between(s, c, end)) by {
        assert forall|k: int| c <= k < end implies '0' <= #[trigger] s[k] <= '9' by {
            assert(class(s[k]));
        }
    }
    assert(end == z_word_end(s, i));
}

} // verus!
