//! Text operations on characters: white space, trimming, searching, lines.
use vstd::prelude::*;

verus! {

/// The characters of Unicode's `White_Space` property.
pub open spec fn white_space(c: char) -> bool {
    ||| '\u{9}' <= c <= '\u{d}'
    ||| c == ' '
    ||| c == '\u{85}'
    ||| c == '\u{a0}'
    ||| c == '\u{1680}'
    ||| '\u{2000}' <= c <= '\u{200a}'
    ||| c == '\u{2028}'
    ||| c == '\u{2029}'
    ||| c == '\u{202f}'
    ||| c == '\u{205f}'
    ||| c == '\u{3000}'
}

/// Whether `c` is white space.
pub fn is_whitespace(c: char) -> (r: bool)
    ensures
        r == white_space(c),
{
    ('\u{9}' <= c && c <= '\u{d}') || c == ' ' || c == '\u{85}' || c == '\u{a0}' || c == '\u{1680}'
        || ('\u{2000}' <= c && c <= '\u{200a}') || c == '\u{2028}' || c == '\u{2029}' || c
        == '\u{202f}' || c == '\u{205f}' || c == '\u{3000}'
}

/// `s` without its leading white space.
pub open spec fn without_leading_space(s: Seq<char>) -> Seq<char>
    decreases s.len(),
{
    if s.len() > 0 && white_space(s.first()) {
        without_leading_space(s.drop_first())
    } else {
        s
    }
}

/// `s` without its trailing white space.
pub open spec fn without_trailing_space(s: Seq<char>) -> Seq<char>
    decreases s.len(),
{
    if s.len() > 0 && white_space(s.last()) {
        without_trailing_space(s.drop_last())
    } else {
        s
    }
}

/// `s` without its surrounding white space.
pub open spec fn trimmed(s: Seq<char>) -> Seq<char> {
    without_trailing_space(without_leading_space(s))
}

/// Whether `part` occurs in `s`.
pub open spec fn occurs(part: Seq<char>, s: Seq<char>) -> bool {
    exists|i: int|
        0 <= i <= s.len() - part.len() && #[trigger] s.subrange(i, i + part.len()) == part
}

/// The characters of a list of strings.
pub open spec fn texts(v: Seq<String>) -> Seq<Seq<char>> {
    Seq::new(v.len(), |i: int| v[i]@)
}

/// The same strings once more.
pub fn copy_of(v: &Vec<String>) -> (r: Vec<String>)
    ensures
        texts(r@) == texts(v@),
{
    let mut r: Vec<String> = Vec::new();
    let mut i: usize = 0;
    while i < v.len()
        invariant
            i <= v.len(),
            r.len() == i,
            forall|k: int| 0 <= k < i ==> (#[trigger] r@[k])@ == v@[k]@,
        decreases v.len() - i,
    {
        r.push(v[i].clone());
        i = i + 1;
    }
    assert(texts(r@) =~= texts(v@));
    r
}

/// The characters of `s`, one by one.
pub fn chars_of(s: &str) -> (r: Vec<char>)
    ensures
        r@ == s@,
{
    let mut r: Vec<char> = Vec::new();
    for c in it: s.chars()
        invariant
            it.seq() == s@,
            r@ == s@.take(it.index() as int),
    {
        r.push(c);
    }
    assert(s@.take(s@.len() as int) == s@);
    r
}

/// `s` without its trailing white space.
pub fn trim_end(s: &str) -> (r: &str)
    ensures
        r@ == without_trailing_space(s@),
{
    let chars = chars_of(s);
    let mut end: usize = chars.len();
    assert(s@.take(end as int) == s@);
    while end > 0 && is_whitespace(chars[end - 1])
        invariant
            end <= chars.len(),
            chars@ == s@,
            without_trailing_space(s@) == without_trailing_space(s@.take(end as int)),
        decreases end,
    {
        assert(s@.take(end as int).drop_last() == s@.take(end - 1));
        end = end - 1;
    }
    assert(s@.subrange(0, end as int) == s@.take(end as int));
    s.substring_char(0, end)
}

/// `s` without its surrounding white space.
pub fn trim(s: &str) -> (r: &str)
    ensures
        r@ == trimmed(s@),
{
    let chars = chars_of(s);
    let mut start: usize = 0;
    assert(s@.skip(0) == s@);
    while start < chars.len() && is_whitespace(chars[start])
        invariant
            start <= chars.len(),
            chars@ == s@,
            without_leading_space(s@) == without_leading_space(s@.skip(start as int)),
        decreases chars.len() - start,
    {
        assert(s@.skip(start as int).drop_first() == s@.skip(start + 1));
        start = start + 1;
    }
    assert(s@.subrange(start as int, s@.len() as int) == s@.skip(start as int));
    trim_end(s.substring_char(start, chars.len()))
}

/// Whether `chars` holds `part` from position `at` on.
fn matches_at(chars: &Vec<char>, part: &Vec<char>, at: usize) -> (r: bool)
    requires
        at + part.len() <= chars.len(),
    ensures
        r == (chars@.subrange(at as int, at + part@.len()) == part@),
{
    let mut i: usize = 0;
    while i < part.len()
        invariant
            i <= part.len(),
            at + part.len() <= chars.len(),
            forall|k: int| 0 <= k < i ==> chars@[at + k] == part@[k],
        decreases part.len() - i,
    {
        if chars[at + i] != part[i] {
            assert(chars@.subrange(at as int, at + part@.len())[i as int] != part@[i as int]);
            return false;
        }
        i = i + 1;
    }
    assert(chars@.subrange(at as int, at + part@.len()) =~= part@);
    true
}

/// Whether `part` occurs in `s`.
pub fn contains(s: &str, part: &str) -> (r: bool)
    ensures
        r == occurs(part@, s@),
{
    let chars = chars_of(s);
    let wanted = chars_of(part);
    if wanted.len() > chars.len() {
        return false;
    }
    let last: usize = chars.len() - wanted.len();
    let mut i: usize = 0;
    while i <= last
        invariant
            chars@ == s@,
            wanted@ == part@,
            last == s@.len() - part@.len(),
            i <= last + 1,
            forall|k: int|
                0 <= k < i ==> #[trigger] s@.subrange(k, k + part@.len()) != part@,
        decreases last + 1 - i,
    {
        if matches_at(&chars, &wanted, i) {
            return true;
        }
        if i == last {
            return false;
        }
        i = i + 1;
    }
    false
}

/// Whether `s` begins with `part`.
pub fn starts_with(s: &str, part: &str) -> (r: bool)
    ensures
        r == part@.is_prefix_of(s@),
{
    let chars = chars_of(s);
    let wanted = chars_of(part);
    if wanted.len() > chars.len() {
        return false;
    }
    matches_at(&chars, &wanted, 0)
}

/// Whether `s` and `other` are the same text.
pub fn same_text(s: &str, other: &str) -> (r: bool)
    ensures
        r == (s@ == other@),
{
    let chars = chars_of(s);
    let wanted = chars_of(other);
    if wanted.len() != chars.len() {
        return false;
    }
    assert(s@.subrange(0, s@.len() as int) == s@);
    matches_at(&chars, &wanted, 0)
}

/// `line` without a final carriage return.
pub open spec fn without_carriage_return(line: Seq<char>) -> Seq<char> {
    if line.len() > 0 && line.last() == '\r' {
        line.drop_last()
    } else {
        line
    }
}

/// Whether `n` is the position of the first newline of `s`.
pub open spec fn is_first_newline(s: Seq<char>, n: int) -> bool {
    &&& 0 <= n < s.len()
    &&& s[n] == '\n'
    &&& forall|k: int| 0 <= k < n ==> s[k] != '\n'
}

/// The lines of `s`: what stands between its line endings, which are newlines,
/// each together with a carriage return right before it. A last line needs no
/// ending, and a final ending begins no line.
pub open spec fn lines_of(s: Seq<char>) -> Seq<Seq<char>>
    decreases s.len(),
{
    if s.len() == 0 {
        Seq::empty()
    } else if exists|n: int| is_first_newline(s, n) {
        let n = choose|n: int| is_first_newline(s, n);
        seq![without_carriage_return(s.take(n))] + lines_of(s.skip(n + 1))
    } else {
        seq![s]
    }
}

/// Some lines as one text, with a newline between each two.
pub open spec fn with_newlines(lines: Seq<Seq<char>>) -> Seq<char>
    decreases lines.len(),
{
    if lines.len() == 0 {
        Seq::empty()
    } else if lines.len() == 1 {
        lines[0]
    } else {
        lines[0] + seq!['\n'] + with_newlines(lines.drop_first())
    }
}

/// The lines of `s`.
pub fn lines(s: &str) -> (r: Vec<String>)
    ensures
        texts(r@) == lines_of(s@),
{
    let chars = chars_of(s);
    let mut r: Vec<String> = Vec::new();
    let mut start: usize = 0;
    let mut i: usize = 0;
    assert(s@.skip(0) == s@);
    assert(texts(r@) + lines_of(s@) == lines_of(s@));
    while i < chars.len()
        invariant
            chars@ == s@,
            start <= i <= chars.len(),
            forall|k: int| start <= k < i ==> s@[k] != '\n',
            texts(r@) + lines_of(s@.skip(start as int)) == lines_of(s@),
        decreases chars.len() - i,
    {
        if chars[i] == '\n' {
            let end: usize = if i > start && chars[i - 1] == '\r' {
                i - 1
            } else {
                i
            };
            let line = s.substring_char(start, end).to_owned();
            proof {
                let rest = s@.skip(start as int);
                let n = i - start;
                assert(is_first_newline(rest, n));
                lemma_first_line(rest, n);
                assert(rest.skip(n + 1) == s@.skip(i + 1));
                assert(rest.take(n) == s@.subrange(start as int, i as int));
                assert(without_carriage_return(rest.take(n)) == line@);
                assert(texts(r@.push(line)) == texts(r@).push(line@));
                assert(texts(r@) + (seq![line@] + lines_of(s@.skip(i + 1))) == texts(r@).push(line@)
                    + lines_of(s@.skip(i + 1)));
            }
            r.push(line);
            start = i + 1;
        }
        i = i + 1;
    }
    if start < chars.len() {
        let line = s.substring_char(start, chars.len()).to_owned();
        proof {
            let rest = s@.skip(start as int);
            assert(rest == s@.subrange(start as int, s@.len() as int));
            assert forall|n: int| !is_first_newline(rest, n) by {
                if 0 <= n < rest.len() {
                    assert(rest[n] == s@[start + n]);
                }
            }
            assert(texts(r@.push(line)) == texts(r@).push(line@));
            assert(texts(r@) + seq![line@] == texts(r@).push(line@));
        }
        r.push(line);
    } else {
        assert(s@.skip(start as int).len() == 0);
    }
    r
}

/// Trimming takes away white space alone, at both ends, and all of it: `s` is
/// the trimmed text between two runs of white space, and the trimmed text
/// neither begins nor ends with any.
pub proof fn law_trimmed_is_the_core(s: Seq<char>)
    ensures
        exists|a: int, b: int|
            {
                &&& 0 <= a <= b <= s.len()
                &&& #[trigger] s.subrange(a, b) == trimmed(s)
                &&& forall|k: int| 0 <= k < a || b <= k < s.len() ==> white_space(#[trigger] s[k])
            },
        trimmed(s).len() > 0 ==> !white_space(trimmed(s).first()) && !white_space(
            trimmed(s).last(),
        ),
{
    let a = lemma_leading_space(s);
    let inner = without_leading_space(s);
    let n = lemma_trailing_space(inner);
    assert(s.subrange(a, a + n) == trimmed(s));
    assert forall|k: int| 0 <= k < a || a + n <= k < s.len() implies white_space(
        #[trigger] s[k],
    ) by {
        if k >= a {
            assert(inner[k - a] == s[k]);
        }
    }
    if n > 0 {
        assert(trimmed(s).first() == inner.first());
    }
}

/// Trimming twice is trimming once.
pub proof fn law_trimming_is_idempotent(s: Seq<char>)
    ensures
        trimmed(trimmed(s)) == trimmed(s),
{
    law_trimmed_is_the_core(s);
}

/// No line of a text holds a newline.
pub proof fn law_lines_hold_no_newline(s: Seq<char>, i: int)
    requires
        0 <= i < lines_of(s).len(),
    ensures
        !lines_of(s)[i].contains('\n'),
    decreases s.len(),
{
    if exists|n: int| is_first_newline(s, n) {
        let n = choose|n: int| is_first_newline(s, n);
        if i == 0 {
            let line = lines_of(s)[0];
            assert forall|k: int| 0 <= k < line.len() implies line[k] != '\n' by {
                assert(line[k] == s[k]);
            }
        } else {
            law_lines_hold_no_newline(s.skip(n + 1), i - 1);
        }
    } else {
        assert forall|k: int| 0 <= k < s.len() implies s[k] != '\n' by {
            if s[k] == '\n' {
                lemma_first_newline(s, k);
            }
        }
    }
}

/// A text with a newline has a first one.
pub proof fn lemma_first_newline(s: Seq<char>, k: int)
    requires
        0 <= k < s.len(),
        s[k] == '\n',
    ensures
        exists|n: int| is_first_newline(s, n),
    decreases k,
{
    if exists|j: int| 0 <= j < k && s[j] == '\n' {
        let j = choose|j: int| 0 <= j < k && s[j] == '\n';
        lemma_first_newline(s, j);
    } else {
        assert(is_first_newline(s, k));
    }
}

/// Lines that are put together with newlines come apart again: neither is one
/// of them empty, nor does it hold a newline or end with a carriage return.
pub proof fn lemma_lines_come_apart(lines: Seq<Seq<char>>)
    requires
        forall|i: int|
            #![trigger lines[i]]
            0 <= i < lines.len() ==> {
                &&& lines[i].len() > 0
                &&& !lines[i].contains('\n')
                &&& lines[i].last() != '\r'
            },
    ensures
        lines_of(with_newlines(lines)) == lines,
    decreases lines.len(),
{
    let s = with_newlines(lines);
    if lines.len() == 1 {
        assert forall|n: int| !is_first_newline(s, n) by {
            if 0 <= n < s.len() {
                assert(lines[0].contains(s[n]));
            }
        }
        assert(lines =~= seq![s]);
    } else if lines.len() > 1 {
        let rest = lines.drop_first();
        let n = lines[0].len() as int;
        assert forall|i: int| #![trigger rest[i]] 0 <= i < rest.len() implies {
            &&& rest[i].len() > 0
            &&& !rest[i].contains('\n')
            &&& rest[i].last() != '\r'
        } by {
            assert(rest[i] == lines[i + 1]);
        }
        lemma_lines_come_apart(rest);
        assert(is_first_newline(s, n)) by {
            assert forall|k: int| 0 <= k < n implies s[k] != '\n' by {
                assert(s[k] == lines[0][k]);
                assert(lines[0].contains(s[k]));
            }
        }
        lemma_first_line(s, n);
        assert(s.take(n) =~= lines[0]);
        assert(s.skip(n + 1) =~= with_newlines(rest));
        assert(lines =~= seq![lines[0]] + rest);
    }
}

/// A carriage return at the end of a line is white space like any other.
pub proof fn lemma_trimmed_without_carriage_return(line: Seq<char>)
    ensures
        trimmed(without_carriage_return(line)) == trimmed(line),
    decreases line.len(),
{
    if line.len() > 0 && line.last() == '\r' {
        let front = line.drop_last();
        if white_space(line.first()) {
            let rest = line.drop_first();
            if front.len() > 0 {
                assert(rest.last() == '\r' && front.first() == line.first());
                lemma_trimmed_without_carriage_return(rest);
                assert(rest.drop_last() =~= front.drop_first());
            } else {
                assert(rest =~= front);
            }
        } else {
            assert(front.first() == line.first());
        }
    }
}

/// Where the first newline of a text is known, so are its lines.
pub proof fn lemma_first_line(s: Seq<char>, n: int)
    requires
        is_first_newline(s, n),
    ensures
        lines_of(s) == seq![without_carriage_return(s.take(n))] + lines_of(s.skip(n + 1)),
{
    let m = choose|m: int| is_first_newline(s, m);
    assert(m == n) by {
        if m < n {
            assert(s[m] != '\n');
        } else if n < m {
            assert(s[n] != '\n');
        }
    }
}

/// How many characters the leading white space of `s` has.
proof fn lemma_leading_space(s: Seq<char>) -> (a: int)
    ensures
        0 <= a <= s.len(),
        without_leading_space(s) == s.skip(a),
        forall|k: int| 0 <= k < a ==> white_space(#[trigger] s[k]),
        a < s.len() ==> !white_space(s[a]),
    decreases s.len(),
{
    if s.len() > 0 && white_space(s.first()) {
        let rest = s.drop_first();
        let b = lemma_leading_space(rest);
        assert(rest.skip(b) == s.skip(b + 1));
        assert forall|k: int| 0 <= k < b + 1 implies white_space(#[trigger] s[k]) by {
            if k > 0 {
                assert(rest[k - 1] == s[k]);
            }
        }
        b + 1
    } else {
        assert(s.skip(0) == s);
        0
    }
}

/// How many characters of `s` stand before its trailing white space.
proof fn lemma_trailing_space(s: Seq<char>) -> (n: int)
    ensures
        0 <= n <= s.len(),
        without_trailing_space(s) == s.take(n),
        forall|k: int| n <= k < s.len() ==> white_space(#[trigger] s[k]),
        n > 0 ==> !white_space(s[n - 1]),
    decreases s.len(),
{
    if s.len() > 0 && white_space(s.last()) {
        let front = s.drop_last();
        let n = lemma_trailing_space(front);
        assert(front.take(n) == s.take(n));
        assert forall|k: int| n <= k < s.len() implies white_space(#[trigger] s[k]) by {
            if k < s.len() - 1 {
                assert(front[k] == s[k]);
            }
        }
        n
    } else {
        assert(s.take(s.len() as int) == s);
        s.len() as int
    }
}

/// Whether `part` stands somewhere in `s`, with anything before and behind it.
pub open spec fn stands_in(part: Seq<char>, s: Seq<char>) -> bool {
    exists|a: Seq<char>, b: Seq<char>| s == #[trigger] (a + part + b)
}

/// Whether `s` is `part` and anything behind it.
pub open spec fn opens_with(s: Seq<char>, part: Seq<char>) -> bool {
    exists|b: Seq<char>| s == #[trigger] (part + b)
}

/// Whether `s` is made of white space alone.
pub open spec fn blank(s: Seq<char>) -> bool {
    forall|k: int| 0 <= k < s.len() ==> white_space(#[trigger] s[k])
}

/// Whether `s` neither begins nor ends with white space.
pub open spec fn bare(s: Seq<char>) -> bool {
    s.len() > 0 ==> !white_space(s.first()) && !white_space(s.last())
}

/// A part occurs in a text where the text is the part with something before and
/// behind it.
pub proof fn law_what_occurs(part: Seq<char>, s: Seq<char>)
    ensures
        occurs(part, s) <==> stands_in(part, s),
{
    if occurs(part, s) {
        let i = choose|i: int|
            0 <= i <= s.len() - part.len() && #[trigger] s.subrange(i, i + part.len()) == part;
        assert(s =~= s.take(i) + part + s.skip(i + part.len()));
    }
    if stands_in(part, s) {
        let (a, b) = choose|a: Seq<char>, b: Seq<char>| s == #[trigger] (a + part + b);
        let i = a.len() as int;
        assert(s.subrange(i, i + part.len()) =~= part);
    }
}

/// A text begins with a part where it is the part with something behind it.
pub proof fn law_what_a_text_begins_with(s: Seq<char>, part: Seq<char>)
    ensures
        part.is_prefix_of(s) <==> opens_with(s, part),
{
    if part.is_prefix_of(s) {
        assert(s =~= part + s.skip(part.len() as int));
    }
    if opens_with(s, part) {
        let b = choose|b: Seq<char>| s == #[trigger] (part + b);
        assert(s.subrange(0, part.len() as int) =~= part);
    }
}

/// White space behind a text is what is taken away at its end.
pub proof fn law_trailing_space_goes(said: Seq<char>, behind: Seq<char>)
    requires
        blank(behind),
        said.len() > 0 ==> !white_space(said.last()),
    ensures
        without_trailing_space(said + behind) == said,
    decreases behind.len(),
{
    let s = said + behind;
    if behind.len() > 0 {
        let front = behind.drop_last();
        assert(white_space(behind[behind.len() - 1]));
        assert forall|k: int| 0 <= k < front.len() implies white_space(#[trigger] front[k]) by {
            assert(behind[k] == front[k]);
        }
        assert(s.drop_last() =~= said + front);
        law_trailing_space_goes(said, front);
    } else {
        assert(s =~= said);
    }
}

/// White space around a text is what trimming takes away.
pub proof fn law_surrounding_space_goes(before: Seq<char>, core: Seq<char>, behind: Seq<char>)
    requires
        blank(before),
        bare(core),
        blank(behind),
    ensures
        trimmed(before + core + behind) == core,
    decreases before.len(),
{
    let s = before + core + behind;
    if before.len() > 0 {
        let rest = before.drop_first();
        assert(white_space(before[0]));
        assert forall|k: int| 0 <= k < rest.len() implies white_space(#[trigger] rest[k]) by {
            assert(before[k + 1] == rest[k]);
        }
        assert(s.first() == before[0]);
        assert(s.drop_first() =~= rest + core + behind);
        law_surrounding_space_goes(rest, core, behind);
    } else if core.len() > 0 {
        assert(s =~= core + behind);
        assert(s.first() == core.first());
        law_trailing_space_goes(core, behind);
    } else {
        assert(s =~= behind);
        lemma_blank_is_trimmed_away(behind);
        assert(trimmed(s) =~= core);
    }
}

proof fn lemma_blank_is_trimmed_away(s: Seq<char>)
    requires
        blank(s),
    ensures
        without_leading_space(s).len() == 0,
    decreases s.len(),
{
    if s.len() > 0 {
        let rest = s.drop_first();
        assert(white_space(s[0]));
        assert forall|k: int| 0 <= k < rest.len() implies white_space(#[trigger] rest[k]) by {
            assert(s[k + 1] == rest[k]);
        }
        lemma_blank_is_trimmed_away(rest);
    }
}

/// What stands before a newline is a line, without a carriage return at its end,
/// and what stands behind it are the other lines. What no newline follows is a
/// line as it is, if it is anything at all.
pub proof fn law_newlines_part_the_lines(a: Seq<char>, b: Seq<char>)
    requires
        !a.contains('\n'),
    ensures
        lines_of(a) == (if a.len() == 0 {
            Seq::empty()
        } else {
            seq![a]
        }),
        lines_of(a + seq!['\n'] + b) == seq![
            if a.len() > 0 && a[a.len() - 1] == '\r' {
                a.drop_last()
            } else {
                a
            },
        ] + lines_of(b),
{
    assert forall|k: int| 0 <= k < a.len() implies a[k] != '\n' by {
        assert(a.contains(a[k]));
    }
    let s = a + seq!['\n'] + b;
    let n = a.len() as int;
    assert(is_first_newline(s, n));
    lemma_first_line(s, n);
    assert(s.take(n) =~= a);
    assert(s.skip(n + 1) =~= b);
    assert forall|m: int| !is_first_newline(a, m) by {}
}

/// A list of strings has as many texts, and they are those of the strings.
pub proof fn law_texts_are_those_of_the_strings(v: Seq<String>)
    ensures
        texts(v).len() == v.len(),
        forall|i: int| 0 <= i < v.len() ==> #[trigger] texts(v)[i] == v[i]@,
{
}

/// A search finds a part exactly where the text is that part with something
/// before and behind it, and a comparison at the front where nothing stands before
/// it.
pub proof fn law_what_searches_find(s: &str, part: &str, found: bool, first: bool)
    requires
        call_ensures(contains, (s, part), found),
        call_ensures(starts_with, (s, part), first),
    ensures
        found <==> stands_in(part@, s@),
        first <==> opens_with(s@, part@),
{
    law_what_occurs(part@, s@);
    law_what_a_text_begins_with(s@, part@);
}

/// Trimming hands back what stands between the white space at both ends, and
/// trimming the end what stands before the white space there.
pub proof fn law_what_trimming_hands_back(
    s: &str,
    before: Seq<char>,
    core: Seq<char>,
    behind: Seq<char>,
    inner: &str,
    front: &str,
)
    requires
        s@ == before + core + behind,
        blank(before),
        bare(core),
        core.len() > 0,
        blank(behind),
        call_ensures(trim, (s,), inner),
        call_ensures(trim_end, (s,), front),
    ensures
        inner@ == core,
        front@ == before + core,
{
    law_surrounding_space_goes(before, core, behind);
    assert((before + core).last() == core.last());
    law_trailing_space_goes(before + core, behind);
}

} // verus!
