//! Reading a G-code program.
use crate::text;
use vstd::prelude::*;
use vstd::utf8::*;

verus! {

/// What `str::to_uppercase` makes of a text.
pub uninterp spec fn uppercase(s: Seq<char>) -> Seq<char>;

/// `c` as a capital, where it is one of the letters from a to z.
pub open spec fn ascii_capital(c: char) -> char {
    if 'a' <= c <= 'z' {
        (c as u32 - 32) as char
    } else {
        c
    }
}

/// A text with the letters from a to z as capitals.
pub open spec fn ascii_uppercase(s: Seq<char>) -> Seq<char> {
    s.map_values(|c: char| ascii_capital(c))
}

/// Whether a trimmed line holds code: it is not empty and no comment.
pub open spec fn is_code(line: Seq<char>) -> bool {
    line.len() > 0 && line[0] != ';' && line[0] != '('
}

/// The lines of `s` that hold code, trimmed.
pub open spec fn code_lines(s: Seq<char>) -> Seq<Seq<char>> {
    text::lines_of(s).map_values(|line: Seq<char>| text::trimmed(line)).filter(
        |line: Seq<char>| is_code(line),
    )
}

/// The program that the file content `s` holds: its lines of code, in capitals.
pub open spec fn program(s: Seq<char>) -> Seq<Seq<char>> {
    code_lines(s).map_values(|line: Seq<char>| uppercase(line))
}

/// The program of a content of ASCII characters.
pub open spec fn ascii_program(s: Seq<char>) -> Seq<Seq<char>> {
    code_lines(s).map_values(|line: Seq<char>| ascii_uppercase(line))
}

/// Whether each line of the program of `s` whose code is in ASCII is that code
/// in ASCII capitals.
pub open spec fn known_in_ascii(s: Seq<char>) -> bool {
    forall|i: int|
        #![trigger code_lines(s)[i]]
        0 <= i < code_lines(s).len() && is_ascii_chars(code_lines(s)[i]) ==> program(s)[i]
            == ascii_program(s)[i]
}

/// `str::to_uppercase`: the text in capitals. Which these are for characters
/// beyond ASCII is left to the named result; of ASCII characters the letters
/// from a to z become the letters from A to Z and the others stay.
#[verifier::external_body]
pub(crate) fn to_uppercase(s: &str) -> (r: String)
    ensures
        r@ == uppercase(s@),
        is_ascii_chars(s@) ==> r@ == ascii_uppercase(s@),
{
    s.to_uppercase()
}

/// The lines of `content` that hold code, trimmed.
pub fn lines_of_code(content: &str) -> (r: Vec<String>)
    ensures
        text::texts(r@) == code_lines(content@),
{
    let all = text::lines(content);
    let ghost trim_line = |line: Seq<char>| text::trimmed(line);
    let ghost keep = |line: Seq<char>| is_code(line);
    let ghost trimmed = text::lines_of(content@).map_values(trim_line);
    let mut r: Vec<String> = Vec::new();
    let mut i: usize = 0;
    proof {
        assert(trimmed.take(0) == Seq::<Seq<char>>::empty());
        reveal(Seq::filter);
        assert(text::texts(r@) =~= trimmed.take(0).filter(keep));
    }
    while i < all.len()
        invariant
            i <= all.len(),
            trim_line == |line: Seq<char>| text::trimmed(line),
            keep == |line: Seq<char>| is_code(line),
            text::texts(all@) == text::lines_of(content@),
            trimmed == text::lines_of(content@).map_values(trim_line),
            text::texts(r@) == trimmed.take(i as int).filter(keep),
        decreases all.len() - i,
    {
        let line = text::trim(all[i].as_str());
        proof {
            assert(text::texts(all@)[i as int] == all@[i as int]@);
            assert(trimmed[i as int] == line@);
            assert(trimmed.take(i + 1).drop_last() == trimmed.take(i as int));
            assert(trimmed.take(i + 1).last() == line@);
            reveal(Seq::filter);
        }
        if !line.is_empty() && line.get_char(0) != ';' && line.get_char(0) != '(' {
            let kept = line.to_owned();
            assert(text::texts(r@.push(kept)) =~= text::texts(r@).push(line@));
            r.push(kept);
        }
        i = i + 1;
    }
    assert(trimmed.take(all@.len() as int) == trimmed) by {
        assert(text::texts(all@).len() == all@.len());
    }
    r
}

/// The program that a file's content holds.
pub fn program_lines(content: &str) -> (r: Vec<String>)
    ensures
        text::texts(r@) == program(content@),
        known_in_ascii(content@),
        is_ascii_chars(content@) ==> text::texts(r@) == ascii_program(content@),
{
    let code = lines_of_code(content);
    let ghost lines = code_lines(content@);
    let mut r: Vec<String> = Vec::new();
    let mut i: usize = 0;
    while i < code.len()
        invariant
            i <= code.len(),
            lines == text::texts(code@),
            lines == code_lines(content@),
            r.len() == i,
            forall|k: int| 0 <= k < i ==> (#[trigger] r@[k])@ == uppercase(lines[k]),
            forall|k: int|
                0 <= k < i && is_ascii_chars(lines[k]) ==> (#[trigger] r@[k])@ == ascii_uppercase(
                    lines[k],
                ),
        decreases code.len() - i,
    {
        let line = code[i].as_str();
        assert(lines[i as int] == line@);
        r.push(to_uppercase(line));
        i = i + 1;
    }
    proof {
        assert(text::texts(r@) =~= program(content@));
        assert forall|k: int|
            #![trigger lines[k]]
            0 <= k < lines.len() && is_ascii_chars(lines[k]) implies program(content@)[k]
            == ascii_program(content@)[k] by {
            assert(text::texts(r@)[k] == r@[k]@);
        }
        if is_ascii_chars(content@) {
            lemma_program_in_ascii(content@);
        }
    }
    r
}

/// Whether each character of `part` is one of `s`.
spec fn made_of(part: Seq<char>, s: Seq<char>) -> bool {
    forall|k: int| 0 <= k < part.len() ==> s.contains(#[trigger] part[k])
}

/// The lines of `s` are made of characters of `s`.
proof fn lemma_lines_made_of(s: Seq<char>, i: int)
    requires
        0 <= i < text::lines_of(s).len(),
    ensures
        made_of(text::lines_of(s)[i], s),
    decreases s.len(),
{
    if exists|n: int| text::is_first_newline(s, n) {
        let n = choose|n: int| text::is_first_newline(s, n);
        let rest = s.skip(n + 1);
        if i == 0 {
            let line = text::lines_of(s)[0];
            assert forall|k: int| 0 <= k < line.len() implies s.contains(#[trigger] line[k]) by {
                assert(line[k] == s[k]);
            }
        } else {
            lemma_lines_made_of(rest, i - 1);
            let line = text::lines_of(s)[i];
            assert(line == text::lines_of(rest)[i - 1]);
            assert forall|k: int| 0 <= k < line.len() implies s.contains(#[trigger] line[k]) by {
                assert(rest.contains(line[k]));
                let m = choose|m: int| 0 <= m < rest.len() && rest[m] == line[k];
                assert(s[n + 1 + m] == line[k]);
            }
        }
    }
}

/// A line of code is clean, and in ASCII where the content is.
proof fn lemma_code_line(s: Seq<char>, i: int)
    requires
        0 <= i < code_lines(s).len(),
    ensures
        is_clean(code_lines(s)[i]),
        is_ascii_chars(s) ==> is_ascii_chars(code_lines(s)[i]),
{
    let all = text::lines_of(s);
    let trimmed = all.map_values(|line: Seq<char>| text::trimmed(line));
    let keep = |line: Seq<char>| is_code(line);
    let line = code_lines(s)[i];
    trimmed.lemma_filter_pred(keep, i);
    let j = lemma_filter_source(trimmed, keep, i);
    assert(line == text::trimmed(all[j]));
    text::law_trimming_is_idempotent(all[j]);
    text::law_trimmed_is_the_core(all[j]);
    text::law_lines_hold_no_newline(s, j);
    lemma_lines_made_of(s, j);
    let (a, b) = choose|a: int, b: int|
        {
            &&& 0 <= a <= b <= all[j].len()
            &&& #[trigger] all[j].subrange(a, b) == text::trimmed(all[j])
        };
    assert forall|k: int| 0 <= k < line.len() implies #[trigger] line[k] != '\n' && s.contains(
        line[k],
    ) by {
        assert(line[k] == all[j][a + k]);
        assert(all[j].contains(line[k]));
    }
    if is_ascii_chars(s) {
        assert forall|k: int| 0 <= k < line.len() implies '\0' <= #[trigger] line[k]
            <= '\u{7f}' by {
            assert(s.contains(line[k]));
            let m = choose|m: int| 0 <= m < s.len() && s[m] == line[k];
            assert('\0' <= s[m] <= '\u{7f}');
        }
    }
}

/// The program of a content in ASCII is in ASCII capitals.
pub proof fn lemma_program_in_ascii(s: Seq<char>)
    requires
        is_ascii_chars(s),
        known_in_ascii(s),
    ensures
        program(s) == ascii_program(s),
{
    assert forall|i: int| 0 <= i < code_lines(s).len() implies #[trigger] program(s)[i]
        == ascii_program(s)[i] by {
        lemma_code_line(s, i);
        assert(is_ascii_chars(code_lines(s)[i]));
    }
    assert(program(s) =~= ascii_program(s));
}

/// What a filter keeps stood in the sequence.
proof fn lemma_filter_source<A>(s: Seq<A>, keep: spec_fn(A) -> bool, i: int) -> (j: int)
    requires
        0 <= i < s.filter(keep).len(),
    ensures
        0 <= j < s.len(),
        s[j] == s.filter(keep)[i],
    decreases s.len(),
{
    reveal(Seq::filter);
    let front = s.drop_last();
    if i < front.filter(keep).len() {
        let j = lemma_filter_source(front, keep, i);
        assert(front[j] == s[j]);
        j
    } else {
        s.len() - 1
    }
}

/// Whether `line` is a clean line of code: not empty, no comment, without white
/// space around it and without a newline.
pub open spec fn is_clean(line: Seq<char>) -> bool {
    is_code(line) && text::trimmed(line) == line && !line.contains('\n')
}

/// Whether the capitals of each line of code of `s` are a clean line of code
/// too, and stay as they are where capitals are made of them once more.
pub open spec fn capitals_are_clean(s: Seq<char>) -> bool {
    forall|i: int|
        #![trigger code_lines(s)[i]]
        0 <= i < code_lines(s).len() ==> {
            &&& is_clean(uppercase(code_lines(s)[i]))
            &&& uppercase(uppercase(code_lines(s)[i])) == uppercase(code_lines(s)[i])
        }
}

/// Whether `line` holds one of the letters from a to z.
pub open spec fn has_small_letter(line: Seq<char>) -> bool {
    exists|k: int| 0 <= k < line.len() && 'a' <= #[trigger] line[k] <= 'z'
}

/// Each line of code, whatever the content is, is code indeed: not empty, no
/// comment, without white space around it and without a newline.
pub proof fn law_lines_of_code_are_clean(s: Seq<char>, i: int)
    requires
        0 <= i < code_lines(s).len(),
    ensures
        is_clean(code_lines(s)[i]),
{
    lemma_code_line(s, i);
}

/// Each line of a program, whatever the content is, is code and in capitals,
/// where the capitals of its lines of code are.
pub proof fn law_lines_in_capitals_are_clean(s: Seq<char>, i: int)
    requires
        capitals_are_clean(s),
        0 <= i < program(s).len(),
    ensures
        is_clean(program(s)[i]),
        uppercase(program(s)[i]) == program(s)[i],
{
    let code = code_lines(s)[i];
    assert(program(s)[i] == uppercase(code));
}

/// Each line of a program in ASCII capitals is code: not empty, no comment,
/// without white space around it, without a newline and without small letters,
/// so that making capitals of it once more leaves it as it is.
pub proof fn law_program_lines_are_clean(s: Seq<char>, i: int)
    requires
        0 <= i < ascii_program(s).len(),
    ensures
        is_clean(ascii_program(s)[i]),
        !has_small_letter(ascii_program(s)[i]),
        ascii_uppercase(ascii_program(s)[i]) == ascii_program(s)[i],
        is_ascii_chars(s) ==> is_ascii_chars(ascii_program(s)[i]),
{
    let code = code_lines(s)[i];
    let line = ascii_program(s)[i];
    lemma_code_line(s, i);
    assert(line == ascii_uppercase(code));
    assert(!text::white_space(code.first()) && !text::white_space(code.last())) by {
        text::law_trimmed_is_the_core(code);
    }
    lemma_capital(code.first());
    lemma_capital(code.last());
    assert(line.first() == ascii_capital(code.first()));
    assert(line.last() == ascii_capital(code.last()));
    assert forall|k: int| 0 <= k < line.len() implies {
        &&& #[trigger] line[k] != '\n'
        &&& !('a' <= line[k] <= 'z')
        &&& code[k] <= '\u{7f}' ==> line[k] <= '\u{7f}'
    } by {
        assert(line[k] == ascii_capital(code[k]));
        lemma_capital(code[k]);
        assert(code.contains(code[k]));
    }
    assert(ascii_uppercase(line) =~= line);
}

/// A program that is written out line by line and read again is the same
/// program: what is read of lines of code with newlines between them are these
/// lines, and, in capitals that are clean or in ASCII capitals, the program.
pub proof fn law_a_program_reads_back(s: Seq<char>)
    ensures
        capitals_are_clean(s) ==> program(text::with_newlines(program(s))) == program(s),
        code_lines(text::with_newlines(code_lines(s))) == code_lines(s),
        ascii_program(text::with_newlines(ascii_program(s))) == ascii_program(s),
        is_ascii_chars(s) ==> is_ascii_chars(text::with_newlines(ascii_program(s))),
{
    let code = code_lines(s);
    assert forall|i: int| 0 <= i < code.len() implies is_clean(#[trigger] code[i]) by {
        lemma_code_line(s, i);
    }
    lemma_clean_lines_come_back(code);
    if capitals_are_clean(s) {
        let capitals = program(s);
        assert forall|i: int| 0 <= i < capitals.len() implies is_clean(#[trigger] capitals[i])
            && uppercase(capitals[i]) == capitals[i] by {
            law_lines_in_capitals_are_clean(s, i);
        }
        lemma_clean_lines_come_back(capitals);
        assert(program(text::with_newlines(capitals)) =~= capitals);
    }
    let capitals = ascii_program(s);
    assert forall|i: int| 0 <= i < capitals.len() implies is_clean(#[trigger] capitals[i])
        && ascii_uppercase(capitals[i]) == capitals[i] && (is_ascii_chars(s) ==> is_ascii_chars(
        capitals[i],
    )) by {
        law_program_lines_are_clean(s, i);
    }
    lemma_clean_lines_come_back(capitals);
    assert(ascii_program(text::with_newlines(capitals)) =~= capitals);
    if is_ascii_chars(s) {
        lemma_ascii_lines(capitals);
    }
}

/// Each line is read on its own: of two contents, one after the other with a
/// newline between them, the lines of the first are read and then those of the
/// second.
pub proof fn law_each_line_is_read_on_its_own(a: Seq<char>, b: Seq<char>)
    ensures
        code_lines(a + seq!['\n'] + b) == code_lines(a) + code_lines(b),
        program(a + seq!['\n'] + b) == program(a) + program(b),
        ascii_program(a + seq!['\n'] + b) == ascii_program(a) + ascii_program(b),
{
    lemma_code_of_both(a, b);
    assert(program(a + seq!['\n'] + b) =~= program(a) + program(b));
    assert(ascii_program(a + seq!['\n'] + b) =~= ascii_program(a) + ascii_program(b));
}

proof fn lemma_code_of_both(a: Seq<char>, b: Seq<char>)
    ensures
        code_lines(a + seq!['\n'] + b) == code_lines(a) + code_lines(b),
    decreases a.len(),
{
    let s = a + seq!['\n'] + b;
    if exists|n: int| text::is_first_newline(a, n) {
        let n = choose|n: int| text::is_first_newline(a, n);
        let rest = a.skip(n + 1);
        assert(text::is_first_newline(s, n));
        lemma_code_of_first_line(a, n);
        lemma_code_of_first_line(s, n);
        assert(s.take(n) =~= a.take(n));
        assert(s.skip(n + 1) =~= rest + seq!['\n'] + b);
        lemma_code_of_both(rest, b);
        assert(code_lines(s) =~= code_lines(a) + code_lines(b));
    } else {
        let n = a.len() as int;
        assert forall|k: int| 0 <= k < n implies s[k] != '\n' by {
            if a[k] == '\n' {
                text::lemma_first_newline(a, k);
            }
        }
        assert(text::is_first_newline(s, n));
        lemma_code_of_first_line(s, n);
        assert(s.take(n) =~= a);
        assert(s.skip(n + 1) =~= b);
        assert(code_lines(a) =~= code_of_line(a)) by {
            lemma_code_of_one(a);
            reveal(Seq::filter);
        }
    }
}

/// The code of a single line: the line, trimmed, if it holds code.
spec fn code_of_line(line: Seq<char>) -> Seq<Seq<char>> {
    if is_code(text::trimmed(line)) {
        seq![text::trimmed(line)]
    } else {
        Seq::empty()
    }
}

proof fn lemma_code_of_one(line: Seq<char>)
    ensures
        seq![line].map_values(|line: Seq<char>| text::trimmed(line)).filter(
            |line: Seq<char>| is_code(line),
        ) == code_of_line(line),
{
    reveal(Seq::filter);
    let trimmed = seq![line].map_values(|line: Seq<char>| text::trimmed(line));
    assert(trimmed.drop_last() =~= Seq::empty());
    assert(trimmed.drop_last().filter(|line: Seq<char>| is_code(line)) =~= Seq::empty());
    assert(trimmed.filter(|line: Seq<char>| is_code(line)) =~= code_of_line(line));
}

/// The code of a text is that of its first line and that of the rest.
proof fn lemma_code_of_first_line(s: Seq<char>, n: int)
    requires
        text::is_first_newline(s, n),
    ensures
        code_lines(s) == code_of_line(s.take(n)) + code_lines(s.skip(n + 1)),
{
    let trim = |line: Seq<char>| text::trimmed(line);
    let keep = |line: Seq<char>| is_code(line);
    let first = text::without_carriage_return(s.take(n));
    let rest = text::lines_of(s.skip(n + 1));
    text::lemma_first_line(s, n);
    text::lemma_trimmed_without_carriage_return(s.take(n));
    assert((seq![first] + rest).map_values(trim) =~= seq![first].map_values(trim)
        + rest.map_values(trim));
    Seq::filter_distributes_over_add(seq![first].map_values(trim), rest.map_values(trim), keep);
    lemma_code_of_one(first);
}

/// The capitals of a content in ASCII are clean, as far as they are known of it
/// and of the program that it holds.
pub proof fn law_ascii_capitals_are_clean(s: Seq<char>)
    requires
        is_ascii_chars(s),
        known_in_ascii(s),
        known_in_ascii(text::with_newlines(program(s))),
    ensures
        capitals_are_clean(s),
{
    let again = text::with_newlines(program(s));
    lemma_program_in_ascii(s);
    law_a_program_reads_back(s);
    lemma_program_in_ascii(again);
    let capitals = ascii_program(s);
    assert forall|i: int| 0 <= i < capitals.len() implies is_clean(#[trigger] capitals[i]) by {
        law_program_lines_are_clean(s, i);
    }
    lemma_clean_lines_come_back(capitals);
    assert forall|i: int| #![trigger code_lines(s)[i]] 0 <= i < code_lines(s).len() implies {
        &&& is_clean(uppercase(code_lines(s)[i]))
        &&& uppercase(uppercase(code_lines(s)[i])) == uppercase(code_lines(s)[i])
    } by {
        assert(program(s)[i] == uppercase(code_lines(s)[i]));
        assert(is_clean(capitals[i]));
        assert(program(again)[i] == uppercase(code_lines(again)[i]));
    }
}

proof fn lemma_clean_lines_come_back(lines: Seq<Seq<char>>)
    requires
        forall|i: int| 0 <= i < lines.len() ==> is_clean(#[trigger] lines[i]),
    ensures
        code_lines(text::with_newlines(lines)) == lines,
{
    assert forall|i: int| #![trigger lines[i]] 0 <= i < lines.len() implies lines[i].len() > 0
        && !lines[i].contains('\n') && lines[i].last() != '\r' by {
        assert(is_clean(lines[i]));
        text::law_trimmed_is_the_core(lines[i]);
    }
    text::lemma_lines_come_apart(lines);
    assert(lines.map_values(|line: Seq<char>| text::trimmed(line)) =~= lines) by {
        assert forall|i: int| 0 <= i < lines.len() implies text::trimmed(#[trigger] lines[i])
            == lines[i] by {
            assert(is_clean(lines[i]));
        }
    }
    lemma_filter_keeps_all(lines, |line: Seq<char>| is_code(line));
}

/// A filter that each item passes keeps the sequence.
proof fn lemma_filter_keeps_all<A>(s: Seq<A>, keep: spec_fn(A) -> bool)
    requires
        forall|i: int| 0 <= i < s.len() ==> keep(#[trigger] s[i]),
    ensures
        s.filter(keep) == s,
    decreases s.len(),
{
    reveal(Seq::filter);
    if s.len() > 0 {
        let front = s.drop_last();
        assert forall|i: int| 0 <= i < front.len() implies keep(#[trigger] front[i]) by {
            assert(front[i] == s[i]);
        }
        lemma_filter_keeps_all(front, keep);
        assert(keep(s[s.len() - 1]));
        assert(s =~= front.push(s.last()));
    }
}

/// ASCII lines with newlines between them are ASCII.
proof fn lemma_ascii_lines(lines: Seq<Seq<char>>)
    requires
        forall|i: int| 0 <= i < lines.len() ==> is_ascii_chars(#[trigger] lines[i]),
    ensures
        is_ascii_chars(text::with_newlines(lines)),
    decreases lines.len(),
{
    if lines.len() > 0 {
        assert(is_ascii_chars(lines[0]));
        let rest = lines.drop_first();
        assert forall|i: int| 0 <= i < rest.len() implies is_ascii_chars(#[trigger] rest[i]) by {
            assert(rest[i] == lines[i + 1]);
        }
        lemma_ascii_lines(rest);
    }
}

/// Making capitals leaves everything but the small letters alone.
proof fn lemma_capital(c: char)
    ensures
        !('a' <= ascii_capital(c) <= 'z'),
        text::white_space(ascii_capital(c)) == text::white_space(c),
        c <= '\u{7f}' ==> ascii_capital(c) <= '\u{7f}',
        ascii_capital(c) == ';' <==> c == ';',
        ascii_capital(c) == '(' <==> c == '(',
{
    if 'a' <= c <= 'z' {
        let n = c as u32 - 32;
        assert(65 <= n <= 90);
        assert(n as char as u32 == n);
    }
}

/// A line is read as it stands without the white space around it, in capitals,
/// unless nothing is left of it or it begins with a semicolon or an opening
/// bracket: then nothing is read of it.
pub proof fn law_what_is_read_of_a_line(before: Seq<char>, core: Seq<char>, behind: Seq<char>)
    requires
        !(before + core + behind).contains('\n'),
        text::blank(before),
        text::bare(core),
        text::blank(behind),
    ensures
        core.len() > 0 && core[0] != ';' && core[0] != '(' ==> {
            &&& code_lines(before + core + behind) == seq![core]
            &&& program(before + core + behind) == seq![uppercase(core)]
            &&& ascii_program(before + core + behind) == seq![ascii_uppercase(core)]
        },
        core.len() == 0 || core[0] == ';' || core[0] == '(' ==> {
            &&& code_lines(before + core + behind) == Seq::<Seq<char>>::empty()
            &&& program(before + core + behind) == Seq::<Seq<char>>::empty()
            &&& ascii_program(before + core + behind) == Seq::<Seq<char>>::empty()
        },
{
    let s = before + core + behind;
    text::law_surrounding_space_goes(before, core, behind);
    text::law_newlines_part_the_lines(s, Seq::empty());
    lemma_code_of_one(s);
    if s.len() == 0 {
        assert(core.len() == 0);
        reveal(Seq::filter);
    }
    assert(code_lines(s) =~= code_of_line(s));
    assert(program(s) =~= code_of_line(s).map_values(|line: Seq<char>| uppercase(line)));
    if is_code(core) {
        assert(program(s) =~= seq![uppercase(core)]);
        assert(ascii_program(s) =~= seq![ascii_uppercase(core)]);
    } else {
        assert(program(s) =~= Seq::empty());
        assert(ascii_program(s) =~= Seq::empty());
    }
}

/// The ASCII capitals of a text are as many characters: a capital for each letter
/// from a to z, in the order of the alphabet, and each other one as it is.
pub proof fn law_ascii_capitals(s: Seq<char>, k: int)
    requires
        0 <= k < s.len(),
    ensures
        ascii_uppercase(s).len() == s.len(),
        'a' <= s[k] <= 'z' ==> 'A' <= ascii_uppercase(s)[k] <= 'Z' && ascii_uppercase(s)[k] as int
            - 'A' as int == s[k] as int - 'a' as int,
        !('a' <= s[k] <= 'z') ==> ascii_uppercase(s)[k] == s[k],
{
    if 'a' <= s[k] <= 'z' {
        let n = s[k] as u32 - 32;
        assert(65 <= n <= 90);
        assert(n as char as u32 == n);
    }
}

/// What is read of a file that is one file, a newline and another one, is what is
/// read of the one and then what is read of the other.
pub proof fn law_files_are_read_line_by_line(
    a: &str,
    b: &str,
    both: &str,
    of_a: Vec<String>,
    of_b: Vec<String>,
    of_both: Vec<String>,
)
    requires
        call_ensures(program_lines, (a,), of_a),
        call_ensures(program_lines, (b,), of_b),
        call_ensures(program_lines, (both,), of_both),
        both@ == a@ + seq!['\n'] + b@,
    ensures
        text::texts(of_both@) == text::texts(of_a@) + text::texts(of_b@),
{
    law_each_line_is_read_on_its_own(a@, b@);
}

/// What is read of a file of one line is that line, in capitals and without the
/// white space around it, unless nothing is left of it or it is a comment.
pub proof fn law_a_line_is_read_or_left_out(
    content: &str,
    before: Seq<char>,
    core: Seq<char>,
    behind: Seq<char>,
    code: Vec<String>,
    lines: Vec<String>,
)
    requires
        call_ensures(lines_of_code, (content,), code),
        call_ensures(program_lines, (content,), lines),
        content@ == before + core + behind,
        !content@.contains('\n'),
        text::blank(before),
        text::bare(core),
        text::blank(behind),
    ensures
        core.len() > 0 && core[0] != ';' && core[0] != '(' ==> {
            &&& code@.len() == 1 && code@[0]@ == core
            &&& lines@.len() == 1 && lines@[0]@ == uppercase(core)
        },
        core.len() == 0 || core[0] == ';' || core[0] == '(' ==> code@.len() == 0 && lines@.len()
            == 0,
{
    law_what_is_read_of_a_line(before, core, behind);
    assert(text::texts(code@).len() == code@.len());
    assert(text::texts(lines@).len() == lines@.len());
    if core.len() > 0 && core[0] != ';' && core[0] != '(' {
        assert(text::texts(code@)[0] == code@[0]@);
        assert(text::texts(lines@)[0] == lines@[0]@);
    }
}

} // verus!
