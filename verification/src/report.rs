//! Reading what the machine replies.
use crate::ascii;
use crate::effect;
use crate::pattern;
use crate::single;
use crate::single::Single;
use crate::text;
use vstd::prelude::*;
use vstd::utf8::*;

verus! {

/// What a status report says, with its numbers as they are written.
#[derive(Debug)]
pub struct StatusReport {
    /// The state of the machine.
    pub state: String,
    /// The first and the third coordinate, where the report gives a position.
    pub position: Option<(String, String)>,
    /// The feed rate and the spindle speed, where the report gives them.
    pub feed_and_spindle: Option<(String, String)>,
}

/// The text of the group `i` of a match, if that group took part.
pub open spec fn group(groups: Seq<Option<Seq<char>>>, i: int) -> Option<Seq<char>> {
    if 0 <= i < groups.len() {
        groups[i]
    } else {
        None
    }
}

/// The state that a match of the expression for the state tells: its first
/// group, or else its second.
pub open spec fn state_of(found: Option<Seq<Option<Seq<char>>>>) -> Seq<char> {
    match found {
        Some(groups) => match group(groups, 1) {
            Some(state) => state,
            None => match group(groups, 2) {
                Some(state) => state,
                None => "Disconnected"@,
            },
        },
        None => "Disconnected"@,
    }
}

/// The two groups of a match of an expression for two numbers.
pub open spec fn pair_of(found: Option<Seq<Option<Seq<char>>>>) -> Option<(Seq<char>, Seq<char>)> {
    match found {
        Some(groups) => Some((groups[1]->0, groups[2]->0)),
        None => None,
    }
}

/// A pair of strings as characters.
pub open spec fn pair_text(pair: Option<(String, String)>) -> Option<(Seq<char>, Seq<char>)> {
    match pair {
        Some((a, b)) => Some((a@, b@)),
        None => None,
    }
}

/// Whether both of two numbers, if they are there, are written in `s`.
pub open spec fn both_written_in(pair: Option<(String, String)>, s: Seq<char>) -> bool {
    pair matches Some((a, b)) ==> {
        &&& a@.len() > 0 && text::occurs(a@, s)
        &&& b@.len() > 0 && text::occurs(b@, s)
    }
}

/// Whether both groups of a match took part.
pub open spec fn both_took_part(found: Option<Vec<Option<String>>>) -> bool {
    found matches Some(groups) ==> groups.len() > 2 && groups[1] is Some && groups[2] is Some
}

/// The text of the group `i`, if there is one.
fn group_at(groups: &Vec<Option<String>>, i: usize) -> (r: Option<String>)
    ensures
        effect::reply_text(r) == group(pattern::group_texts(groups@), i as int),
{
    if i < groups.len() {
        match &groups[i] {
            Some(found) => Some(found.clone()),
            None => None,
        }
    } else {
        None
    }
}

/// The state of the machine, from what the expression for it found.
pub fn state_from(found: &Option<Vec<Option<String>>>) -> (r: String)
    ensures
        r@ == state_of(pattern::match_texts(*found)),
{
    match found {
        Some(groups) => match group_at(groups, 1) {
            Some(state) => state,
            None => match group_at(groups, 2) {
                Some(state) => state,
                None => "Disconnected".to_owned(),
            },
        },
        None => "Disconnected".to_owned(),
    }
}

/// Two numbers as they are written, from what an expression for them found.
pub fn pair_from(found: &Option<Vec<Option<String>>>) -> (r: Option<(String, String)>)
    requires
        both_took_part(*found),
    ensures
        pair_text(r) == pair_of(pattern::match_texts(*found)),
{
    match found {
        Some(groups) => match (&groups[1], &groups[2]) {
            (Some(a), Some(b)) => Some((a.clone(), b.clone())),
            _ => None,
        },
        None => None,
    }
}

/// What a status report says.
pub fn parse_status(status: &str) -> (r: StatusReport)
    ensures
        r.state@ == state_of(pattern::regex_captures(pattern::STATE@, status@)),
        r.state@ == "Disconnected"@ || text::occurs(r.state@, status@),
        r.state@.len() > 0,
        pair_text(r.position) == pair_of(
            pattern::regex_captures(pattern::POSITION@, status@),
        ),
        pair_text(r.feed_and_spindle) == pair_of(
            pattern::regex_captures(pattern::FEED_AND_SPINDLE@, status@),
        ),
        both_written_in(r.position, status@),
        both_written_in(r.feed_and_spindle, status@),
        is_ascii_chars(status@) ==> {
            &&& r.state@ == state_of(ascii::state_match(status@))
            &&& pair_text(r.position) == pair_of(ascii::position_match(status@))
            &&& pair_text(r.feed_and_spindle) == pair_of(ascii::feed_match(status@))
        },
{
    let state = pattern::regex_captures_of(pattern::STATE, status);
    let position = pattern::regex_captures_of(pattern::POSITION, status);
    let feed_and_spindle = pattern::regex_captures_of(pattern::FEED_AND_SPINDLE, status);
    proof {
        reveal_strlit("Disconnected");
        reveal_strlit("<(\\w+)|^\\[?([A-Za-z]+)");
        reveal_strlit("[MW]Pos:([-\\d.]+),[-\\d.]+,([-\\d.]+)");
        reveal_strlit("FS?:([-\\d.]+),([-\\d.]+)");
        assert(pattern::STATE@[0] == '<');
        assert(pattern::POSITION@[0] == '[');
        assert(pattern::FEED_AND_SPINDLE@[0] == 'F');
    }
    StatusReport {
        state: state_from(&state),
        position: pair_from(&position),
        feed_and_spindle: pair_from(&feed_and_spindle),
    }
}

/// Two numbers of a report: both as they were read, or both zero where the
/// report did not give them or one of them could not be read.
pub fn both_or_zero(read: Option<(Option<Single>, Option<Single>)>) -> (r: (Single, Single))
    ensures
        r == match read {
            Some((Some(a), Some(b))) => (a, b),
            _ => (Single { bits: single::ZERO }, Single { bits: single::ZERO }),
        },
{
    match read {
        Some((Some(a), Some(b))) => (a, b),
        _ => (Single { bits: single::ZERO }, Single { bits: single::ZERO }),
    }
}

/// Whether a status report is that of a resting machine.
pub fn is_idle(report: &str) -> (r: bool)
    ensures
        r == text::occurs("<Idle"@, report@),
{
    proof {
        reveal_strlit("<Idle");
    }
    pattern::regex_is_match(pattern::IDLE, report)
}

/// Whether the machine has to be unlocked at the start: it answered with an
/// alarm.
pub fn needs_unlock(reply: &Option<String>) -> (r: bool)
    ensures
        r == (reply matches Some(s) && text::occurs("ALARM"@, s@)),
{
    match reply {
        Some(s) => text::contains(s.as_str(), "ALARM"),
        None => false,
    }
}

/// What stands for the reply to a status query, also when none came.
pub fn reported(reply: Option<String>) -> (r: String)
    ensures
        r@ == match reply {
            Some(s) => s@,
            None => "<Disconnected>"@,
        },
{
    match reply {
        Some(s) => s,
        None => "<Disconnected>".to_owned(),
    }
}

/// Whether `s` is a reading as the machine writes them.
pub open spec fn is_reading(s: Seq<char>) -> bool {
    s.len() > 0 && forall|k: int| 0 <= k < s.len() ==> ascii::reading_character(#[trigger] s[k])
}

/// Whether a reading that stands right before `rest` ends there.
pub open spec fn no_reading(rest: Seq<char>) -> bool {
    rest.len() > 0 ==> !ascii::reading_character(rest[0])
}

/// The state of a report is the word that it opens with.
pub proof fn law_the_state_opens_the_report(word: Seq<char>, rest: Seq<char>)
    requires
        word.len() > 0,
        forall|k: int| 0 <= k < word.len() ==> ascii::word_character(#[trigger] word[k]),
        rest.len() > 0 ==> !ascii::word_character(rest[0]),
    ensures
        state_of(ascii::state_match(seq!['<'] + word + rest)) == word,
{
    let s = seq!['<'] + word + rest;
    let end = 1 + word.len() as int;
    assert(!ascii::letter(s[0]));
    assert forall|k: int| 1 <= k < end implies ascii::word_character(#[trigger] s[k]) by {
        assert(s[k] == word[k - 1]);
    }
    if rest.len() > 0 {
        assert(s[end] == rest[0]);
    }
    ascii::lemma_run(s, 1, end, |c: char| ascii::word_character(c));
    assert(s.subrange(1, end) =~= word);
    assert(ascii::letters_end(s, 0) == 0);
}

/// The position of a report is read from its first and its third coordinate,
/// whatever the second one is.
pub proof fn law_a_position_is_its_first_and_third_coordinate(
    before: Seq<char>,
    kind: char,
    x: Seq<char>,
    y: Seq<char>,
    z: Seq<char>,
    after: Seq<char>,
)
    requires
        kind == 'M' || kind == 'W',
        is_reading(x),
        is_reading(y),
        is_reading(z),
        no_reading(after),
        ({
            let s = before + seq![kind, 'P', 'o', 's', ':'] + x + seq![','] + y + seq![','] + z
                + after;
            forall|i: int| 0 <= i < before.len() ==> !#[trigger] ascii::position_at(s, i)
        }),
    ensures
        ({
            let s = before + seq![kind, 'P', 'o', 's', ':'] + x + seq![','] + y + seq![','] + z
                + after;
            pair_of(ascii::position_match(s)) == Some((x, z))
        }),
{
    let s = before + seq![kind, 'P', 'o', 's', ':'] + x + seq![','] + y + seq![','] + z + after;
    let i = before.len() as int;
    let at_y = i + 5 + x.len() + 1;
    let at_z = at_y + y.len() + 1;
    assert(s.subrange(i + 5, i + 5 + x.len()) =~= x);
    lemma_reading(s, i + 5, x);
    assert(s.subrange(at_y, at_y + y.len()) =~= y);
    lemma_reading(s, at_y, y);
    if after.len() > 0 {
        assert(s[at_z + z.len()] == after[0]);
    }
    assert(s.subrange(at_z, at_z + z.len()) =~= z);
    lemma_reading(s, at_z, z);
    assert(ascii::position_at(s, i));
    lemma_first_position(s, 0, i);
}

/// The feed rate and the spindle speed of a report are read as they stand in it.
pub proof fn law_feed_and_spindle_are_read(
    before: Seq<char>,
    name: Seq<char>,
    feed: Seq<char>,
    spindle: Seq<char>,
    after: Seq<char>,
)
    requires
        name == seq!['F', ':'] || name == seq!['F', 'S', ':'],
        is_reading(feed),
        is_reading(spindle),
        no_reading(after),
        ({
            let s = before + name + feed + seq![','] + spindle + after;
            forall|i: int| 0 <= i < before.len() ==> !#[trigger] ascii::feed_at(s, i)
        }),
    ensures
        pair_of(ascii::feed_match(before + name + feed + seq![','] + spindle + after)) == Some(
            (feed, spindle),
        ),
{
    let s = before + name + feed + seq![','] + spindle + after;
    let i = before.len() as int;
    let at_feed = i + name.len();
    let at_spindle = at_feed + feed.len() + 1;
    assert(s[i] == name[0] && s[i + 1] == name[1] && s[at_feed - 1] == name.last());
    assert(s.subrange(at_feed, at_feed + feed.len()) =~= feed);
    lemma_reading(s, at_feed, feed);
    if after.len() > 0 {
        assert(s[at_spindle + spindle.len()] == after[0]);
    }
    assert(s.subrange(at_spindle, at_spindle + spindle.len()) =~= spindle);
    lemma_reading(s, at_spindle, spindle);
    assert(ascii::feed_at(s, i));
    lemma_first_feed(s, 0, i);
}

/// A reading that stands in a text ends where it ends.
proof fn lemma_reading(s: Seq<char>, i: int, reading: Seq<char>)
    requires
        is_reading(reading),
        0 <= i && i + reading.len() <= s.len(),
        s.subrange(i, i + reading.len()) == reading,
        i + reading.len() < s.len() ==> !ascii::reading_character(s[i + reading.len()]),
    ensures
        ascii::reading_end(s, i) == i + reading.len(),
{
    assert forall|k: int| i <= k < i + reading.len() implies ascii::reading_character(
        #[trigger] s[k],
    ) by {
        assert(reading[k - i] == s[k]);
    }
    ascii::lemma_run(s, i, i + reading.len(), |c: char| ascii::reading_character(c));
}

proof fn lemma_first_position(s: Seq<char>, i: int, n: int)
    requires
        0 <= i <= n < s.len(),
        forall|k: int| i <= k < n ==> !#[trigger] ascii::position_at(s, k),
    ensures
        ascii::position_from(s, i) == ascii::position_from(s, n),
    decreases n - i,
{
    if i < n {
        assert(!ascii::position_at(s, i));
        lemma_first_position(s, i + 1, n);
    }
}

proof fn lemma_first_feed(s: Seq<char>, i: int, n: int)
    requires
        0 <= i <= n < s.len(),
        forall|k: int| i <= k < n ==> !#[trigger] ascii::feed_at(s, k),
    ensures
        ascii::feed_from(s, i) == ascii::feed_from(s, n),
    decreases n - i,
{
    if i < n {
        assert(!ascii::feed_at(s, i));
        lemma_first_feed(s, i + 1, n);
    }
}

/// The state is the first group of a match where it took part, or else the
/// second one; without a match, or where neither took part, the machine is not
/// connected. The two numbers of a match are its two groups, in their order.
pub proof fn law_what_the_groups_tell(
    whole: Option<Seq<char>>,
    first: Option<Seq<char>>,
    second: Option<Seq<char>>,
)
    ensures
        state_of(None) == "Disconnected"@,
        state_of(Some(seq![whole, first, second])) == (match (first, second) {
            (Some(state), _) => state,
            (None, Some(state)) => state,
            (None, None) => "Disconnected"@,
        }),
        pair_of(None) == None::<(Seq<char>, Seq<char>)>,
        first is Some && second is Some ==> pair_of(Some(seq![whole, first, second])) == Some(
            (first->0, second->0),
        ),
{
}

/// The state of a reply that is no report is the letters that it begins with,
/// maybe after a bracket.
pub proof fn law_the_state_of_another_reply(word: Seq<char>, rest: Seq<char>)
    requires
        word.len() > 0,
        forall|k: int|
            0 <= k < word.len() ==> ('A' <= #[trigger] word[k] <= 'Z' || 'a' <= word[k] <= 'z'),
        rest.len() > 0 ==> !('A' <= rest[0] <= 'Z' || 'a' <= rest[0] <= 'z'),
    ensures
        state_of(ascii::state_match(word + rest)) == word,
        state_of(ascii::state_match(seq!['['] + word + rest)) == word,
{
    lemma_leading_letters(word + rest, 0, word, rest);
    lemma_leading_letters(seq!['['] + word + rest, 1, word, rest);
}

proof fn lemma_leading_letters(s: Seq<char>, start: int, word: Seq<char>, rest: Seq<char>)
    requires
        word.len() > 0,
        forall|k: int|
            0 <= k < word.len() ==> ('A' <= #[trigger] word[k] <= 'Z' || 'a' <= word[k] <= 'z'),
        rest.len() > 0 ==> !('A' <= rest[0] <= 'Z' || 'a' <= rest[0] <= 'z'),
        start == 0 && s == word + rest || start == 1 && s == seq!['['] + word + rest,
    ensures
        state_of(ascii::state_match(s)) == word,
{
    let end = start + word.len();
    assert forall|k: int| start <= k < end implies ascii::letter(#[trigger] s[k]) by {
        assert(s[k] == word[k - start]);
    }
    if rest.len() > 0 {
        assert(s[end] == rest[0]);
    }
    ascii::lemma_run(s, start, end, |c: char| ascii::letter(c));
    assert(s.subrange(start, end) =~= word);
    if start == 0 {
        assert(s[0] == word[0]);
    }
}

/// A text that begins with neither a letter nor a bracket, and has no `<`, tells
/// no state: the machine is not connected. One without `Pos:` gives no position,
/// and one without an `F` no feed rate.
pub proof fn law_what_an_empty_report_tells(s: Seq<char>)
    ensures
        !s.contains('<') && (s.len() > 0 ==> s[0] != '[' && !('A' <= s[0] <= 'Z' || 'a' <= s[0]
            <= 'z')) ==> state_of(ascii::state_match(s)) == "Disconnected"@,
        !text::stands_in("Pos:"@, s) ==> pair_of(ascii::position_match(s)) is None,
        !s.contains('F') ==> pair_of(ascii::feed_match(s)) is None,
{
    if !s.contains('<') {
        lemma_no_bracket(s, 0);
    }
    if !text::stands_in("Pos:"@, s) {
        reveal_strlit("Pos:");
        assert forall|i: int| 0 <= i < s.len() implies !#[trigger] ascii::position_at(s, i) by {
            if ascii::position_at(s, i) {
                assert(s =~= s.take(i + 1) + "Pos:"@ + s.skip(i + 5));
            }
        }
        if s.len() > 0 {
            lemma_first_position(s, 0, s.len() - 1);
            assert(!ascii::position_at(s, s.len() - 1));
            assert(ascii::position_from(s, s.len() as int) is None);
        }
    }
    if !s.contains('F') {
        assert forall|i: int| 0 <= i < s.len() implies !#[trigger] ascii::feed_at(s, i) by {
            assert(s.contains(s[i]));
        }
        if s.len() > 0 {
            lemma_first_feed(s, 0, s.len() - 1);
            assert(!ascii::feed_at(s, s.len() - 1));
            assert(ascii::feed_from(s, s.len() as int) is None);
        }
    }
}

proof fn lemma_no_bracket(s: Seq<char>, i: int)
    requires
        !s.contains('<'),
        0 <= i <= s.len(),
    ensures
        ascii::bracket_match(s, i) is None,
    decreases s.len() - i,
{
    if i < s.len() {
        assert(s.contains(s[i]));
        lemma_no_bracket(s, i + 1);
    }
}

/// The machine is unlocked at the start only where it answered, and `ALARM`
/// stands in what it said.
pub proof fn law_an_alarm_calls_for_unlocking(reply: Option<String>, unlock: bool)
    requires
        call_ensures(needs_unlock, (&reply,), unlock),
    ensures
        reply is None ==> !unlock,
        reply matches Some(said) ==> (unlock <==> text::stands_in("ALARM"@, said@)),
{
    if reply is Some {
        text::law_what_occurs("ALARM"@, reply->0@);
    }
}

/// A machine rests where `<Idle` stands in what it said.
pub proof fn law_which_machines_rest(report: &str, resting: bool)
    requires
        call_ensures(is_idle, (report,), resting),
    ensures
        resting <==> text::stands_in("<Idle"@, report@),
{
    text::law_what_occurs("<Idle"@, report@);
}

/// A reply is handed on as it is, and a missing one as that of a machine that is
/// not connected.
pub proof fn law_what_is_reported(reply: Option<String>, shown: String)
    requires
        call_ensures(reported, (reply,), shown),
    ensures
        reply matches Some(said) ==> shown@ == said@,
        reply is None ==> shown@ == "<Disconnected>"@,
{
}

/// Two readings are taken both or not at all: where one of them is missing, both
/// are zero.
pub proof fn law_readings_are_taken_both_or_not_at_all(
    read: Option<(Option<Single>, Option<Single>)>,
    taken: (Single, Single),
)
    requires
        call_ensures(both_or_zero, (read,), taken),
    ensures
        read matches Some((Some(a), Some(b))) ==> taken == (a, b),
        !(read matches Some((Some(a), Some(b)))) ==> taken.0.bits == 0 && taken.1.bits == 0,
{
}

/// The state, the position, and the feed rate and spindle speed are each read with
/// the expression for them.
pub proof fn law_what_a_report_is_read_with(status: &str, r: StatusReport)
    requires
        call_ensures(parse_status, (status,), r),
    ensures
        r.state@ == state_of(pattern::regex_captures("<(\\w+)|^\\[?([A-Za-z]+)"@, status@)),
        pair_text(r.position) == pair_of(
            pattern::regex_captures("[MW]Pos:([-\\d.]+),[-\\d.]+,([-\\d.]+)"@, status@),
        ),
        pair_text(r.feed_and_spindle) == pair_of(
            pattern::regex_captures("FS?:([-\\d.]+),([-\\d.]+)"@, status@),
        ),
        r.position is Some <==> pattern::regex_captures(
            "[MW]Pos:([-\\d.]+),[-\\d.]+,([-\\d.]+)"@,
            status@,
        ) is Some,
        r.feed_and_spindle is Some <==> pattern::regex_captures(
            "FS?:([-\\d.]+),([-\\d.]+)"@,
            status@,
        ) is Some,
{
}

} // verus!
