//! Where the machine is: a network address or a serial port.
use crate::text;
use vstd::prelude::*;

verus! {

/// The baud rate of a serial port for which none is given.
pub const DEFAULT_BAUD: u32 = 115200;

/// Where the machine is.
#[derive(Debug)]
pub enum Target {
    /// At a network address.
    Tcp(String),
    /// At a serial port.
    Serial { path: String, baud: u32 },
}

/// A target with its text as characters.
pub enum TargetView {
    Tcp(Seq<char>),
    Serial { path: Seq<char>, baud: u32 },
}

impl View for Target {
    type V = TargetView;

    open spec fn view(&self) -> TargetView {
        match self {
            Target::Tcp(address) => TargetView::Tcp(address@),
            Target::Serial { path, baud } => TargetView::Serial { path: path@, baud: *baud },
        }
    }
}

/// Whether `s` is a network address: it has a scheme, or something behind its
/// last colon.
pub open spec fn is_address(s: Seq<char>) -> bool {
    text::occurs("://"@, s) || (s.contains(':') && s.last() != ':')
}

/// Whether `s` is written with digits alone, and with one at least.
pub open spec fn all_digits(s: Seq<char>) -> bool {
    s.len() > 0 && forall|i: int| 0 <= i < s.len() ==> '0' <= #[trigger] s[i] <= '9'
}

/// The number that the digits of `s` write.
pub open spec fn decimal(s: Seq<char>) -> nat
    decreases s.len(),
{
    if s.len() == 0 {
        0
    } else {
        10 * decimal(s.drop_last()) + (s.last() as nat - '0' as nat) as nat
    }
}

/// `s` without a plus sign in front.
pub open spec fn without_plus(s: Seq<char>) -> Seq<char> {
    if s.len() > 0 && s[0] == '+' {
        s.drop_first()
    } else {
        s
    }
}

/// The 32-bit number that `s` writes: digits, with or without a plus sign.
pub open spec fn number_of(s: Seq<char>) -> Option<u32> {
    let digits = without_plus(s);
    if all_digits(digits) && decimal(digits) <= u32::MAX {
        Some(decimal(digits) as u32)
    } else {
        None
    }
}

/// Whether `i` is the position of the last colon of `s`.
pub open spec fn is_last_colon(s: Seq<char>, i: int) -> bool {
    &&& 0 <= i < s.len()
    &&& s[i] == ':'
    &&& forall|k: int| i < k < s.len() ==> s[k] != ':'
}

/// The path and the baud rate of a serial port: what stands before and behind
/// the last colon, where a number stands behind it, or else the whole and the
/// default rate.
pub open spec fn port_of(s: Seq<char>) -> (Seq<char>, u32) {
    if exists|i: int| is_last_colon(s, i) {
        let i = choose|i: int| is_last_colon(s, i);
        match number_of(s.skip(i + 1)) {
            Some(baud) => (s.take(i), baud),
            None => (s, DEFAULT_BAUD),
        }
    } else {
        (s, DEFAULT_BAUD)
    }
}

/// The target that `s` names.
pub open spec fn target_of(s: Seq<char>) -> TargetView {
    if is_address(s) {
        TargetView::Tcp(s)
    } else {
        TargetView::Serial { path: port_of(s).0, baud: port_of(s).1 }
    }
}

/// The position of the last colon, if there is one.
fn last_colon(chars: &Vec<char>) -> (r: Option<usize>)
    ensures
        match r {
            Some(i) => is_last_colon(chars@, i as int),
            None => !chars@.contains(':'),
        },
{
    let mut i: usize = chars.len();
    while i > 0
        invariant
            i <= chars.len(),
            forall|k: int| i <= k < chars.len() ==> chars@[k] != ':',
        decreases i,
    {
        i = i - 1;
        if chars[i] == ':' {
            return Some(i);
        }
    }
    None
}

/// The 32-bit number that `s` writes, if it writes one.
pub fn parse_number(s: &str) -> (r: Option<u32>)
    ensures
        r == number_of(s@),
{
    let chars = text::chars_of(s);
    let first: usize = if chars.len() > 0 && chars[0] == '+' {
        1
    } else {
        0
    };
    let ghost digits = without_plus(s@);
    assert(digits == chars@.skip(first as int));
    if first == chars.len() {
        return None;
    }
    let mut value: u32 = 0;
    let mut i: usize = first;
    assert(digits.take(0) =~= Seq::empty());
    while i < chars.len()
        invariant
            first <= i <= chars.len(),
            digits == chars@.skip(first as int),
            digits == without_plus(s@),
            digits.len() > 0,
            forall|k: int| 0 <= k < i - first ==> '0' <= #[trigger] digits[k] <= '9',
            value == decimal(digits.take(i - first)),
        decreases chars.len() - i,
    {
        let c = chars[i];
        assert(digits[i - first] == c);
        if c < '0' || c > '9' {
            return None;
        }
        let digit: u32 = c as u32 - '0' as u32;
        let wide: u64 = value as u64 * 10 + digit as u64;
        proof {
            let n = i - first;
            assert(digits.take(n + 1).drop_last() == digits.take(n));
            assert(digits.take(n + 1).last() == c);
            assert(wide == decimal(digits.take(n + 1)));
        }
        if wide > u32::MAX as u64 {
            proof {
                lemma_decimal_grows(digits, i - first + 1);
            }
            return None;
        }
        value = wide as u32;
        i = i + 1;
    }
    assert(digits.take(digits.len() as int) == digits);
    Some(value)
}

/// A number is not less than what its first digits write.
proof fn lemma_decimal_grows(s: Seq<char>, n: int)
    requires
        0 <= n <= s.len(),
    ensures
        decimal(s.take(n)) <= decimal(s),
    decreases s.len() - n,
{
    if n < s.len() {
        lemma_decimal_grows(s, n + 1);
        assert(s.take(n + 1).drop_last() == s.take(n));
    } else {
        assert(s.take(n) == s);
    }
}

/// The path and the baud rate of the serial port that `s` names.
pub fn parse_port(s: &str) -> (r: (String, u32))
    ensures
        (r.0@, r.1) == port_of(s@),
{
    let chars = text::chars_of(s);
    match last_colon(&chars) {
        Some(i) => {
            proof {
                assert(is_last_colon(s@, i as int));
                let k = choose|k: int| is_last_colon(s@, k);
                assert(k == i);
                assert(s@.subrange(i + 1, s@.len() as int) == s@.skip(i + 1));
                assert(s@.subrange(0, i as int) == s@.take(i as int));
            }
            match parse_number(s.substring_char(i + 1, chars.len())) {
                Some(baud) => (s.substring_char(0, i).to_owned(), baud),
                None => (s.to_owned(), DEFAULT_BAUD),
            }
        },
        None => {
            assert forall|k: int| !is_last_colon(s@, k) by {
                if is_last_colon(s@, k) {
                    assert(s@.contains(s@[k]));
                }
            }
            (s.to_owned(), DEFAULT_BAUD)
        },
    }
}

/// The target that `s` names.
pub fn parse_target(s: &str) -> (r: Target)
    ensures
        r@ == target_of(s@),
{
    let chars = text::chars_of(s);
    let address = text::contains(s, "://") || match last_colon(&chars) {
        Some(i) => {
            assert(s@.contains(s@[i as int]));
            i < chars.len() - 1
        },
        None => false,
    };
    if address {
        Target::Tcp(s.to_owned())
    } else {
        let (path, baud) = parse_port(s);
        Target::Serial { path, baud }
    }
}

/// A serial port always has the whole text as its path and the default baud
/// rate: a text with anything behind its last colon is a network address.
pub proof fn law_a_port_has_the_default_baud_rate(s: Seq<char>)
    requires
        target_of(s) is Serial,
    ensures
        target_of(s) == (TargetView::Serial { path: s, baud: DEFAULT_BAUD }),
{
    if exists|i: int| is_last_colon(s, i) {
        let i = choose|i: int| is_last_colon(s, i);
        assert(s.contains(s[i]));
        assert(s.last() == ':');
        assert(i == s.len() - 1);
        assert(s.skip(i + 1).len() == 0);
    }
}

/// A network address is used as it is written.
pub proof fn law_an_address_is_kept(s: Seq<char>)
    requires
        target_of(s) is Tcp,
    ensures
        target_of(s) == TargetView::Tcp(s),
        s.contains(':'),
{
    if text::occurs("://"@, s) {
        reveal_strlit("://");
        let i = choose|i: int|
            0 <= i <= s.len() - "://"@.len() && #[trigger] s.subrange(i, i + "://"@.len())
                == "://"@;
        assert(s.subrange(i, i + 3)[0] == ':');
        assert(s[i] == ':');
    }
}

/// A text names a network address where it holds `://`, or a colon that is not
/// its last character; or else a serial port with the whole text as its path, at
/// 115200 baud.
pub proof fn law_what_a_text_names(s: Seq<char>)
    ensures
        text::stands_in("://"@, s) ==> target_of(s) == TargetView::Tcp(s),
        s.contains(':') && s[s.len() - 1] != ':' ==> target_of(s) == TargetView::Tcp(s),
        !text::stands_in("://"@, s) && (s.contains(':') ==> s[s.len() - 1] == ':') ==> target_of(s)
            == (TargetView::Serial { path: s, baud: 115200 }),
{
    text::law_what_occurs("://"@, s);
    if target_of(s) is Serial {
        law_a_port_has_the_default_baud_rate(s);
    }
}

/// A port with a number behind its last colon has that baud rate; without one it
/// is the whole text, at 115200 baud.
pub proof fn law_a_port_and_its_rate(path: Seq<char>, rate: Seq<char>)
    requires
        !rate.contains(':'),
    ensures
        port_of(path + seq![':'] + rate) == (match number_of(rate) {
            Some(baud) => (path, baud),
            None => (path + seq![':'] + rate, 115200),
        }),
        port_of(rate) == (rate, 115200u32),
{
    let s = path + seq![':'] + rate;
    let n = path.len() as int;
    assert(is_last_colon(s, n)) by {
        assert forall|k: int| n < k < s.len() implies s[k] != ':' by {
            assert(rate.contains(rate[k - n - 1]));
        }
    }
    let i = choose|i: int| is_last_colon(s, i);
    assert(i == n) by {
        if i < n {
            assert(s[n] != ':');
        }
    }
    assert(s.skip(n + 1) =~= rate);
    assert(s.take(n) =~= path);
    assert forall|k: int| !is_last_colon(rate, k) by {
        if is_last_colon(rate, k) {
            assert(rate.contains(rate[k]));
        }
    }
}

/// A number is written with digits, with or without a plus sign in front: one
/// more digit makes it ten times as large, and that digit more. Nothing else
/// writes a number, nor does what is more than 32 bits hold.
pub proof fn law_what_digits_write(s: Seq<char>, d: char)
    ensures
        '0' <= d <= '9' ==> number_of(seq![d]) == Some((d as int - '0' as int) as u32),
        s.len() > 0 && s[0] != '+' && '0' <= d <= '9' ==> number_of(s.push(d)) == (match number_of(s) {
            Some(n) => if 10 * n + (d as int - '0' as int) <= 0xffff_ffff {
                Some((10 * n + (d as int - '0' as int)) as u32)
            } else {
                None
            },
            None => None,
        }),
        s.len() > 0 && s[0] != '+' ==> number_of(seq!['+'] + s) == number_of(s),
        s.contains(d) && !('0' <= d <= '9') && d != '+' ==> number_of(s) is None,
        s.len() > 0 && s.skip(1).contains('+') ==> number_of(s) is None,
        s.len() == 0 || s == seq!['+'] ==> number_of(s) is None,
{
    if '0' <= d <= '9' {
        let one = seq![d];
        assert(one.drop_last() =~= Seq::empty());
        assert(decimal(one.drop_last()) == 0);
        assert(one[0] == d);
        assert(decimal(one) == d as nat - '0' as nat);
        assert(without_plus(one) == one);
        assert(all_digits(one));
        if s.len() > 0 && s[0] != '+' {
            let t = s.push(d);
            assert(t.drop_last() =~= s);
            assert(t[0] == s[0]);
            if all_digits(s) {
                assert forall|i: int| 0 <= i < t.len() implies '0' <= #[trigger] t[i] <= '9' by {
                    if i < s.len() {
                        assert(t[i] == s[i]);
                    }
                }
            } else {
                let i = choose|i: int| 0 <= i < s.len() && !('0' <= #[trigger] s[i] <= '9');
                assert(t[i] == s[i]);
            }
        }
    }
    if s.len() > 0 && s[0] != '+' {
        assert((seq!['+'] + s).drop_first() =~= s);
    }
    if s.contains(d) && !('0' <= d <= '9') && d != '+' {
        let k = choose|k: int| 0 <= k < s.len() && s[k] == d;
        if s[0] == '+' {
            assert(s.drop_first()[k - 1] == d);
        } else {
            assert(without_plus(s)[k] == d);
        }
    }
    if s.len() > 0 && s.skip(1).contains('+') {
        let k = choose|k: int| 0 <= k < s.skip(1).len() && s.skip(1)[k] == '+';
        assert(s[k + 1] == '+');
        if s[0] == '+' {
            assert(s.drop_first()[k] == '+');
        } else {
            assert(without_plus(s)[k + 1] == '+');
        }
    }
    if s == seq!['+'] {
        assert(s.drop_first().len() == 0);
    }
}

/// Where a text is taken to point: to a network address where it holds `://`, or
/// a colon that is not its last character; or else to the serial port of that
/// name, at 115200 baud.
pub proof fn law_where_a_text_points(s: &str, target: Target)
    requires
        call_ensures(parse_target, (s,), target),
    ensures
        text::stands_in("://"@, s@) || (s@.contains(':') && s@[s@.len() - 1] != ':') ==> (
        target matches Target::Tcp(address) && address@ == s@),
        !(text::stands_in("://"@, s@) || (s@.contains(':') && s@[s@.len() - 1] != ':')) ==> (
        target matches Target::Serial { path, baud } && path@ == s@ && baud == 115200),
{
    law_what_a_text_names(s@);
}

/// A target is what it says, with its address, or its path and its rate.
pub proof fn law_targets_say_what_they_are(target: Target)
    ensures
        match target {
            Target::Tcp(address) => target@ == TargetView::Tcp(address@),
            Target::Serial { path, baud } => target@ == (TargetView::Serial { path: path@, baud }),
        },
{
}

} // verus!
