//! Text that the supervisor writes: addresses, and the search for a phrase in a
//! line of output.

use vstd::prelude::*;

verus! {

/// The decimal digit of value `d`.
pub open spec fn digit(d: nat) -> char {
    if d == 0 {
        '0'
    } else if d == 1 {
        '1'
    } else if d == 2 {
        '2'
    } else if d == 3 {
        '3'
    } else if d == 4 {
        '4'
    } else if d == 5 {
        '5'
    } else if d == 6 {
        '6'
    } else if d == 7 {
        '7'
    } else if d == 8 {
        '8'
    } else {
        '9'
    }
}

/// `n` in decimal, most significant digit first and without leading zeros.
pub open spec fn decimal_text(n: nat) -> Seq<char>
    decreases n,
{
    if n < 10 {
        seq![digit(n)]
    } else {
        decimal_text(n / 10).push(digit(n % 10))
    }
}

/// Where a server listens: `host:port`.
pub open spec fn address_text(host: Seq<char>, port: u16) -> Seq<char> {
    host + ":"@ + decimal_text(port as nat)
}

/// Whether `phrase` stands somewhere in `text`.
pub open spec fn has_phrase(text: Seq<char>, phrase: Seq<char>) -> bool {
    exists|i: int|
        0 <= i <= text.len() - phrase.len() && #[trigger] text.subrange(i, i + phrase.len())
            == phrase
}

fn digit_str(d: u16) -> (s: &'static str)
    requires
        d < 10,
    ensures
        s@ == seq![digit(d as nat)],
{
    proof {
        reveal_strlit("0");
        reveal_strlit("1");
        reveal_strlit("2");
        reveal_strlit("3");
        reveal_strlit("4");
        reveal_strlit("5");
        reveal_strlit("6");
        reveal_strlit("7");
        reveal_strlit("8");
        reveal_strlit("9");
    }
    match d {
        0 => "0",
        1 => "1",
        2 => "2",
        3 => "3",
        4 => "4",
        5 => "5",
        6 => "6",
        7 => "7",
        8 => "8",
        _ => "9",
    }
}

/// Writes a port number in decimal.
pub fn decimal(n: u16) -> (text: String)
    ensures
        text@ == decimal_text(n as nat),
    decreases n,
{
    if n < 10 {
        digit_str(n).to_owned()
    } else {
        let mut text = decimal(n / 10);
        text.append(digit_str(n % 10));
        text
    }
}

/// Writes `host:port`.
pub fn address(host: &str, port: u16) -> (text: String)
    ensures
        text@ == address_text(host@, port),
{
    let mut text = host.to_owned();
    text.append(":");
    text.append(decimal(port).as_str());
    text
}

fn char_vec(text: &str) -> (chars: Vec<char>)
    ensures
        chars@ == text@,
{
    let mut chars: Vec<char> = Vec::new();
    for c in it: text.chars()
        invariant
            it.seq() == text@,
            chars@ == it.seq().take(it.index() as int),
    {
        chars.push(c);
    }
    chars
}

/// Whether `phrase` stands at position `at` of `text`.
fn phrase_at(text: &Vec<char>, phrase: &Vec<char>, at: usize) -> (found: bool)
    requires
        at + phrase.len() <= text.len(),
    ensures
        found == (text@.subrange(at as int, at + phrase.len()) == phrase@),
{
    let mut j: usize = 0;
    while j < phrase.len()
        invariant
            j <= phrase.len(),
            at + phrase.len() <= text.len(),
            forall|k: int| 0 <= k < j ==> text@[at + k] == phrase@[k],
        decreases phrase.len() - j,
    {
        if text[at + j] != phrase[j] {
            assert(text@.subrange(at as int, at + phrase.len())[j as int] != phrase@[j as int]);
            return false;
        }
        j = j + 1;
    }
    assert(text@.subrange(at as int, at + phrase.len()) =~= phrase@);
    true
}

/// Looks for `phrase` in `text`.
pub fn contains(text: &str, phrase: &str) -> (found: bool)
    ensures
        found == has_phrase(text@, phrase@),
{
    let text_chars = char_vec(text);
    let phrase_chars = char_vec(phrase);
    if phrase_chars.len() > text_chars.len() {
        return false;
    }
    let last: usize = text_chars.len() - phrase_chars.len();
    let mut i: usize = 0;
    while i < last
        invariant
            text_chars@ == text@,
            phrase_chars@ == phrase@,
            last == text@.len() - phrase@.len(),
            i <= last,
            forall|k: int|
                0 <= k < i ==> #[trigger] text@.subrange(k, k + phrase@.len()) != phrase@,
        decreases last - i,
    {
        if phrase_at(&text_chars, &phrase_chars, i) {
            return true;
        }
        i = i + 1;
    }
    phrase_at(&text_chars, &phrase_chars, last)
}

proof fn lemma_decimal_text_has_no_colon(n: nat)
    ensures
        decimal_text(n).len() > 0,
        forall|i: int| 0 <= i < decimal_text(n).len() ==> #[trigger] decimal_text(n)[i] != ':',
    decreases n,
{
    if n >= 10 {
        lemma_decimal_text_has_no_colon(n / 10);
    }
}

/// Different numbers are written differently.
pub proof fn law_decimal_text_identifies_number(m: nat, n: nat)
    requires
        decimal_text(m) == decimal_text(n),
    ensures
        m == n,
    decreases m,
{
    lemma_decimal_text_has_no_colon(m / 10);
    lemma_decimal_text_has_no_colon(n / 10);
    assert(decimal_text(m).last() == digit(m % 10));
    assert(decimal_text(n).last() == digit(n % 10));
    assert(m % 10 == n % 10);
    if m >= 10 {
        assert(decimal_text(m).len() > 1);
        assert(n >= 10);
        assert(decimal_text(m).drop_last() =~= decimal_text(m / 10));
        assert(decimal_text(n).drop_last() =~= decimal_text(n / 10));
        law_decimal_text_identifies_number(m / 10, n / 10);
    } else {
        assert(decimal_text(m).len() == 1);
    }
}

/// An address tells host and port: no two workers share one.
pub proof fn law_address_identifies_worker(
    host: Seq<char>,
    port: u16,
    other_host: Seq<char>,
    other_port: u16,
)
    requires
        address_text(host, port) == address_text(other_host, other_port),
    ensures
        host == other_host,
        port == other_port,
{
    reveal_strlit(":");
    let text = address_text(host, port);
    let digits = decimal_text(port as nat);
    let other_digits = decimal_text(other_port as nat);
    lemma_decimal_text_has_no_colon(port as nat);
    lemma_decimal_text_has_no_colon(other_port as nat);
    assert(text[host.len() as int] == ':');
    assert(text[other_host.len() as int] == ':');
    assert(text.len() == host.len() + 1 + digits.len());
    assert(text.len() == other_host.len() + 1 + other_digits.len());
    if host.len() < other_host.len() {
        assert(text[other_host.len() as int] == digits[other_host.len() - host.len() - 1]);
    }
    if other_host.len() < host.len() {
        assert(text[host.len() as int] == other_digits[host.len() - other_host.len() - 1]);
    }
    assert(text.take(host.len() as int) =~= host);
    assert(text.take(host.len() as int) =~= other_host);
    assert(text.skip(host.len() as int + 1) =~= digits);
    assert(text.skip(host.len() as int + 1) =~= other_digits);
    law_decimal_text_identifies_number(port as nat, other_port as nat);
}

/// The number that `digits` stand for, in the decimal system.
pub open spec fn number_of(digits: Seq<char>) -> int
    decreases digits.len(),
{
    if digits.len() == 0 {
        0
    } else {
        10 * number_of(digits.drop_last()) + (digits.last() as int - '0' as int)
    }
}

/// `digits` are how `n` is written: digits alone, none of them a leading zero,
/// that stand for it.
pub open spec fn is_numeral_of(digits: Seq<char>, n: int) -> bool {
    &&& digits.len() > 0
    &&& forall|i: int| 0 <= i < digits.len() ==> '0' <= #[trigger] digits[i] <= '9'
    &&& digits[0] == '0' ==> digits.len() == 1
    &&& number_of(digits) == n
}

/// `text` reads as a host, a colon and a port: those of the server it names.
pub open spec fn reads_as_address(text: Seq<char>, host: Seq<char>, port: int) -> bool {
    &&& text.len() > host.len() + 1
    &&& text.take(host.len() as int) == host
    &&& text[host.len() as int] == ':'
    &&& is_numeral_of(text.skip(host.len() as int + 1), port)
}

pub(crate) proof fn lemma_decimal_text_is_numeral(n: nat)
    ensures
        is_numeral_of(decimal_text(n), n as int),
        n > 0 ==> decimal_text(n)[0] != '0',
    decreases n,
{
    reveal_with_fuel(number_of, 2);
    if n < 10 {
        assert(decimal_text(n).drop_last() =~= Seq::<char>::empty());
    } else {
        let before = decimal_text(n / 10);
        lemma_decimal_text_is_numeral(n / 10);
        assert(decimal_text(n).drop_last() =~= before);
        assert(decimal_text(n).last() == digit(n % 10));
    }
}

pub(crate) proof fn lemma_address_text_reads_as_address(host: Seq<char>, port: u16)
    ensures
        reads_as_address(address_text(host, port), host, port as int),
{
    reveal_strlit(":");
    let text = address_text(host, port);
    lemma_decimal_text_is_numeral(port as nat);
    assert(text.take(host.len() as int) =~= host);
    assert(text.skip(host.len() as int + 1) =~= decimal_text(port as nat));
}

/// What `decimal` writes is the decimal numeral of its argument, for every number.
pub proof fn law_decimal_writes_a_numeral(n: u16, text: String)
    requires
        call_ensures(decimal, (n,), text),
    ensures
        is_numeral_of(text@, n as int),
{
    lemma_decimal_text_is_numeral(n as nat);
}

/// What `address` writes reads back as the host and the port that it was given.
pub proof fn law_address_reads_back(host: &str, port: u16, text: String)
    requires
        call_ensures(address, (host, port), text),
    ensures
        reads_as_address(text@, host@, port as int),
{
    lemma_address_text_reads_as_address(host@, port);
}

/// A phrase is found wherever it stands, and only where it does: `contains`
/// says so exactly of those texts that are the phrase with something before it
/// and something after it, be it nothing.
pub proof fn law_phrase_is_found_wherever_it_stands(text: &str, phrase: &str, found: bool)
    requires
        call_ensures(contains, (text, phrase), found),
    ensures
        found <==> exists|before: Seq<char>, after: Seq<char>|
            text@ == #[trigger] (before + phrase@ + after),
{
    lemma_phrase_stands_between(text@, phrase@);
}

pub(crate) proof fn lemma_phrase_stands_between(text: Seq<char>, phrase: Seq<char>)
    ensures
        has_phrase(text, phrase) <==> exists|before: Seq<char>, after: Seq<char>|
            text == #[trigger] (before + phrase + after),
{
    if has_phrase(text, phrase) {
        let i = choose|i: int|
            0 <= i <= text.len() - phrase.len() && #[trigger] text.subrange(i, i + phrase.len())
                == phrase;
        let before = text.take(i);
        let after = text.skip(i + phrase.len());
        assert(text =~= before + phrase + after) by {
            assert forall|k: int| 0 <= k < text.len() implies text[k] == (before + phrase
                + after)[k] by {
                if i <= k < i + phrase.len() {
                    assert(text.subrange(i, i + phrase.len())[k - i] == phrase[k - i]);
                }
            }
        }
    }
    if exists|before: Seq<char>, after: Seq<char>|
        text == #[trigger] (before + phrase + after) {
        let (before, after) = choose|before: Seq<char>, after: Seq<char>|
            text == #[trigger] (before + phrase + after);
        let i = before.len() as int;
        assert(text.subrange(i, i + phrase.len()) =~= phrase);
    }
}

} // verus!
