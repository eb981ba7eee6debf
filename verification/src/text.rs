//! Splitting, reading and writing short texts.
use vstd::prelude::*;
use vstd::string::*;

verus! {

/// The texts of the strings.
pub open spec fn texts(strings: Seq<String>) -> Seq<Seq<char>> {
    Seq::new(strings.len(), |i: int| strings[i]@)
}

/// What separates the pieces of a text.
#[derive(Clone, Copy, Debug, PartialEq, Eq, Structural)]
pub enum Separator {
    /// One character.
    Char(char),
    /// Any character that Unicode counts as white space.
    WhiteSpace,
}

/// The characters that have the Unicode property `White_Space`.
pub open spec fn is_white_space(c: char) -> bool {
    let u = c as int;
    ||| 0x09 <= u <= 0x0d
    ||| u == 0x20
    ||| u == 0x85
    ||| u == 0xa0
    ||| u == 0x1680
    ||| 0x2000 <= u <= 0x200a
    ||| u == 0x2028
    ||| u == 0x2029
    ||| u == 0x202f
    ||| u == 0x205f
    ||| u == 0x3000
}

impl Separator {
    /// The character separates two pieces.
    pub open spec fn spec_separates(self, c: char) -> bool {
        match self {
            Separator::Char(sep) => c == sep,
            Separator::WhiteSpace => is_white_space(c),
        }
    }

    /// Tells whether the character separates two pieces.
    pub fn separates(self, c: char) -> (res: bool)
        ensures
            res == self.spec_separates(c),
    {
        match self {
            Separator::Char(sep) => c == sep,
            Separator::WhiteSpace => {
                let u: u32 = c as u32;
                (0x09 <= u && u <= 0x0d) || u == 0x20 || u == 0x85 || u == 0xa0 || u == 0x1680 || (
                0x2000 <= u && u <= 0x200a) || u == 0x2028 || u == 0x2029 || u == 0x202f || u
                    == 0x205f || u == 0x3000
            },
        }
    }
}

/// The pieces of a text between its separators. There is one piece more than there are
/// separators, and a piece may be empty.
pub open spec fn split(text: Seq<char>, sep: Separator) -> Seq<Seq<char>>
    decreases text.len(),
{
    if text.len() == 0 {
        seq![Seq::empty()]
    } else if sep.spec_separates(text.last()) {
        split(text.drop_last(), sep).push(Seq::empty())
    } else {
        let pieces = split(text.drop_last(), sep);
        pieces.drop_last().push(pieces.last().push(text.last()))
    }
}

/// The pieces, with `sep` between each two of them.
pub open spec fn join(pieces: Seq<Seq<char>>, sep: char) -> Seq<char>
    decreases pieces.len(),
{
    if pieces.len() == 0 {
        Seq::empty()
    } else if pieces.len() == 1 {
        pieces[0]
    } else {
        join(pieces.drop_last(), sep).push(sep) + pieces.last()
    }
}

/// Splitting at a character loses nothing and leaves no separator: no piece holds the character,
/// and joining the pieces with it gives the text back.
pub proof fn lemma_split_join(text: Seq<char>, sep: char)
    ensures
        split(text, Separator::Char(sep)).len() > 0,
        forall|i: int|
            0 <= i < split(text, Separator::Char(sep)).len() ==> !(#[trigger] split(
                text,
                Separator::Char(sep),
            )[i]).contains(sep),
        join(split(text, Separator::Char(sep)), sep) == text,
    decreases text.len(),
{
    let s = Separator::Char(sep);
    if text.len() > 0 {
        lemma_split_join(text.drop_last(), sep);
        let before = split(text.drop_last(), s);
        let pieces = split(text, s);
        if text.last() == sep {
            assert(pieces.drop_last() =~= before);
            assert(join(pieces, sep) =~= text);
        } else {
            assert(pieces.drop_last() =~= before.drop_last());
            assert forall|i: int| 0 <= i < pieces.len() implies !(#[trigger] pieces[i]).contains(
                sep,
            ) by {
                if i < pieces.len() - 1 {
                    assert(pieces[i] == before[i]);
                } else {
                    let last = before.last();
                    assert(!last.contains(sep));
                    assert forall|k: int| 0 <= k < pieces[i].len() implies pieces[i][k] != sep by {
                        if k < last.len() {
                            assert(pieces[i][k] == last[k]);
                        }
                    }
                }
            }
            assert(join(pieces, sep) =~= join(before, sep).push(text.last()));
            assert(join(pieces, sep) =~= text);
        }
    }
}

/// Splits a text into the pieces between its separators.
pub fn split_text(text: &str, sep: Separator) -> (pieces: Vec<String>)
    ensures
        texts(pieces@) == split(text@, sep),
{
    let chars = chars_of(text);
    let mut pieces: Vec<String> = Vec::new();
    let mut start: usize = 0;
    let mut i: usize = 0;
    proof {
        assert(text@.take(0) =~= Seq::<char>::empty());
        assert(text@.subrange(0, 0) =~= Seq::<char>::empty());
        assert(texts(pieces@).push(text@.subrange(0, 0)) =~= split(text@.take(0), sep));
    }
    while i < chars.len()
        invariant
            chars@ == text@,
            start <= i <= chars@.len(),
            texts(pieces@).push(text@.subrange(start as int, i as int)) == split(
                text@.take(i as int),
                sep,
            ),
        decreases chars@.len() - i,
    {
        let c = chars[i];
        let ghost before = pieces@;
        assert(text@.take(i + 1).drop_last() =~= text@.take(i as int));
        assert(text@.take(i + 1).last() == c);
        if sep.separates(c) {
            pieces.push(text.substring_char(start, i).to_owned());
            assert(texts(pieces@) =~= texts(before).push(text@.subrange(start as int, i as int)));
            start = i + 1;
            assert(text@.subrange(start as int, i + 1) =~= Seq::<char>::empty());
        } else {
            assert(text@.subrange(start as int, i + 1) =~= text@.subrange(
                start as int,
                i as int,
            ).push(c));
            assert(texts(before).push(text@.subrange(start as int, i as int)).drop_last() =~= texts(
                before,
            ));
        }
        i = i + 1;
    }
    let ghost before = pieces@;
    pieces.push(text.substring_char(start, i).to_owned());
    assert(texts(pieces@) =~= texts(before).push(text@.subrange(start as int, i as int)));
    assert(text@.take(i as int) =~= text@);
    pieces
}

/// The characters of a text.
fn chars_of(text: &str) -> (chars: Vec<char>)
    ensures
        chars@ == text@,
{
    let mut chars: Vec<char> = Vec::new();
    for c in iter: text.chars()
        invariant
            chars@ == iter.seq().take(iter.index() as int),
    {
        chars.push(c);
    }
    chars
}

/// The words of a text: its pieces between white space that are not empty.
pub open spec fn words(text: Seq<char>) -> Seq<Seq<char>> {
    split(text, Separator::WhiteSpace).filter(|w: Seq<char>| w.len() > 0)
}

/// Splits a text into its words.
pub fn split_words(text: &str) -> (res: Vec<String>)
    ensures
        texts(res@) == words(text@),
{
    let pieces = split_text(text, Separator::WhiteSpace);
    let ghost all = texts(pieces@);
    let ghost nonempty = |w: Seq<char>| w.len() > 0;
    let mut res: Vec<String> = Vec::new();
    let mut i: usize = 0;
    proof {
        reveal(Seq::filter);
        assert(texts(res@) =~= all.take(0).filter(nonempty));
    }
    while i < pieces.len()
        invariant
            i <= pieces@.len(),
            all == texts(pieces@),
            nonempty == (|w: Seq<char>| w.len() > 0),
            texts(res@) == all.take(i as int).filter(nonempty),
        decreases pieces@.len() - i,
    {
        let ghost before = res@;
        proof {
            reveal(Seq::filter);
            assert(all.take(i + 1).drop_last() =~= all.take(i as int));
            assert(all.take(i + 1).last() == pieces@[i as int]@);
        }
        if !pieces[i].as_str().is_empty() {
            res.push(pieces[i].clone());
            assert(texts(res@) =~= texts(before).push(pieces@[i as int]@));
        }
        i = i + 1;
    }
    assert(all.take(i as int) =~= all);
    res
}

/// Takes a prefix off a text that has it.
pub fn strip_prefix(text: &str, prefix: &str) -> (res: Option<String>)
    ensures
        match res {
            Some(rest) => prefix@.is_prefix_of(text@) && rest@ == text@.skip(
                prefix@.len() as int,
            ),
            None => !prefix@.is_prefix_of(text@),
        },
{
    let t = chars_of(text);
    let p = chars_of(prefix);
    if p.len() > t.len() {
        return None;
    }
    let mut i: usize = 0;
    while i < p.len()
        invariant
            t@ == text@,
            p@ == prefix@,
            i <= p@.len() <= t@.len(),
            forall|j: int| 0 <= j < i ==> p@[j] == t@[j],
        decreases p@.len() - i,
    {
        if p[i] != t[i] {
            assert(!prefix@.is_prefix_of(text@)) by {
                assert(text@.subrange(0, prefix@.len() as int)[i as int] != prefix@[i as int]);
            }
            return None;
        }
        i = i + 1;
    }
    assert(prefix@ =~= text@.subrange(0, prefix@.len() as int));
    assert(text@.subrange(p@.len() as int, t@.len() as int) =~= text@.skip(prefix@.len() as int));
    Some(text.substring_char(p.len(), t.len()).to_owned())
}

/// Tells whether a text ends with a suffix.
pub fn ends_with(text: &str, suffix: &str) -> (res: bool)
    ensures
        res == suffix@.is_suffix_of(text@),
{
    let t = chars_of(text);
    let s = chars_of(suffix);
    if s.len() > t.len() {
        return false;
    }
    let from: usize = t.len() - s.len();
    let mut i: usize = 0;
    while i < s.len()
        invariant
            t@ == text@,
            s@ == suffix@,
            i <= s.len() <= t.len(),
            from == t.len() - s.len(),
            forall|j: int| 0 <= j < i ==> s@[j] == t@[from + j],
        decreases s@.len() - i,
    {
        if s[i] != t[from + i] {
            assert(!suffix@.is_suffix_of(text@)) by {
                assert(text@.subrange(from as int, text@.len() as int)[i as int]
                    != suffix@[i as int]);
            }
            return false;
        }
        i = i + 1;
    }
    assert(suffix@ =~= text@.subrange(from as int, text@.len() as int));
    true
}

/// The decimal digit with the value `d`.
pub open spec fn digit(d: nat) -> char {
    seq!['0', '1', '2', '3', '4', '5', '6', '7', '8', '9'][d as int]
}

/// A number in decimal.
pub open spec fn decimal_nat(n: nat) -> Seq<char>
    decreases n,
{
    if n < 10 {
        seq![digit(n)]
    } else {
        decimal_nat(n / 10).push(digit(n % 10))
    }
}

/// A signed number in decimal.
pub open spec fn decimal(n: int) -> Seq<char> {
    if n < 0 {
        seq!['-'] + decimal_nat((-n) as nat)
    } else {
        decimal_nat(n as nat)
    }
}

fn digit_text(d: u32) -> (text: &'static str)
    requires
        d < 10,
    ensures
        text@ == seq![digit(d as nat)],
{
    proof {
        reveal_strlit("0");
        reveal_strlit("1");
        reveal_strlit("2");
        reveal_strlit("3");
        reveal_strlit("4");
        reveal_strlit("5");
        reveal_strlit("6");
        reveal_strlit("7");
        reveal_strlit("8");
        reveal_strlit("9");
    }
    match d {
        0 => "0",
        1 => "1",
        2 => "2",
        3 => "3",
        4 => "4",
        5 => "5",
        6 => "6",
        7 => "7",
        8 => "8",
        _ => "9",
    }
}

/// Appends a number in decimal.
fn append_decimal_nat(text: &mut String, n: u32)
    ensures
        final(text)@ == old(text)@ + decimal_nat(n as nat),
    decreases n,
{
    if n >= 10 {
        append_decimal_nat(text, n / 10);
    }
    text.append(digit_text(n % 10));
    assert(text@ =~= old(text)@ + decimal_nat(n as nat));
}

/// Appends a signed number in decimal.
pub(crate) fn append_decimal(text: &mut String, n: i32)
    ensures
        final(text)@ == old(text)@ + decimal(n as int),
{
    if n < 0 {
        proof {
            reveal_strlit("-");
        }
        text.append("-");
        let magnitude: i64 = -(n as i64);
        append_decimal_nat(text, magnitude as u32);
        assert(text@ =~= old(text)@ + decimal(n as int));
    } else {
        append_decimal_nat(text, n as u32);
    }
}

/// The value of a decimal digit.
pub open spec fn digit_value(c: char) -> Option<nat> {
    let u = c as int;
    if '0' as int <= u <= '9' as int {
        Some((u - '0' as int) as nat)
    } else {
        None
    }
}

/// The number that a text of decimal digits writes, if it holds nothing else. The empty text
/// writes 0.
pub open spec fn digits_value(text: Seq<char>) -> Option<nat>
    decreases text.len(),
{
    if text.len() == 0 {
        Some(0)
    } else {
        match (digits_value(text.drop_last()), digit_value(text.last())) {
            (Some(high), Some(low)) => Some(high * 10 + low),
            _ => None,
        }
    }
}

/// The number of at most `max` that a text writes: decimal digits, at least one, after an
/// optional `+`.
pub open spec fn unsigned_value(text: Seq<char>, max: nat) -> Option<nat> {
    let digits = if text.len() > 0 && text[0] == '+' {
        text.skip(1)
    } else {
        text
    };
    if digits.len() == 0 {
        None
    } else {
        match digits_value(digits) {
            Some(n) => if n <= max {
                Some(n)
            } else {
                None
            },
            None => None,
        }
    }
}

proof fn lemma_digits_value_grows(text: Seq<char>, i: int)
    requires
        0 <= i <= text.len(),
        digits_value(text) is Some,
    ensures
        digits_value(text.take(i)) is Some,
        digits_value(text.take(i)).unwrap() <= digits_value(text).unwrap(),
    decreases text.len(),
{
    if i == text.len() {
        assert(text.take(i) =~= text);
    } else {
        lemma_digits_value_grows(text.drop_last(), i);
        assert(text.drop_last().take(i) =~= text.take(i));
    }
}

/// Reads the digits from `start` on, as a number of at most `max`.
fn parse_digits(chars: &Vec<char>, start: usize, max: u64) -> (res: Option<u64>)
    requires
        start <= chars@.len(),
    ensures
        match (res, digits_value(chars@.skip(start as int))) {
            (Some(n), Some(value)) => n == value && value <= max,
            (None, Some(value)) => value > max,
            (Some(_), None) => false,
            (None, None) => true,
        },
{
    let ghost digits = chars@.skip(start as int);
    let mut value: u64 = 0;
    let mut i: usize = start;
    assert(digits.take(0) =~= Seq::<char>::empty());
    while i < chars.len()
        invariant
            digits == chars@.skip(start as int),
            start <= i <= chars@.len(),
            value <= max,
            digits_value(digits.take(i - start)) == Some(value as nat),
        decreases chars@.len() - i,
    {
        let c = chars[i];
        let ghost next = digits.take(i - start + 1);
        proof {
            assert(next.drop_last() =~= digits.take(i - start));
            assert(next.last() == c);
            if digits_value(digits) is Some {
                lemma_digits_value_grows(digits, i - start + 1);
            }
        }
        if c < '0' || c > '9' {
            assert(digits_value(next) is None);
            return None;
        }
        let low: u64 = (c as u32 - '0' as u32) as u64;
        assert(digits_value(next) == Some((value * 10 + low) as nat));
        let sum: u128 = value as u128 * 10 + low as u128;
        if sum > max as u128 {
            return None;
        }
        value = sum as u64;
        i = i + 1;
    }
    assert(digits.take(i - start) =~= digits);
    Some(value)
}

/// Reads an unsigned number of at most `max`.
pub fn parse_unsigned(text: &str, max: u64) -> (res: Option<u64>)
    ensures
        match res {
            Some(n) => unsigned_value(text@, max as nat) == Some(n as nat),
            None => unsigned_value(text@, max as nat) is None,
        },
{
    let chars = chars_of(text);
    let start: usize = if chars.len() > 0 && chars[0] == '+' { 1 } else { 0 };
    assert(text@.skip(0) =~= text@);
    if start == chars.len() {
        return None;
    }
    parse_digits(&chars, start, max)
}

/// The truth value that a text writes.
pub open spec fn bool_value(text: Seq<char>) -> Option<bool> {
    if text == "true"@ {
        Some(true)
    } else if text == "false"@ {
        Some(false)
    } else {
        None
    }
}

/// Reads a truth value.
pub fn parse_bool(text: &str) -> (res: Option<bool>)
    ensures
        res == bool_value(text@),
{
    let text = text.to_owned();
    proof {
        reveal_strlit("true");
        reveal_strlit("false");
    }
    if text == "true".to_owned() {
        Some(true)
    } else if text == "false".to_owned() {
        Some(false)
    } else {
        None
    }
}

} // verus!
