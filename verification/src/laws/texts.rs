//! Laws of texts: numbers, truth values, pieces and messages.
use vstd::prelude::*;
use crate::app::Error as AppError;
use crate::error::Error;
use crate::text::{
    decimal, decimal_nat, digit, digit_value, digits_value, is_white_space, parse_bool,
    parse_unsigned, split, split_text, split_words, texts, words, Separator,
};

verus! {

/// A number in decimal has its last digit at its end, behind the other digits; a negative number
/// has its sign before the digits.
pub proof fn law_decimal_digits(n: nat, i: int)
    ensures
        decimal_nat(n).len() > 0,
        decimal_nat(n).last() as int == 48 + n % 10,
        n < 10 ==> decimal_nat(n).len() == 1,
        n >= 10 ==> decimal_nat(n).drop_last() == decimal_nat(n / 10),
        i >= 0 ==> decimal(i) == decimal_nat(i as nat),
        i < 0 ==> decimal(i) == seq!['-'] + decimal_nat((-i) as nat),
{
    assert(digit(n % 10) as int == 48 + n % 10);
    if n >= 10 {
        assert(decimal_nat(n).drop_last() =~= decimal_nat(n / 10));
    }
}

proof fn lemma_decimal_reads_back(n: nat)
    ensures
        digits_value(decimal_nat(n)) == Some(n),
        decimal_nat(n).len() > 0,
        decimal_nat(n)[0] != '+',
    decreases n,
{
    assert(digit(n % 10) as int == 48 + n % 10);
    assert(digit_value(digit(n % 10)) == Some(n % 10));
    if n < 10 {
        assert(decimal_nat(n).drop_last() =~= Seq::<char>::empty());
        assert(digits_value(decimal_nat(n).drop_last()) == Some(0nat));
    } else {
        lemma_decimal_reads_back(n / 10);
        assert(decimal_nat(n).drop_last() =~= decimal_nat(n / 10));
        assert(decimal_nat(n)[0] == decimal_nat(n / 10)[0]);
    }
}

proof fn lemma_digits_only(text: Seq<char>, i: int)
    requires
        digits_value(text) is Some,
        0 <= i < text.len(),
    ensures
        48 <= text[i] as int <= 57,
    decreases text.len(),
{
    if i < text.len() - 1 {
        lemma_digits_only(text.drop_last(), i);
    }
}

proof fn lemma_leading_zero(text: Seq<char>)
    ensures
        digits_value(seq!['0'] + text) == digits_value(text),
    decreases text.len(),
{
    let longer = seq!['0'] + text;
    if text.len() == 0 {
        assert(longer.drop_last() =~= Seq::<char>::empty());
        assert(digits_value(longer.drop_last()) == Some(0nat));
        assert(longer.last() == '0');
    } else {
        lemma_leading_zero(text.drop_last());
        assert(longer.drop_last() =~= seq!['0'] + text.drop_last());
        assert(longer.last() == text.last());
    }
}

/// Reading a number that is written in decimal gives the number, with or without a `+`, where it is
/// not above the maximum, and nothing where it is.
pub proof fn law_written_number_is_read(
    text: &str,
    max: u64,
    res: Option<u64>,
    n: nat,
)
    requires
        call_ensures(parse_unsigned, (text, max), res),
        text@ == decimal_nat(n) || text@ == seq!['+'] + decimal_nat(n),
    ensures
        n <= max ==> res == Some(n as u64),
        n > max ==> res is None,
{
    lemma_decimal_reads_back(n);
    if text@ == seq!['+'] + decimal_nat(n) {
        assert(text@[0] == '+');
        assert(text@.skip(1) =~= decimal_nat(n));
    }
}

/// Nothing is read of a text without digits or with a character that is no digit, but for a `+` at
/// its beginning; what is read is not above the maximum.
pub proof fn law_only_digits_are_read(text: &str, max: u64, res: Option<u64>, i: int)
    requires
        call_ensures(parse_unsigned, (text, max), res),
    ensures
        text@.len() == 0 ==> res is None,
        text@ == seq!['+'] ==> res is None,
        0 <= i < text@.len() && !(48 <= text@[i] as int <= 57) && !(i == 0 && text@[0] == '+')
            ==> res is None,
        res matches Some(n) ==> n <= max,
{
    if res is Some && 0 <= i < text@.len() {
        if text@[0] == '+' {
            if i > 0 {
                assert(text@.skip(1)[i - 1] == text@[i]);
                lemma_digits_only(text@.skip(1), i - 1);
            }
        } else {
            lemma_digits_only(text@, i);
        }
    }
}

/// A zero before the digits of a number changes nothing.
pub proof fn law_leading_zero_changes_nothing(
    text: &str,
    longer: &str,
    max: u64,
    res: Option<u64>,
    of_longer: Option<u64>,
)
    requires
        text@.len() > 0,
        text@[0] != '+',
        longer@ == seq!['0'] + text@,
        call_ensures(parse_unsigned, (text, max), res),
        call_ensures(parse_unsigned, (longer, max), of_longer),
    ensures
        of_longer == res,
{
    lemma_leading_zero(text@);
    assert(longer@[0] == '0');
}

/// Exactly the words `true` and `false` are truth values.
pub proof fn law_truth_values(text: &str, res: Option<bool>)
    requires
        call_ensures(parse_bool, (text,), res),
    ensures
        res == Some(true) <==> text@ == "true"@,
        res == Some(false) <==> text@ == "false"@,
        res is None <==> text@ != "true"@ && text@ != "false"@,
{
    reveal_strlit("true");
    reveal_strlit("false");
    assert("true"@.len() != "false"@.len());
}

/// What is written in the strings, string by string.
pub open spec fn written(strings: Seq<String>) -> Seq<Seq<char>> {
    strings.map_values(|s: String| s@)
}

/// The pieces with the separators between them.
pub open spec fn interleaved(pieces: Seq<Seq<char>>, separators: Seq<char>) -> Seq<char>
    decreases pieces.len(),
{
    if pieces.len() == 0 {
        Seq::empty()
    } else if pieces.len() == 1 {
        pieces[0]
    } else {
        interleaved(pieces.drop_last(), separators.drop_last()).push(separators.last())
            + pieces.last()
    }
}

/// The separators of a text, in order.
pub open spec fn separators_of(text: Seq<char>, sep: Separator) -> Seq<char>
    decreases text.len(),
{
    if text.len() == 0 {
        Seq::empty()
    } else if sep.spec_separates(text.last()) {
        separators_of(text.drop_last(), sep).push(text.last())
    } else {
        separators_of(text.drop_last(), sep)
    }
}

proof fn lemma_split_interleaves(text: Seq<char>, sep: Separator)
    ensures
        split(text, sep).len() == separators_of(text, sep).len() + 1,
        interleaved(split(text, sep), separators_of(text, sep)) == text,
        forall|i: int|
            0 <= i < separators_of(text, sep).len() ==> sep.spec_separates(
                #[trigger] separators_of(text, sep)[i],
            ),
        forall|i: int, k: int|
            0 <= i < split(text, sep).len() && 0 <= k < split(text, sep)[i].len()
                ==> !sep.spec_separates(#[trigger] split(text, sep)[i][k]),
    decreases text.len(),
{
    let pieces = split(text, sep);
    let seps = separators_of(text, sep);
    if text.len() == 0 {
        assert(interleaved(pieces, seps) =~= text);
    } else {
        let before = split(text.drop_last(), sep);
        let seps_before = separators_of(text.drop_last(), sep);
        lemma_split_interleaves(text.drop_last(), sep);
        if sep.spec_separates(text.last()) {
            assert(pieces.drop_last() =~= before);
            assert(seps.drop_last() =~= seps_before);
            assert(interleaved(pieces, seps) =~= text);
            assert forall|i: int, k: int|
                0 <= i < pieces.len() && 0 <= k < pieces[i].len() implies !sep.spec_separates(
                #[trigger] pieces[i][k],
            ) by {
                assert(pieces[i] == before[i]);
                assert(!sep.spec_separates(before[i][k]));
            }
        } else {
            assert(pieces.drop_last() =~= before.drop_last());
            assert(interleaved(pieces, seps) =~= interleaved(before, seps).push(text.last()));
            assert(interleaved(pieces, seps) =~= text);
            assert forall|i: int, k: int|
                0 <= i < pieces.len() && 0 <= k < pieces[i].len() implies !sep.spec_separates(
                #[trigger] pieces[i][k],
            ) by {
                if i < pieces.len() - 1 {
                    assert(pieces[i] == before[i]);
                    assert(!sep.spec_separates(before[i][k]));
                } else if k < before.last().len() {
                    assert(pieces[i][k] == before.last()[k]);
                    assert(!sep.spec_separates(before[before.len() - 1][k]));
                }
            }
        }
    }
}

pub(crate) proof fn lemma_pieces_make_up(text: Seq<char>, c: char, pieces: Seq<String>)
    requires
        texts(pieces) == split(text, Separator::Char(c)),
    ensures
        pieces.len() > 0,
        forall|i: int, k: int|
            0 <= i < pieces.len() && 0 <= k < pieces[i]@.len() ==> #[trigger] pieces[i]@[k] != c,
        interleaved(written(pieces), Seq::new((pieces.len() - 1) as nat, |i: int| c)) == text,
{
    let sep = Separator::Char(c);
    lemma_split_interleaves(text, sep);
    assert(texts(pieces).len() == pieces.len());
    assert(written(pieces) =~= split(text, sep));
    assert(separators_of(text, sep) =~= Seq::new((pieces.len() - 1) as nat, |i: int| c));
    assert forall|i: int, k: int|
        0 <= i < pieces.len() && 0 <= k < pieces[i]@.len() implies #[trigger] pieces[i]@[k] != c by {
        assert(texts(pieces)[i] == pieces[i]@);
        assert(!sep.spec_separates(split(text, sep)[i][k]));
    }
}

/// Splitting a text at a character: no piece holds the character, and the pieces with one such
/// character between each two of them are the text.
pub proof fn law_pieces_make_up_the_text(text: &str, c: char, pieces: Vec<String>)
    requires
        call_ensures(split_text, (text, Separator::Char(c)), pieces),
    ensures
        pieces@.len() > 0,
        forall|i: int, k: int|
            0 <= i < pieces@.len() && 0 <= k < pieces@[i]@.len() ==> #[trigger] pieces@[i]@[k]
                != c,
        interleaved(written(pieces@), Seq::new((pieces@.len() - 1) as nat, |i: int| c)) == text@,
{
    lemma_pieces_make_up(text@, c, pieces@);
}

/// Splitting a text at white space: no piece holds white space, and the pieces with white space
/// between each two of them are the text. The words are the pieces that are not empty, in order.
pub proof fn law_words_are_between_white_space(text: &str, pieces: Vec<String>, res: Vec<String>)
    requires
        call_ensures(split_text, (text, Separator::WhiteSpace), pieces),
        call_ensures(split_words, (text,), res),
    ensures
        exists|white: Seq<char>|
            white.len() + 1 == pieces@.len() && (forall|i: int|
                0 <= i < white.len() ==> is_white_space(#[trigger] white[i])) && #[trigger]
                interleaved(written(pieces@), white) == text@,
        forall|i: int, k: int|
            0 <= i < pieces@.len() && 0 <= k < pieces@[i]@.len() ==> !is_white_space(
                #[trigger] pieces@[i]@[k],
            ),
        written(res@) == written(pieces@).filter(|piece: Seq<char>| piece.len() > 0),
{
    let sep = Separator::WhiteSpace;
    lemma_split_interleaves(text@, sep);
    let all = written(pieces@);
    assert(all =~= split(text@, sep));
    let white = separators_of(text@, sep);
    assert forall|i: int| 0 <= i < white.len() implies is_white_space(#[trigger] white[i]) by {
        assert(sep.spec_separates(separators_of(text@, sep)[i]));
    }
    assert(interleaved(all, white) == text@);
    assert forall|i: int, k: int|
        0 <= i < pieces@.len() && 0 <= k < pieces@[i]@.len() implies !is_white_space(
        #[trigger] pieces@[i]@[k],
    ) by {
        assert(all[i] == pieces@[i]@);
        assert(!sep.spec_separates(split(text@, sep)[i][k]));
    }
    assert(written(res@) =~= words(text@));
}

/// The white space characters.
pub proof fn law_white_space(c: char)
    ensures
        is_white_space(c) <==> {
            ||| c as int == 9 || c as int == 10 || c as int == 11 || c as int == 12 || c as int == 13
            ||| c as int == 0x20 || c as int == 0x85 || c as int == 0xa0 || c as int == 0x1680
            ||| (0x2000 <= c as int && c as int <= 0x200a)
            ||| c as int == 0x2028 || c as int == 0x2029 || c as int == 0x202f
            ||| c as int == 0x205f || c as int == 0x3000
        },
{
}

/// The message of each error.
pub proof fn law_messages(e: &Error, text: String)
    requires
        call_ensures(Error::message, (e,), text),
    ensures
        match e {
            Error::AlreadyExists => text@ == "This entity already exists"@,
            Error::SpdkBdevNotFound(n) => text@ == "SPDK block device '"@ + n@ + "' not found"@,
            Error::SpdkBdevDelete(rc) => text@ == "Failed to delete SPDK block device: "@ + decimal(
                *rc as int,
            ),
            Error::SpdkBdevCreate(rc) => text@ == "Failed to create SPDK block device: "@ + decimal(
                *rc as int,
            ),
            Error::SpdkBdevOpen(rc) => text@ == "Failed to open SPDK block device: "@ + decimal(
                *rc as int,
            ),
            Error::RpcCmdUnknown(n) => text@ == "Unknown RPC command '"@ + n@,
            Error::InvalidArguments => text@ == "Invalid arguments"@,
            Error::InvalidField(n) => text@ == "Invalid field '"@ + n@ + "'"@,
            Error::NoMemory => text@ == "Out of memory"@,
            Error::UnsupportedFeature => text@ == "Unsupported feature"@,
            Error::SharedBufferModification => text@ == "Attempt to modify shared buffer"@,
            Error::UnsupportedOperation => text@ == "Unsupported operation"@,
            Error::OutOfRange => text@ == "Out of range"@,
            Error::IntDowncast => text@ == "Integer downcast error"@,
            Error::IntParseError(_) => text@ == "Integer parse error"@,
        },
{
}

/// The message of each error of running an application.
pub proof fn law_app_messages(e: &AppError, text: String)
    requires
        call_ensures(AppError::message, (e,), text),
    ensures
        match e {
            AppError::NoStartCbDefined => text@ == "No start callback (.on_start()) defined"@,
            AppError::ParseArgv(rc) => text@ == "Failed to parse arguments: "@ + decimal(
                *rc as int,
            ),
            AppError::Start(rc) => text@ == "SPDK application start failed: "@ + decimal(
                *rc as int,
            ),
        },
{
}

} // verus!
