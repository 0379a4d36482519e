//! What holds of numbers in text, of joined texts and of lists.
use crate::text::{
    comma_pieces, csv_items, digits_value, hex_text, integer_text, is_blank, is_digit, is_digits,
    joined, kept_items, natural_text, trimmed, written_integer,
};
use vstd::arithmetic::div_mod::lemma_div_denominator;
use vstd::arithmetic::power::{lemma_pow0, lemma_pow1, lemma_pow_adds, lemma_pow_positive, pow};
use vstd::prelude::*;

verus! {

/// A natural number in decimal is read as that number, and has no zero in front.
pub proof fn law_natural_text_reads_back(n: nat)
    ensures
        natural_text(n).len() > 0,
        is_digits(natural_text(n)),
        digits_value(natural_text(n)) == n,
        natural_text(n)[0] == '0' ==> natural_text(n).len() == 1,
    decreases n,
{
    let text = natural_text(n);
    if n < 10 {
        assert(text.drop_last().len() == 0);
        assert(digits_value(text.drop_last()) == 0);
    } else {
        law_natural_text_reads_back(n / 10);
        let before = natural_text(n / 10);
        assert(text.drop_last() =~= before);
        assert forall|i: int| 0 <= i < text.len() implies is_digit(#[trigger] text[i]) by {
            if i < before.len() {
                assert(text[i] == before[i]);
            }
        }
        assert(text[0] == before[0]);
        if before[0] == '0' {
            assert(before.drop_last().len() == 0);
            assert(digits_value(before.drop_last()) == 0);
        }
    }
}

/// An integer in decimal is read as that integer. Only a negative one has a sign, and no zero
/// stands in front.
pub proof fn law_integer_text_reads_back(n: int)
    ensures
        written_integer(integer_text(n)) == Some(n),
        integer_text(n)[0] == '-' <==> n < 0,
        integer_text(n)[0] != '+',
        integer_text(n)[0] == '0' ==> n == 0 && integer_text(n).len() == 1,
        n < 0 ==> integer_text(n)[1] != '0',
{
    let text = integer_text(n);
    if n < 0 {
        let digits = natural_text((-n) as nat);
        law_natural_text_reads_back((-n) as nat);
        assert(text.skip(1) =~= digits);
        if digits[0] == '0' {
            assert(digits.drop_last().len() == 0);
            assert(digits_value(digits.drop_last()) == 0);
        }
    } else {
        law_natural_text_reads_back(n as nat);
        assert(is_digit(text[0]));
        if text[0] == '0' {
            assert(text.drop_last().len() == 0);
            assert(digits_value(text.drop_last()) == 0);
        }
    }
}

/// Fixed hexadecimal text has one lower-case digit for each power of sixteen, the highest first.
pub proof fn law_hex_text_has_each_digit(n: nat, width: nat, i: nat)
    requires
        i < width,
    ensures
        hex_text(n, width).len() == width,
        ({
            let c = hex_text(n, width)[width - 1 - i];
            let digit = (n as int / pow(16, i)) % 16;
            ||| '0' <= c <= '9' && c as int - '0' as int == digit
            ||| 'a' <= c <= 'f' && c as int - 'a' as int + 10 == digit
        }),
    decreases width,
{
    lemma_hex_text_len((n / 16), (width - 1) as nat);
    if i == 0 {
        lemma_pow0(16);
    } else {
        law_hex_text_has_each_digit(n / 16, (width - 1) as nat, (i - 1) as nat);
        lemma_pow_adds(16, 1, (i - 1) as nat);
        lemma_pow1(16);
        lemma_pow_positive(16, (i - 1) as nat);
        lemma_div_denominator(n as int, 16, pow(16, (i - 1) as nat));
        assert(hex_text(n, width)[width - 1 - i] == hex_text(n / 16, (width - 1) as nat)[width - 2
            - (i - 1)]);
    }
}

proof fn lemma_hex_text_len(n: nat, width: nat)
    ensures
        hex_text(n, width).len() == width,
    decreases width,
{
    if width > 0 {
        lemma_hex_text_len(n / 16, (width - 1) as nat);
    }
}

/// Nothing joined is nothing, one part joined is that part, and two lists of parts are joined
/// with one separator between them.
pub proof fn law_joining_splits(a: Seq<Seq<char>>, b: Seq<Seq<char>>, separator: Seq<char>)
    ensures
        a.len() == 0 ==> joined(a, separator).len() == 0,
        a.len() == 1 ==> joined(a, separator) == a[0],
        a.len() > 0 && b.len() > 0 ==> joined(a + b, separator) == joined(a, separator) + separator
            + joined(b, separator),
    decreases b.len(),
{
    if a.len() > 0 && b.len() > 0 {
        let all = a + b;
        assert(all.last() == b.last());
        if b.len() == 1 {
            assert(all.drop_last() =~= a);
        } else {
            law_joining_splits(a, b.drop_last(), separator);
            assert(all.drop_last() =~= a + b.drop_last());
            assert(joined(all, separator) =~= joined(a, separator) + separator + joined(
                b,
                separator,
            ));
        }
    }
}

/// The last piece before a comma ends there, and the rest has pieces of its own.
proof fn lemma_pieces_split(a: Seq<char>, b: Seq<char>)
    ensures
        comma_pieces(a + seq![','] + b) == comma_pieces(a) + comma_pieces(b),
        comma_pieces(b).len() > 0,
    decreases b.len(),
{
    let all = a + seq![','] + b;
    if b.len() == 0 {
        assert(all.drop_last() =~= a);
        assert(b =~= Seq::<char>::empty());
        assert(comma_pieces(all) =~= comma_pieces(a) + comma_pieces(b));
    } else {
        lemma_pieces_split(a, b.drop_last());
        assert(all.drop_last() =~= a + seq![','] + b.drop_last());
        assert(all.last() == b.last());
        assert(comma_pieces(all) =~= comma_pieces(a) + comma_pieces(b));
    }
}

proof fn lemma_kept_items_split(a: Seq<Seq<char>>, b: Seq<Seq<char>>)
    ensures
        kept_items(a + b) == kept_items(a) + kept_items(b),
    decreases b.len(),
{
    let all = a + b;
    if b.len() == 0 {
        assert(all =~= a);
        assert(kept_items(a) + kept_items(b) =~= kept_items(a));
    } else {
        lemma_kept_items_split(a, b.drop_last());
        assert(all.drop_last() =~= a + b.drop_last());
        assert(all.last() == b.last());
        assert(kept_items(all) =~= kept_items(a) + kept_items(b));
    }
}

proof fn lemma_one_piece(s: Seq<char>)
    requires
        !s.contains(','),
    ensures
        comma_pieces(s) == seq![s],
    decreases s.len(),
{
    if s.len() > 0 {
        let before = s.drop_last();
        assert(s[s.len() - 1] == s.last());
        assert forall|i: int| 0 <= i < before.len() implies before[i] != ',' by {
            assert(before[i] == s[i]);
        }
        lemma_one_piece(before);
        assert(before.push(s.last()) =~= s);
        assert(comma_pieces(s) =~= seq![s]);
    }
}

/// The items on the two sides of a comma are the items of the list, in that order. A list
/// without a comma has one item, the text without the white space around it, or none where it
/// is blank.
pub proof fn law_list_splits_at_commas(a: Seq<char>, b: Seq<char>)
    ensures
        csv_items(a + seq![','] + b) == csv_items(a) + csv_items(b),
        !a.contains(',') && is_blank(a) ==> csv_items(a).len() == 0,
        !a.contains(',') && !is_blank(a) ==> csv_items(a) == seq![trimmed(a)],
{
    lemma_pieces_split(a, b);
    lemma_kept_items_split(comma_pieces(a), comma_pieces(b));
    if !a.contains(',') {
        lemma_one_piece(a);
        assert(comma_pieces(a).drop_last().len() == 0);
        assert(kept_items(comma_pieces(a).drop_last()) =~= seq![]);
        assert(csv_items(a) =~= (if is_blank(a) {
            seq![]
        } else {
            seq![trimmed(a)]
        }));
    }
}

} // verus!
