//! Text: what the string operations of the standard library mean, and the
//! small renderings built on them.
use vstd::prelude::*;

verus! {

/// The Unicode `White_Space` property.
pub open spec fn is_white_space(c: char) -> bool {
    let code = c as u32;
    ||| 0x9 <= code <= 0xD
    ||| code == 0x20
    ||| code == 0x85
    ||| code == 0xA0
    ||| code == 0x1680
    ||| 0x2000 <= code <= 0x200A
    ||| code == 0x2028
    ||| code == 0x2029
    ||| code == 0x202F
    ||| code == 0x205F
    ||| code == 0x3000
}

/// `s` without its leading white space.
pub open spec fn trimmed_start(s: Seq<char>) -> Seq<char>
    decreases s.len(),
{
    if s.len() > 0 && is_white_space(s[0]) {
        trimmed_start(s.skip(1))
    } else {
        s
    }
}

/// `s` without its trailing white space.
pub open spec fn trimmed_end(s: Seq<char>) -> Seq<char>
    decreases s.len(),
{
    if s.len() > 0 && is_white_space(s.last()) {
        trimmed_end(s.drop_last())
    } else {
        s
    }
}

/// `s` without the white space at its two ends.
pub open spec fn trimmed(s: Seq<char>) -> Seq<char> {
    trimmed_end(trimmed_start(s))
}

/// Whether `s` holds nothing but white space.
pub open spec fn is_blank(s: Seq<char>) -> bool {
    trimmed(s).len() == 0
}

/// `s` without the run of `c` at its end.
pub open spec fn without_trailing(s: Seq<char>, c: char) -> Seq<char>
    decreases s.len(),
{
    if s.len() > 0 && s.last() == c {
        without_trailing(s.drop_last(), c)
    } else {
        s
    }
}

/// Whether `s` begins with `prefix`.
pub open spec fn begins_with(s: Seq<char>, prefix: Seq<char>) -> bool {
    prefix.len() <= s.len() && s.take(prefix.len() as int) == prefix
}

/// `s` with each occurrence of `from` replaced by `to`; occurrences are taken
/// from left to right and do not overlap.
pub open spec fn replaced(s: Seq<char>, from: Seq<char>, to: Seq<char>) -> Seq<char>
    decreases s.len(),
{
    if s.len() == 0 || from.len() == 0 {
        s
    } else if begins_with(s, from) {
        to + replaced(s.skip(from.len() as int), from, to)
    } else {
        seq![s[0]] + replaced(s.skip(1), from, to)
    }
}

/// The lower-case form of an ASCII letter; any other character is itself.
pub open spec fn ascii_lower(c: char) -> char {
    if 'A' <= c <= 'Z' {
        ((c as u32) + 32) as char
    } else {
        c
    }
}

/// Whether two texts differ at most in the case of ASCII letters.
pub open spec fn same_ignoring_ascii_case(a: Seq<char>, b: Seq<char>) -> bool {
    a.map_values(|c: char| ascii_lower(c)) == b.map_values(|c: char| ascii_lower(c))
}

/// Whether `c` is a decimal digit.
pub open spec fn is_digit(c: char) -> bool {
    '0' <= c <= '9'
}

/// Whether `s` is one decimal digit or more.
pub open spec fn is_digits(s: Seq<char>) -> bool {
    s.len() > 0 && forall|i: int| 0 <= i < s.len() ==> is_digit(#[trigger] s[i])
}

/// The number that decimal digits stand for.
pub open spec fn digits_value(s: Seq<char>) -> int
    decreases s.len(),
{
    if s.len() == 0 {
        0
    } else {
        digits_value(s.drop_last()) * 10 + (s.last() as int - '0' as int)
    }
}

/// The integer that `s` writes: digits behind an optional sign.
pub open spec fn written_integer(s: Seq<char>) -> Option<int> {
    if s.len() > 0 && s[0] == '-' && is_digits(s.skip(1)) {
        Some(-digits_value(s.skip(1)))
    } else if s.len() > 0 && s[0] == '+' && is_digits(s.skip(1)) {
        Some(digits_value(s.skip(1)))
    } else if is_digits(s) {
        Some(digits_value(s))
    } else {
        None
    }
}

/// The 64-bit integer that `s` writes.
pub open spec fn written_i64(s: Seq<char>) -> Option<i64> {
    match written_integer(s) {
        Some(n) => if i64::MIN <= n <= i64::MAX {
            Some(n as i64)
        } else {
            None
        },
        None => None,
    }
}

/// The decimal digit of a number below ten.
pub open spec fn digit_char(n: int) -> char {
    ('0' as int + n) as char
}

/// A natural number in decimal.
pub open spec fn natural_text(n: nat) -> Seq<char>
    decreases n,
{
    if n < 10 {
        seq![digit_char(n as int)]
    } else {
        natural_text(n / 10).push(digit_char((n % 10) as int))
    }
}

/// An integer in decimal.
pub open spec fn integer_text(n: int) -> Seq<char> {
    if n < 0 {
        seq!['-'] + natural_text((-n) as nat)
    } else {
        natural_text(n as nat)
    }
}

/// The lower-case hexadecimal digit of a number below sixteen.
pub open spec fn hex_char(n: int) -> char {
    if n < 10 {
        ('0' as int + n) as char
    } else {
        ('a' as int + n - 10) as char
    }
}

/// The lowest `width` hexadecimal digits of `n`, the highest of them first.
pub open spec fn hex_text(n: nat, width: nat) -> Seq<char>
    decreases width,
{
    if width == 0 {
        seq![]
    } else {
        hex_text(n / 16, (width - 1) as nat).push(hex_char((n % 16) as int))
    }
}

/// The parts in order, with `separator` between neighbours.
pub open spec fn joined(parts: Seq<Seq<char>>, separator: Seq<char>) -> Seq<char>
    decreases parts.len(),
{
    if parts.len() == 0 {
        seq![]
    } else if parts.len() == 1 {
        parts[0]
    } else {
        joined(parts.drop_last(), separator) + separator + parts.last()
    }
}

/// The views of a list of strings.
pub open spec fn views(strings: Seq<String>) -> Seq<Seq<char>> {
    strings.map_values(|s: String| s@)
}

/// The view of an optional string.
pub open spec fn opt_view(text: Option<String>) -> Option<Seq<char>> {
    match text {
        Some(text) => Some(text@),
        None => None,
    }
}

/// `str::trim`: the text without leading and trailing Unicode white space.
#[verifier::external_body]
pub(crate) fn trim(text: &str) -> (result: &str)
    ensures
        result@ == trimmed(text@),
{
    text.trim()
}

/// `str::trim_end_matches` with a character: the text without the run of that
/// character at its end.
#[verifier::external_body]
pub(crate) fn trim_end_matches(text: &str, c: char) -> (result: &str)
    ensures
        result@ == without_trailing(text@, c),
{
    text.trim_end_matches(c)
}

/// `str::replace`: every match of a non-empty `from`, left to right and without
/// overlap, gives way to `to`.
#[verifier::external_body]
pub(crate) fn replace(text: &str, from: &str, to: &str) -> (result: String)
    requires
        from@.len() > 0,
    ensures
        result@ == replaced(text@, from@, to@),
{
    text.replace(from, to)
}

/// `str::eq`: whether the two texts are the same characters.
#[verifier::external_body]
pub(crate) fn same_text(a: &str, b: &str) -> (result: bool)
    ensures
        result == (a@ == b@),
{
    a == b
}

/// `str::eq_ignore_ascii_case`: whether the two texts are the same up to the case
/// of ASCII letters.
#[verifier::external_body]
pub(crate) fn eq_ignore_ascii_case(a: &str, b: &str) -> (result: bool)
    ensures
        result == same_ignoring_ascii_case(a@, b@),
{
    a.eq_ignore_ascii_case(b)
}

/// `str::contains` with a character: whether the character occurs.
#[verifier::external_body]
pub(crate) fn contains_char(text: &str, c: char) -> (result: bool)
    ensures
        result == text@.contains(c),
{
    text.contains(c)
}

/// `str::parse::<i64>`: an optional sign and then digits only, where the number
/// fits; which way another text fails is not told apart.
#[verifier::external_body]
pub(crate) fn parse_i64(text: &str) -> (result: Option<i64>)
    ensures
        result == written_i64(text@),
{
    text.parse::<i64>().ok()
}

/// `String::push`: the character is added at the end.
pub assume_specification[ String::push ](text: &mut String, c: char)
    ensures
        final(text)@ == old(text)@.push(c),
;

/// A natural number in decimal.
pub fn natural_to_text(n: u128) -> (result: String)
    ensures
        result@ == natural_text(n as nat),
    decreases n,
{
    let digit: u8 = (n % 10) as u8;
    let mut text = if n < 10 {
        String::new()
    } else {
        natural_to_text(n / 10)
    };
    text.push((48 + digit) as char);
    proof {
        assert(((48 + digit) as u8) as char == digit_char(digit as int));
    }
    text
}

/// An integer in decimal.
pub fn integer_to_text(n: i64) -> (result: String)
    ensures
        result@ == integer_text(n as int),
{
    if n < 0 {
        let mut text = String::new();
        text.push('-');
        let magnitude: u128 = (-(n as i128)) as u128;
        text.append(natural_to_text(magnitude).as_str());
        text
    } else {
        natural_to_text(n as u128)
    }
}

/// A 64-bit number as exactly sixteen lower-case hexadecimal digits.
pub fn hex16(n: u64) -> (result: String)
    ensures
        result@ == hex_text(n as nat, 16),
{
    hex_digits(n, 16)
}

fn hex_digits(n: u64, width: u32) -> (result: String)
    ensures
        result@ == hex_text(n as nat, width as nat),
    decreases width,
{
    if width == 0 {
        String::new()
    } else {
        let mut text = hex_digits(n / 16, width - 1);
        let digit: u8 = (n % 16) as u8;
        text.push(if digit < 10 { (48 + digit) as char } else { (87 + digit) as char });
        text
    }
}

/// The strings in order, with `separator` between neighbours.
pub fn join(parts: &Vec<String>, separator: &str) -> (result: String)
    ensures
        result@ == joined(views(parts@), separator@),
{
    let mut text = String::new();
    let mut i: usize = 0;
    while i < parts.len()
        invariant
            i <= parts@.len(),
            text@ == joined(views(parts@.take(i as int)), separator@),
        decreases parts@.len() - i,
    {
        if i > 0 {
            text.append(separator);
        }
        text.append(parts[i].as_str());
        proof {
            let done = views(parts@.take(i + 1));
            assert(done.drop_last() =~= views(parts@.take(i as int)));
            assert(done.last() == parts@[i as int]@);
        }
        i = i + 1;
    }
    assert(parts@.take(parts@.len() as int) =~= parts@);
    text
}

/// The pieces of a text between its commas.
pub open spec fn comma_pieces(s: Seq<char>) -> Seq<Seq<char>>
    decreases s.len(),
{
    if s.len() == 0 {
        seq![s]
    } else {
        let pieces = comma_pieces(s.drop_last());
        if s.last() == ',' {
            pieces.push(seq![])
        } else {
            pieces.drop_last().push(pieces.last().push(s.last()))
        }
    }
}

/// The pieces without white space around them, the blank ones left out.
pub open spec fn kept_items(pieces: Seq<Seq<char>>) -> Seq<Seq<char>>
    decreases pieces.len(),
{
    if pieces.len() == 0 {
        seq![]
    } else if is_blank(pieces.last()) {
        kept_items(pieces.drop_last())
    } else {
        kept_items(pieces.drop_last()).push(trimmed(pieces.last()))
    }
}

/// The items of a comma-separated list.
pub open spec fn csv_items(s: Seq<char>) -> Seq<Seq<char>> {
    kept_items(comma_pieces(s))
}

fn keep_item(items: &mut Vec<String>, piece: &str)
    ensures
        views(final(items)@) == (if is_blank(piece@) {
            views(old(items)@)
        } else {
            views(old(items)@).push(trimmed(piece@))
        }),
{
    let item = trim(piece);
    if !item.is_empty() {
        let ghost before = items@;
        items.push(item.to_owned());
        assert(views(items@) =~= views(before).push(trimmed(piece@)));
    }
}

/// The items of a comma-separated list, trimmed, the blank ones left out.
pub fn split_csv(input: &str) -> (items: Vec<String>)
    ensures
        views(items@) == csv_items(input@),
{
    let mut items: Vec<String> = Vec::new();
    let mut piece = String::new();
    let ghost mut done: Seq<Seq<char>> = seq![];
    proof {
        assert(views(items@) =~= kept_items(done));
        assert(input@.take(0) =~= piece@);
        assert(comma_pieces(input@.take(0)) =~= done.push(piece@));
    }
    for c in it: input.chars()
        invariant
            it.seq() == input@,
            views(items@) == kept_items(done),
            comma_pieces(input@.take(it.index() as int)) == done.push(piece@),
    {
        proof {
            let next = input@.take(it.index() + 1);
            assert(next.drop_last() =~= input@.take(it.index() as int));
            assert(next.last() == c);
        }
        if c == ',' {
            keep_item(&mut items, piece.as_str());
            proof {
                assert(done.push(piece@).drop_last() =~= done);
                done = done.push(piece@);
            }
            piece = String::new();
            assert(comma_pieces(input@.take(it.index() + 1)) =~= done.push(piece@));
        } else {
            let ghost before = piece@;
            piece.push(c);
            assert(done.push(before).drop_last() =~= done);
            assert(comma_pieces(input@.take(it.index() + 1)) =~= done.push(piece@));
        }
    }
    keep_item(&mut items, piece.as_str());
    proof {
        assert(input@.take(input@.len() as int) =~= input@);
        assert(done.push(piece@).drop_last() =~= done);
    }
    items
}

/// Trimming keeps a run of the text, and no white space at its two ends.
proof fn lemma_trimmed_is_a_run(s: Seq<char>)
    ensures
        forall|c: char| trimmed(s).contains(c) ==> s.contains(c),
        trimmed(s).len() > 0 ==> !is_white_space(trimmed(s)[0]) && !is_white_space(
            trimmed(s).last(),
        ),
{
    lemma_trimmed_start_is_a_run(s);
    let rest = trimmed_start(s);
    lemma_trimmed_end_is_a_run(rest);
    assert forall|c: char| trimmed(s).contains(c) implies s.contains(c) by {
        assert(rest.contains(c));
    }
}

proof fn lemma_trimmed_start_is_a_run(s: Seq<char>)
    ensures
        forall|c: char| trimmed_start(s).contains(c) ==> s.contains(c),
        trimmed_start(s).len() > 0 ==> !is_white_space(trimmed_start(s)[0]),
    decreases s.len(),
{
    if s.len() > 0 && is_white_space(s[0]) {
        lemma_trimmed_start_is_a_run(s.skip(1));
        assert forall|c: char| trimmed_start(s).contains(c) implies s.contains(c) by {
            assert(s.skip(1).contains(c));
            let i = choose|i: int| 0 <= i < s.skip(1).len() && s.skip(1)[i] == c;
            assert(s[i + 1] == c);
        }
    }
}

proof fn lemma_trimmed_end_is_a_run(s: Seq<char>)
    ensures
        forall|c: char| trimmed_end(s).contains(c) ==> s.contains(c),
        trimmed_end(s).len() > 0 ==> !is_white_space(trimmed_end(s).last()) && trimmed_end(s)[0]
            == s[0],
    decreases s.len(),
{
    if s.len() > 0 && is_white_space(s.last()) {
        lemma_trimmed_end_is_a_run(s.drop_last());
        assert forall|c: char| trimmed_end(s).contains(c) implies s.contains(c) by {
            assert(s.drop_last().contains(c));
            let i = choose|i: int| 0 <= i < s.drop_last().len() && s.drop_last()[i] == c;
            assert(s[i] == c);
        }
    }
}

proof fn lemma_pieces_have_no_comma(s: Seq<char>)
    ensures
        comma_pieces(s).len() > 0,
        forall|i: int|
            0 <= i < comma_pieces(s).len() ==> !(#[trigger] comma_pieces(s)[i]).contains(','),
    decreases s.len(),
{
    if s.len() > 0 {
        let pieces = comma_pieces(s.drop_last());
        lemma_pieces_have_no_comma(s.drop_last());
        let last = pieces.last();
        assert(last == pieces[pieces.len() - 1]);
        assert forall|i: int| 0 <= i < comma_pieces(s).len() implies !(#[trigger] comma_pieces(
            s,
        )[i]).contains(',') by {
            if s.last() != ',' && i == comma_pieces(s).len() - 1 {
                let piece = last.push(s.last());
                assert(comma_pieces(s)[i] == piece);
                if piece.contains(',') {
                    let j = choose|j: int| 0 <= j < piece.len() && piece[j] == ',';
                    assert(last[j] == ',');
                }
            } else if i < pieces.len() {
                assert(comma_pieces(s)[i] == pieces[i]);
            }
        }
    }
}

proof fn lemma_kept_items_are_clean(pieces: Seq<Seq<char>>)
    requires
        forall|i: int| 0 <= i < pieces.len() ==> !(#[trigger] pieces[i]).contains(','),
    ensures
        forall|i: int|
            0 <= i < kept_items(pieces).len() ==> is_clean_item(#[trigger] kept_items(pieces)[i]),
    decreases pieces.len(),
{
    if pieces.len() > 0 {
        let before = pieces.drop_last();
        lemma_kept_items_are_clean(before);
        lemma_trimmed_is_a_run(pieces.last());
        assert(!pieces[pieces.len() - 1].contains(','));
        lemma_clean_is_trimmed(trimmed(pieces.last()));
        assert forall|i: int| 0 <= i < kept_items(pieces).len() implies is_clean_item(
            #[trigger] kept_items(pieces)[i],
        ) by {
            if i < kept_items(before).len() {
                assert(kept_items(pieces)[i] == kept_items(before)[i]);
            } else {
                assert(kept_items(pieces)[i] == trimmed(pieces.last()));
            }
        }
    }
}

/// Trimming leaves what stands between two positions of the text.
pub(crate) proof fn lemma_trimmed_is_a_subrange(s: Seq<char>) -> (range: (int, int))
    ensures
        0 <= range.0 <= range.1 <= s.len(),
        trimmed(s) == s.subrange(range.0, range.1),
{
    let start = lemma_trimmed_start_is_a_subrange(s);
    let end = lemma_trimmed_end_is_a_subrange(trimmed_start(s));
    assert(trimmed(s) =~= s.subrange(start, start + end));
    (start, start + end)
}

proof fn lemma_trimmed_start_is_a_subrange(s: Seq<char>) -> (start: int)
    ensures
        0 <= start <= s.len(),
        trimmed_start(s) == s.subrange(start, s.len() as int),
    decreases s.len(),
{
    if s.len() > 0 && is_white_space(s[0]) {
        let start = lemma_trimmed_start_is_a_subrange(s.skip(1));
        assert(trimmed_start(s) =~= s.subrange(start + 1, s.len() as int));
        start + 1
    } else {
        assert(s =~= s.subrange(0, s.len() as int));
        0
    }
}

proof fn lemma_trimmed_end_is_a_subrange(s: Seq<char>) -> (end: int)
    ensures
        0 <= end <= s.len(),
        trimmed_end(s) == s.subrange(0, end),
    decreases s.len(),
{
    if s.len() > 0 && is_white_space(s.last()) {
        let end = lemma_trimmed_end_is_a_subrange(s.drop_last());
        assert(trimmed_end(s) =~= s.subrange(0, end));
        end
    } else {
        assert(s =~= s.subrange(0, s.len() as int));
        s.len() as int
    }
}

/// A text without white space at its two ends is left by trimming as it is.
proof fn lemma_clean_is_trimmed(s: Seq<char>)
    requires
        s.len() > 0 ==> !is_white_space(s[0]) && !is_white_space(s.last()),
    ensures
        trimmed(s) == s,
{
}

/// Whether a text is a proper item: not empty, without white space around it, and without
/// a comma.
pub open spec fn is_clean_item(item: Seq<char>) -> bool {
    item.len() > 0 && trimmed(item) == item && !item.contains(',')
}

/// Every item of a comma-separated list is a proper one.
pub proof fn law_csv_items_are_clean(s: Seq<char>)
    ensures
        forall|i: int| 0 <= i < csv_items(s).len() ==> is_clean_item(#[trigger] csv_items(s)[i]),
{
    lemma_pieces_have_no_comma(s);
    lemma_kept_items_are_clean(comma_pieces(s));
}

/// Trimming a second time changes nothing.
pub proof fn law_trimming_twice_is_trimming_once(s: Seq<char>)
    ensures
        trimmed(trimmed(s)) == trimmed(s),
{
    lemma_trimmed_is_a_run(s);
    lemma_clean_is_trimmed(trimmed(s));
}

} // verus!
