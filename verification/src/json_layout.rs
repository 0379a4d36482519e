//! JSON texts: how objects and strings are written, with white space between their parts, and
//! what value they write.
use crate::json::{no_entries, one_text, quoted, quoted_char, quoted_chars, read_json, Json};
use crate::text::{hex_char, hex_text};
use vstd::prelude::*;

verus! {

/// How a JSON value is written.
pub enum Layout {
    /// A string, by what stands between its quotes.
    Text(Seq<char>),
    /// An object, by its members.
    Object(Seq<Member>),
}

/// How a member of a JSON object is written.
pub struct Member {
    /// The white space before the key.
    pub gap: Seq<char>,
    /// What stands between the quotes of the key.
    pub key: Seq<char>,
    /// The white space behind the colon.
    pub colon_gap: Seq<char>,
    pub value: Layout,
    /// The white space behind the value.
    pub end_gap: Seq<char>,
}

/// Whether a character is white space between the parts of a JSON text.
pub open spec fn is_gap_char(c: char) -> bool {
    c == ' ' || c == '\n' || c == '\r' || c == '\t'
}

/// Whether a text is white space between the parts of a JSON text.
pub open spec fn is_gap(text: Seq<char>) -> bool {
    forall|i: int| 0 <= i < text.len() ==> is_gap_char(#[trigger] text[i])
}

/// The number that a lower-case hexadecimal digit stands for.
pub open spec fn hex_value(c: char) -> int {
    if '0' <= c <= '9' {
        c as int - '0' as int
    } else {
        c as int - 'a' as int + 10
    }
}

/// Whether a character is a lower-case hexadecimal digit.
pub open spec fn is_hex_char(c: char) -> bool {
    '0' <= c <= '9' || 'a' <= c <= 'f'
}

/// The character that the beginning of a text writes inside a JSON string: a character that
/// stands for itself, or a backslash and what is escaped by it. Control characters and quotes
/// stand for nothing.
pub open spec fn first_char(text: Seq<char>) -> Option<char> {
    if text.len() == 0 {
        None
    } else if text[0] != '\\' {
        if text[0] == '"' || (text[0] as u32) < 0x20 {
            None
        } else {
            Some(text[0])
        }
    } else if text.len() == 1 {
        None
    } else if text[1] == '\\' || text[1] == '"' {
        Some(text[1])
    } else if text[1] == 'b' {
        Some(0x8u8 as char)
    } else if text[1] == 't' {
        Some('\t')
    } else if text[1] == 'n' {
        Some('\n')
    } else if text[1] == 'f' {
        Some(0xCu8 as char)
    } else if text[1] == 'r' {
        Some('\r')
    } else if text[1] == 'u' && text.len() >= 6 && text[2] == '0' && text[3] == '0' && (text[4]
        == '0' || text[4] == '1') && is_hex_char(text[5]) {
        Some((hex_value(text[4]) * 16 + hex_value(text[5])) as char)
    } else {
        None
    }
}

/// How many characters write the first one.
pub open spec fn first_len(text: Seq<char>) -> int {
    if text.len() > 0 && text[0] != '\\' {
        1
    } else if text.len() > 1 && text[1] == 'u' {
        6
    } else {
        2
    }
}

/// Whether a text can stand between the quotes of a JSON string: control characters and quotes
/// are escaped, and besides them only backslashes are.
pub open spec fn is_string_body(text: Seq<char>) -> bool
    decreases text.len(),
{
    text.len() == 0 || (first_char(text) is Some && is_string_body(text.skip(first_len(text))))
}

/// The text that is written between the quotes of a JSON string.
pub open spec fn string_text(body: Seq<char>) -> Seq<char>
    decreases body.len(),
{
    if body.len() == 0 || first_char(body) is None {
        seq![]
    } else {
        seq![first_char(body)->0] + string_text(body.skip(first_len(body)))
    }
}

/// What writes one character, before what writes others.
pub(crate) proof fn lemma_one_more_char(head: Seq<char>, c: char, rest: Seq<char>)
    requires
        first_char(head) == Some(c),
        first_len(head) == head.len(),
        is_string_body(rest),
    ensures
        is_string_body(head + rest),
        string_text(head + rest) == seq![c] + string_text(rest),
{
    let all = head + rest;
    assert(all[0] == head[0]);
    assert(first_char(all) == Some(c));
    assert(first_len(all) == head.len());
    assert(all.skip(head.len() as int) =~= rest);
}

/// Whether a layout writes a JSON value, with at most `depth` objects inside each other and no
/// object without members.
pub open spec fn is_proper(layout: Layout, depth: nat) -> bool
    decreases depth,
{
    match layout {
        Layout::Text(body) => is_string_body(body),
        Layout::Object(members) => depth > 0 && members.len() > 0 && forall|i: int|
            0 <= i < members.len() ==> is_proper_member(
                #[trigger] members[i],
            ) && is_proper(members[i].value, (depth - 1) as nat),
    }
}

/// Whether the parts of a member other than its value are well written.
pub open spec fn is_proper_member(member: Member) -> bool {
    is_gap(member.gap) && is_string_body(member.key) && is_gap(member.colon_gap) && is_gap(
        member.end_gap,
    )
}

/// The text of a layout, followed by `rest`.
pub open spec fn layout_then(layout: Layout, rest: Seq<char>) -> Seq<char>
    decreases layout,
{
    match layout {
        Layout::Text(body) => seq!['"'] + (body + (seq!['"'] + rest)),
        Layout::Object(members) => seq!['{'] + members_then(members, rest),
    }
}

/// The text of a member, followed by `rest`.
pub open spec fn member_then(member: Member, rest: Seq<char>) -> Seq<char>
    decreases member,
{
    member.gap + (seq!['"'] + (member.key + (seq!['"'] + (seq![':'] + (member.colon_gap
        + layout_then(member.value, member.end_gap + rest))))))
}

/// The texts of members and the end of their object, followed by `rest`.
pub open spec fn members_then(members: Seq<Member>, rest: Seq<char>) -> Seq<char>
    decreases members,
{
    if members.len() == 0 {
        seq!['}'] + rest
    } else if members.len() == 1 {
        member_then(members[0], seq!['}'] + rest)
    } else {
        member_then(members[0], seq![','] + members_then(members.skip(1), rest))
    }
}

/// The value that a layout writes. Of members with the same key, the last counts.
pub open spec fn layout_json(layout: Layout) -> Json
    decreases layout,
{
    match layout {
        Layout::Text(body) => Json::Text(string_text(body)),
        Layout::Object(members) => Json::Object(with_members(no_entries(), members)),
    }
}

/// Entries with those of members added, one after the other.
pub open spec fn with_members(entries: Map<Seq<char>, Json>, members: Seq<Member>) -> Map<
    Seq<char>,
    Json,
>
    decreases members,
{
    if members.len() == 0 {
        entries
    } else {
        with_members(
            entries.insert(string_text(members[0].key), layout_json(members[0].value)),
            members.skip(1),
        )
    }
}

/// Whether a text is that of a layout, and so writes a JSON value of objects and strings. No
/// more than 127 objects stand inside each other.
pub open spec fn is_layout_text(text: Seq<char>) -> bool {
    exists|layout: Layout| #[trigger]
        is_proper(layout, 127) && layout_then(layout, seq![]) == text
}

/// The value that the text of a layout writes.
pub open spec fn json_written(text: Seq<char>) -> Json {
    layout_json(
        choose|layout: Layout| #[trigger]
            is_proper(layout, 127) && layout_then(layout, seq![]) == text,
    )
}

proof fn lemma_gaps_agree(a: Seq<char>, b: Seq<char>, x: Seq<char>, y: Seq<char>)
    requires
        is_gap(a),
        is_gap(b),
        x.len() > 0 && !is_gap_char(x[0]),
        y.len() > 0 && !is_gap_char(y[0]),
        a + x == b + y,
    ensures
        a == b,
        x == y,
{
    let text = a + x;
    if a.len() < b.len() {
        assert(text[a.len() as int] == x[0]);
        assert((b + y)[a.len() as int] == b[a.len() as int]);
    } else if b.len() < a.len() {
        assert((b + y)[b.len() as int] == y[0]);
        assert(text[b.len() as int] == a[b.len() as int]);
    }
    lemma_same_length_splits(a, b, x, y);
}

/// Two texts in a row that agree, the first ones of the same length, agree one by one.
proof fn lemma_same_length_splits(a: Seq<char>, b: Seq<char>, x: Seq<char>, y: Seq<char>)
    requires
        a.len() == b.len(),
        a + x == b + y,
    ensures
        a == b,
        x == y,
{
    assert(a =~= (a + x).take(a.len() as int));
    assert(b =~= (b + y).take(b.len() as int));
    assert(x =~= (a + x).skip(a.len() as int));
    assert(y =~= (b + y).skip(b.len() as int));
}

proof fn lemma_bodies_agree(a: Seq<char>, b: Seq<char>, x: Seq<char>, y: Seq<char>)
    requires
        is_string_body(a),
        is_string_body(b),
        a + (seq!['"'] + x) == b + (seq!['"'] + y),
    ensures
        a == b,
        x == y,
    decreases a.len(),
{
    let s = a + (seq!['"'] + x);
    let t = b + (seq!['"'] + y);
    if a.len() == 0 || b.len() == 0 {
        if a.len() > 0 {
            assert(s[0] == a[0] && t[0] == '"');
        }
        if b.len() > 0 {
            assert(s[0] == '"' && t[0] == b[0]);
        }
        lemma_same_length_splits(a, b, seq!['"'] + x, seq!['"'] + y);
        lemma_same_length_splits(seq!['"'], seq!['"'], x, y);
    } else {
        assert(s[0] == a[0] && t[0] == b[0]);
        if a[0] == '\\' {
            assert(s[1] == a[1] && t[1] == b[1]);
        }
        let n = first_len(a);
        assert(first_len(b) == n);
        assert(s.skip(n) =~= a.skip(n) + (seq!['"'] + x));
        assert(t.skip(n) =~= b.skip(n) + (seq!['"'] + y));
        lemma_bodies_agree(a.skip(n), b.skip(n), x, y);
        assert(a.take(n) =~= s.take(n));
        assert(b.take(n) =~= t.take(n));
        assert(a =~= a.take(n) + a.skip(n));
        assert(b =~= b.take(n) + b.skip(n));
    }
}

proof fn lemma_layout_begins(layout: Layout, rest: Seq<char>)
    ensures
        layout_then(layout, rest).len() > 0,
        !is_gap_char(layout_then(layout, rest)[0]),
        layout is Text <==> layout_then(layout, rest)[0] == '"',
{
}

/// A text is that of one value only, and ends in one place only.
proof fn lemma_layouts_agree(a: Layout, b: Layout, depth: nat, x: Seq<char>, y: Seq<char>)
    requires
        is_proper(a, depth),
        is_proper(b, depth),
        layout_then(a, x) == layout_then(b, y),
    ensures
        layout_json(a) == layout_json(b),
        x == y,
    decreases depth, 0nat,
{
    lemma_layout_begins(a, x);
    lemma_layout_begins(b, y);
    match (a, b) {
        (Layout::Text(p), Layout::Text(q)) => {
            lemma_same_length_splits(
                seq!['"'],
                seq!['"'],
                p + (seq!['"'] + x),
                q + (seq!['"'] + y),
            );
            lemma_bodies_agree(p, q, x, y);
        },
        (Layout::Object(members), Layout::Object(others)) => {
            lemma_same_length_splits(
                seq!['{'],
                seq!['{'],
                members_then(members, x),
                members_then(others, y),
            );
            lemma_members_agree(members, others, (depth - 1) as nat, no_entries(), x, y);
        },
        _ => {},
    }
}

proof fn lemma_members_agree(
    members: Seq<Member>,
    others: Seq<Member>,
    depth: nat,
    entries: Map<Seq<char>, Json>,
    x: Seq<char>,
    y: Seq<char>,
)
    requires
        members.len() > 0,
        others.len() > 0,
        forall|i: int|
            0 <= i < members.len() ==> is_proper_member(#[trigger] members[i]) && is_proper(
                members[i].value,
                depth,
            ),
        forall|i: int|
            0 <= i < others.len() ==> is_proper_member(#[trigger] others[i]) && is_proper(
                others[i].value,
                depth,
            ),
        members_then(members, x) == members_then(others, y),
    ensures
        with_members(entries, members) == with_members(entries, others),
        x == y,
    decreases depth, members.len() + 1,
{
    let a = members[0];
    let b = others[0];
    let rest_a = if members.len() == 1 {
        seq!['}'] + x
    } else {
        seq![','] + members_then(members.skip(1), x)
    };
    let rest_b = if others.len() == 1 {
        seq!['}'] + y
    } else {
        seq![','] + members_then(others.skip(1), y)
    };
    lemma_member_agrees(a, b, depth, rest_a, rest_b);
    let added = entries.insert(string_text(a.key), layout_json(a.value));
    assert(rest_a[0] == rest_b[0]);
    if members.len() == 1 {
        lemma_same_length_splits(seq!['}'], seq!['}'], x, y);
        assert(with_members(added, members.skip(1)) == added);
        assert(with_members(added, others.skip(1)) == added);
    } else {
        let after = members.skip(1);
        let others_after = others.skip(1);
        lemma_same_length_splits(
            seq![','],
            seq![','],
            members_then(after, x),
            members_then(others_after, y),
        );
        assert forall|i: int| 0 <= i < after.len() implies is_proper_member(#[trigger] after[i])
            && is_proper(after[i].value, depth) by {
            assert(after[i] == members[i + 1]);
        }
        assert forall|i: int| 0 <= i < others_after.len() implies is_proper_member(
            #[trigger] others_after[i],
        ) && is_proper(others_after[i].value, depth) by {
            assert(others_after[i] == others[i + 1]);
        }
        lemma_members_agree(after, others_after, depth, added, x, y);
    }
}

proof fn lemma_member_agrees(a: Member, b: Member, depth: nat, x: Seq<char>, y: Seq<char>)
    requires
        is_proper_member(a),
        is_proper_member(b),
        is_proper(a.value, depth),
        is_proper(b.value, depth),
        member_then(a, x) == member_then(b, y),
        x.len() > 0 && (x[0] == ',' || x[0] == '}'),
        y.len() > 0 && (y[0] == ',' || y[0] == '}'),
    ensures
        a.key == b.key,
        layout_json(a.value) == layout_json(b.value),
        x == y,
    decreases depth, 1nat,
{
    let value_a = layout_then(a.value, a.end_gap + x);
    let value_b = layout_then(b.value, b.end_gap + y);
    let colon_a = seq![':'] + (a.colon_gap + value_a);
    let colon_b = seq![':'] + (b.colon_gap + value_b);
    let key_a = a.key + (seq!['"'] + colon_a);
    let key_b = b.key + (seq!['"'] + colon_b);
    lemma_gaps_agree(a.gap, b.gap, seq!['"'] + key_a, seq!['"'] + key_b);
    lemma_same_length_splits(seq!['"'], seq!['"'], key_a, key_b);
    lemma_bodies_agree(a.key, b.key, colon_a, colon_b);
    lemma_same_length_splits(seq![':'], seq![':'], a.colon_gap + value_a, b.colon_gap + value_b);
    lemma_layout_begins(a.value, a.end_gap + x);
    lemma_layout_begins(b.value, b.end_gap + y);
    lemma_gaps_agree(a.colon_gap, b.colon_gap, value_a, value_b);
    lemma_layouts_agree(a.value, b.value, depth, a.end_gap + x, b.end_gap + y);
    lemma_gaps_agree(a.end_gap, b.end_gap, x, y);
}

/// How `quoted_char` writes a character.
proof fn lemma_quoted_char(c: char)
    ensures
        first_char(quoted_char(c)) == Some(c),
        first_len(quoted_char(c)) == quoted_char(c).len(),
{
    let code = c as u32;
    let digits = hex_text(code as nat, 4);
    if code < 0x20 {
        reveal_with_fuel(hex_text, 5);
        assert(digits =~= seq![
            hex_char(0),
            hex_char(0),
            hex_char(code as int / 16),
            hex_char(code as int % 16),
        ]);
    }
}

/// A text that is quoted can be read back.
pub proof fn law_quoted_text_can_be_read_back(text: Seq<char>)
    ensures
        is_string_body(quoted_chars(text)),
        string_text(quoted_chars(text)) == text,
    decreases text.len(),
{
    if text.len() > 0 {
        law_quoted_text_can_be_read_back(text.skip(1));
        lemma_quoted_char(text[0]);
        lemma_one_more_char(quoted_char(text[0]), text[0], quoted_chars(text.skip(1)));
        assert(seq![text[0]] + text.skip(1) =~= text);
    }
}

/// An object with one text in it, written without spaces, is read back.
pub proof fn law_one_text_can_be_read_back(key: Seq<char>, text: Seq<char>)
    ensures
        read_json(seq!['{'] + quoted(key) + seq![':'] + quoted(text) + seq!['}']) == Some(
            one_text(key, text),
        ),
{
    let nothing: Seq<char> = seq![];
    let member = Member {
        gap: nothing,
        key: quoted_chars(key),
        colon_gap: nothing,
        value: Layout::Text(quoted_chars(text)),
        end_gap: nothing,
    };
    let members = seq![member];
    let layout = Layout::Object(members);
    law_quoted_text_can_be_read_back(key);
    law_quoted_text_can_be_read_back(text);
    assert(is_proper(member.value, 126));
    assert(is_proper(layout, 127));
    let end = seq!['}'] + nothing;
    assert(layout_then(member.value, member.end_gap + end) == seq!['"'] + (quoted_chars(text) + (
    seq!['"'] + (nothing + end))));
    assert(layout_then(layout, nothing) == seq!['{'] + member_then(member, end));
    assert(layout_then(layout, nothing) =~= seq!['{'] + quoted(key) + seq![':'] + quoted(text)
        + seq!['}']);
    let one = no_entries().insert(key, Json::Text(text));
    assert(members.skip(1).len() == 0);
    assert(with_members(one, members.skip(1)) == one);
    assert(members[0] == member);
    assert(layout_json(member.value) == Json::Text(text));
    assert(with_members(no_entries(), members) == one);
    law_layout_text_writes_its_value(layout);
}

/// The text of a layout writes the value of that layout, and no other.
pub proof fn law_layout_text_writes_its_value(layout: Layout)
    requires
        is_proper(layout, 127),
    ensures
        is_layout_text(layout_then(layout, seq![])),
        json_written(layout_then(layout, seq![])) == layout_json(layout),
{
    let text = layout_then(layout, seq![]);
    let other = choose|other: Layout| #[trigger]
        is_proper(other, 127) && layout_then(other, seq![]) == text;
    lemma_layouts_agree(layout, other, 127, seq![], seq![]);
}

} // verus!
