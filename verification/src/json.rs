use vstd::prelude::*;

use crate::color::{hex_digit_char, hex_digit_value, lemma_hex_digit_char_cased};
use crate::text::{decimal, decimal_text};

verus! {

/// How serde_json writes one character inside a string literal: `"` and `\` and the control
/// characters below U+0020 are escaped (`\b \t \n \f \r`, else `\u00xx` with lower-case hex
/// digits); every other character stands for itself.
pub open spec fn json_char_escape(c: char) -> Seq<char> {
    let v = c as u32;
    if c == '"' {
        seq!['\\', '"']
    } else if c == '\\' {
        seq!['\\', '\\']
    } else if v == 8 {
        seq!['\\', 'b']
    } else if v == 9 {
        seq!['\\', 't']
    } else if v == 10 {
        seq!['\\', 'n']
    } else if v == 12 {
        seq!['\\', 'f']
    } else if v == 13 {
        seq!['\\', 'r']
    } else if v < 32 {
        seq!['\\', 'u', '0', '0', hex_digit_char((v / 16) as nat), hex_digit_char((v % 16) as nat)]
    } else {
        seq![c]
    }
}

/// The characters of `text`, each written as inside a JSON string literal.
pub open spec fn json_escaped(text: Seq<char>) -> Seq<char>
    decreases text.len(),
{
    if text.len() == 0 {
        Seq::empty()
    } else {
        json_escaped(text.drop_last()) + json_char_escape(text.last())
    }
}

/// The code point that one piece of a JSON string literal stands for, as JSON reads it: a
/// character other than `"`, `\` and the controls stands for itself; `\"`, `\\`, `\/`, `\b`,
/// `\f`, `\n`, `\r`, `\t` stand for their characters; `\uXXXX` for the code in base 16.
pub open spec fn json_reading(piece: Seq<char>) -> Option<u32> {
    if piece.len() == 1 && piece[0] != '"' && piece[0] != '\\' && piece[0] as u32 >= 32 {
        Some(piece[0] as u32)
    } else if piece.len() == 2 && piece[0] == '\\' {
        let x = piece[1];
        if x == '"' {
            Some(34)
        } else if x == '\\' {
            Some(92)
        } else if x == '/' {
            Some(47)
        } else if x == 'b' {
            Some(8)
        } else if x == 'f' {
            Some(12)
        } else if x == 'n' {
            Some(10)
        } else if x == 'r' {
            Some(13)
        } else if x == 't' {
            Some(9)
        } else {
            None
        }
    } else if piece.len() == 6 && piece[0] == '\\' && piece[1] == 'u' {
        match (
            hex_digit_value(piece[2]),
            hex_digit_value(piece[3]),
            hex_digit_value(piece[4]),
            hex_digit_value(piece[5]),
        ) {
            (Some(a), Some(b), Some(c), Some(d)) => Some((((a * 16 + b) * 16 + c) * 16 + d) as u32),
            _ => None,
        }
    } else {
        None
    }
}

/// Each character is written inside a JSON string literal as a piece that JSON reads back as
/// that very character.
pub proof fn law_json_escape_reads_back(c: char)
    ensures
        json_reading(json_char_escape(c)) == Some(c as u32),
{
    let v = c as u32;
    if v < 32 && v != 8 && v != 9 && v != 10 && v != 12 && v != 13 {
        lemma_hex_digit_char_cased((v / 16) as nat, false);
        lemma_hex_digit_char_cased((v % 16) as nat, false);
        assert(hex_digit_value('0') == Some(0nat));
        let e = json_char_escape(c);
        assert(e[2] == '0' && e[3] == '0');
        assert(((0 * 16 + 0) * 16 + (v / 16)) * 16 + v % 16 == v);
    }
}

/// A single character is written as its own piece.
pub proof fn law_json_escaped_single(c: char)
    ensures
        json_escaped(seq![c]) == json_char_escape(c),
{
    assert(seq![c].drop_last() =~= Seq::<char>::empty());
    assert(json_escaped(Seq::<char>::empty()) + json_char_escape(c) =~= json_char_escape(c));
}

/// A literal's contents are the pieces of its characters, in order: writing a text piece by
/// piece is writing its parts one after the other.
pub proof fn law_json_escaped_concatenates(a: Seq<char>, b: Seq<char>)
    ensures
        json_escaped(a + b) == json_escaped(a) + json_escaped(b),
    decreases b.len(),
{
    if b.len() == 0 {
        assert(a + b =~= a);
        assert(json_escaped(b) =~= Seq::<char>::empty());
    } else {
        law_json_escaped_concatenates(a, b.drop_last());
        assert((a + b).drop_last() =~= a + b.drop_last());
        assert((a + b).last() == b.last());
    }
}

/// The JSON string literal for `text`, as serde_json writes it.
pub open spec fn json_string_literal(text: Seq<char>) -> Seq<char> {
    seq!['"'] + json_escaped(text) + seq!['"']
}

/// Calls `serde_json::to_string` on a string. Claimed, as serde_json's serializer shows
/// (`format_escaped_str` with its `ESCAPE` table and `CompactFormatter::write_char_escape`):
/// the call never fails on a string and gives `json_string_literal` of its characters.
#[verifier::external_body]
fn json_quote(text: &str) -> (res: String)
    ensures
        res@ == json_string_literal(text@),
{
    match serde_json::to_string(text) {
        Ok(q) => q,
        Err(_) => String::new(),
    }
}

/// `{"<key>":<literal>}`, where `literal` is a JSON literal.
pub open spec fn json_object_text(key: Seq<char>, literal: Seq<char>) -> Seq<char> {
    "{\""@ + key + "\":"@ + literal + "}"@
}

/// `{"<key>":<value as a JSON string>}`.
pub open spec fn json_object_body(key: Seq<char>, value: Seq<char>) -> Seq<char> {
    json_object_text(key, json_string_literal(value))
}

/// Members joined with commas.
pub open spec fn join_members(members: Seq<Seq<char>>) -> Seq<char>
    decreases members.len(),
{
    if members.len() == 0 {
        Seq::empty()
    } else if members.len() == 1 {
        members[0]
    } else {
        join_members(members.drop_last()) + ","@ + members.last()
    }
}

/// One member `<label><literal>` when a literal is given, none otherwise.
pub open spec fn optional_member(label: Seq<char>, literal: Option<Seq<char>>) -> Seq<Seq<char>> {
    match literal {
        Some(q) => seq![label + q],
        None => Seq::empty(),
    }
}

/// The members of an embed object, in the key order serde_json's (sorted) object map keeps:
/// color, description, title; each one only when given. Description and title are given as
/// JSON literals.
pub open spec fn embed_members(
    title_literal: Option<Seq<char>>,
    description_literal: Option<Seq<char>>,
    color: Option<u32>,
) -> Seq<Seq<char>> {
    optional_member(
        "\"color\":"@,
        match color {
            Some(c) => Some(decimal_text(c as nat)),
            None => None,
        },
    ) + optional_member("\"description\":"@, description_literal) + optional_member(
        "\"title\":"@,
        title_literal,
    )
}

/// `{"embeds":[{<members>}]}`.
pub open spec fn embed_text(
    title_literal: Option<Seq<char>>,
    description_literal: Option<Seq<char>>,
    color: Option<u32>,
) -> Seq<char> {
    "{\"embeds\":[{"@ + join_members(embed_members(title_literal, description_literal, color))
        + "}]}"@
}

/// An optional text as an optional JSON string literal.
pub open spec fn literal_option(text: Option<Seq<char>>) -> Option<Seq<char>> {
    match text {
        Some(t) => Some(json_string_literal(t)),
        None => None,
    }
}

/// The body that posts an embed with the given title, description and color.
pub open spec fn embed_body(
    title: Option<Seq<char>>,
    description: Option<Seq<char>>,
    color: Option<u32>,
) -> Seq<char> {
    embed_text(literal_option(title), literal_option(description), color)
}

/// 1 when a part is given, 0 otherwise.
pub open spec fn given<A>(part: Option<A>) -> nat {
    if part is Some {
        1
    } else {
        0
    }
}

/// Each part of an embed that is given appears in it as its own member, whatever the other
/// parts are, and the embed holds nothing else: color, description and title each
/// independently.
pub proof fn law_embed_holds_each_given_part(
    title_literal: Option<Seq<char>>,
    description_literal: Option<Seq<char>>,
    color: Option<u32>,
)
    ensures
        embed_members(title_literal, description_literal, color).len() == given(title_literal)
            + given(description_literal) + given(color),
        description_literal matches Some(d) ==> embed_members(
            title_literal,
            description_literal,
            color,
        ).contains("\"description\":"@ + d),
        title_literal matches Some(t) ==> embed_members(
            title_literal,
            description_literal,
            color,
        ).contains("\"title\":"@ + t),
        color matches Some(v) ==> embed_members(title_literal, description_literal, color).contains(
            "\"color\":"@ + decimal_text(v as nat),
        ),
{
    let cm = optional_member(
        "\"color\":"@,
        match color {
            Some(c) => Some(decimal_text(c as nat)),
            None => None,
        },
    );
    let dm = optional_member("\"description\":"@, description_literal);
    let tm = optional_member("\"title\":"@, title_literal);
    let m = embed_members(title_literal, description_literal, color);
    assert(m == cm + dm + tm);
    if let Some(v) = color {
        assert(m[0] == "\"color\":"@ + decimal_text(v as nat));
    }
    if let Some(d) = description_literal {
        assert(m[cm.len() as int] == "\"description\":"@ + d);
    }
    if let Some(t) = title_literal {
        assert(m[(cm.len() + dm.len()) as int] == "\"title\":"@ + t);
    }
}

/// The body of an embed carries each given text as its JSON string literal.
pub proof fn law_embed_body_literals(
    title: Option<Seq<char>>,
    description: Option<Seq<char>>,
    color: Option<u32>,
)
    ensures
        embed_body(title, description, color) == embed_text(
            literal_option(title),
            literal_option(description),
            color,
        ),
        description matches Some(d) ==> literal_option(description) == Some(json_string_literal(d)),
        title matches Some(t) ==> literal_option(title) == Some(json_string_literal(t)),
        given(literal_option(title)) == given(title),
        given(literal_option(description)) == given(description),
{
}

pub open spec fn opt_str_ref_view(o: Option<&str>) -> Option<Seq<char>> {
    match o {
        Some(s) => Some(s@),
        None => None,
    }
}

/// `{"<key>":<literal>}`, for `literal` a JSON literal.
pub fn json_object_from(key: &str, literal: &str) -> (res: String)
    ensures
        res@ == json_object_text(key@, literal@),
{
    let mut body = "{\"".to_owned();
    body.append(key);
    body.append("\":");
    body.append(literal);
    body.append("}");
    body
}

/// `{"<key>":<value as a JSON string>}`.
pub fn json_object(key: &str, value: &str) -> (res: String)
    ensures
        res@ == json_object_body(key@, value@),
{
    let literal = json_quote(value);
    json_object_from(key, literal.as_str())
}

fn quote_option(text: Option<&str>) -> (res: Option<String>)
    ensures
        match text {
            Some(t) => res matches Some(q) && q@ == json_string_literal(t@),
            None => res is None,
        },
{
    match text {
        None => None,
        Some(t) => Some(json_quote(t)),
    }
}

fn join_with_commas(members: &Vec<String>) -> (res: String)
    ensures
        res@ == join_members(members@.map_values(|m: String| m@)),
{
    let ghost views = members@.map_values(|m: String| m@);
    let mut res = String::new();
    let mut i: usize = 0;
    while i < members.len()
        invariant
            i <= members@.len(),
            views == members@.map_values(|m: String| m@),
            res@ == join_members(views.subrange(0, i as int)),
        decreases members@.len() - i,
    {
        let ghost before = views.subrange(0, i as int);
        let ghost after = views.subrange(0, i + 1);
        assert(after.drop_last() =~= before);
        assert(after.last() == members[i as int]@);
        if i > 0 {
            res.append(",");
        } else {
            assert(before.len() == 0);
            assert(res@ =~= Seq::<char>::empty());
        }
        res.append(members[i].as_str());
        proof {
            if i == 0 {
                assert(res@ =~= after[0]);
            }
        }
        i = i + 1;
    }
    assert(views.subrange(0, i as int) =~= views);
    res
}

fn push_member(members: &mut Vec<String>, label: &str, literal: Option<&str>)
    ensures
        final(members)@.map_values(|m: String| m@) == old(members)@.map_values(|m: String| m@)
            + optional_member(label@, opt_str_ref_view(literal)),
{
    let ghost before = members@.map_values(|m: String| m@);
    if let Some(q) = literal {
        let mut m = label.to_owned();
        m.append(q);
        members.push(m);
        assert(members@.map_values(|m: String| m@) =~= before.push(label@ + q@));
    } else {
        assert(members@.map_values(|m: String| m@) =~= before);
    }
    assert(final(members)@.map_values(|m: String| m@) =~= old(members)@.map_values(|m: String| m@)
        + optional_member(label@, opt_str_ref_view(literal))) by {
        assert(before =~= old(members)@.map_values(|m: String| m@));
    }
}

/// The body that posts an embed whose description and title are given as JSON literals.
pub fn embed_from(title_literal: Option<&str>, description_literal: Option<&str>, color: Option<u32>) -> (res: String)
    ensures
        res@ == embed_text(opt_str_ref_view(title_literal), opt_str_ref_view(description_literal), color),
{
    let mut members: Vec<String> = Vec::new();
    assert(members@.map_values(|m: String| m@) =~= Seq::<Seq<char>>::empty());
    let digits = match color {
        Some(c) => Some(decimal(c)),
        None => None,
    };
    let digits_ref: Option<&str> = match &digits {
        Some(d) => Some(d.as_str()),
        None => None,
    };
    push_member(&mut members, "\"color\":", digits_ref);
    push_member(&mut members, "\"description\":", description_literal);
    push_member(&mut members, "\"title\":", title_literal);
    assert(members@.map_values(|m: String| m@) =~= embed_members(
        opt_str_ref_view(title_literal),
        opt_str_ref_view(description_literal),
        color,
    ));
    let mut body = "{\"embeds\":[{".to_owned();
    let joined = join_with_commas(&members);
    body.append(joined.as_str());
    body.append("}]}");
    body
}

/// The body that posts an embed with the given title, description and color; absent parts
/// are left out.
pub fn embed(title: Option<&str>, description: Option<&str>, color: Option<u32>) -> (res: String)
    ensures
        res@ == embed_body(opt_str_ref_view(title), opt_str_ref_view(description), color),
{
    let title_literal = quote_option(title);
    let description_literal = quote_option(description);
    let title_ref: Option<&str> = match &title_literal {
        Some(t) => Some(t.as_str()),
        None => None,
    };
    let description_ref: Option<&str> = match &description_literal {
        Some(d) => Some(d.as_str()),
        None => None,
    };
    embed_from(title_ref, description_ref, color)
}

/// What serde_json makes of a JSON text read into a `serde_json::Value` and written back with
/// `to_string_pretty`; `None` when the text is not JSON.
pub uninterp spec fn json_reformatted(text: Seq<char>) -> Option<Seq<char>>;

/// The `url` member of the JSON text's value, as serde_json reads it: `Some(None)` when the
/// value has no `url` member that is a string, `None` when the text is not JSON.
pub uninterp spec fn json_url_member(text: Seq<char>) -> Option<Option<Seq<char>>>;

/// Reads `text` with `serde_json::from_str` into a `serde_json::Value` and writes it back with
/// `serde_json::to_string_pretty`. Claimed: the result is a function of the text alone
/// (`json_reformatted`), `None` exactly when serde_json reports an error. Nothing is claimed
/// about the form of the pretty text.
#[verifier::external_body]
pub(crate) fn reformat_json(text: &str) -> (res: Option<String>)
    ensures
        match res {
            Some(p) => json_reformatted(text@) == Some(p@),
            None => json_reformatted(text@) is None,
        },
{
    match serde_json::from_str::<serde_json::Value>(text) {
        Ok(value) => match serde_json::to_string_pretty(&value) {
            Ok(p) => Some(p),
            Err(_) => None,
        },
        Err(_) => None,
    }
}

/// Reads `text` with `serde_json::from_str` into a `serde_json::Value` and picks its `url`
/// member with `as_str`. Claimed: the result is a function of the text alone
/// (`json_url_member`), `None` exactly when the text does not parse.
#[verifier::external_body]
pub(crate) fn url_member(text: &str) -> (res: Option<Option<String>>)
    ensures
        match res {
            Some(Some(u)) => json_url_member(text@) == Some(Some(u@)),
            Some(None) => json_url_member(text@) == Some(None::<Seq<char>>),
            None => json_url_member(text@) is None,
        },
{
    match serde_json::from_str::<serde_json::Value>(text) {
        Ok(value) => match value["url"].as_str() {
            Some(u) => Some(Some(u.to_owned())),
            None => Some(None),
        },
        Err(_) => None,
    }
}

} // verus!
