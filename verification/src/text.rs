use vstd::prelude::*;
use vstd::utf8::{decode_utf8, encode_utf8, is_char_boundary, valid_utf8};

verus! {

broadcast use vstd::utf8::encode_utf8_decode_utf8;

/// Masking cuts a long url after its 40th byte and before its last 10 bytes; both cuts must
/// fall between characters.
pub open spec fn mask_defined(url: Seq<char>) -> bool {
    let b = encode_utf8(url);
    b.len() > 50 ==> is_char_boundary(b, 40) && is_char_boundary(b, b.len() - 10)
}

/// A url as the configuration listing shows it: urls of at most 50 bytes in full, longer
/// ones as their first 40 bytes, "...", and their last 10 bytes.
pub open spec fn masked(url: Seq<char>) -> Seq<char> {
    let b = encode_utf8(url);
    if b.len() <= 50 {
        url
    } else {
        decode_utf8(b.subrange(0, 40)) + "..."@ + decode_utf8(b.subrange(b.len() - 10, b.len() as int))
    }
}

/// Whether `mask_webhook` can cut `url`.
pub fn mask_webhook_defined(url: &str) -> (res: bool)
    ensures
        res == mask_defined(url@),
{
    let len = url.as_bytes().len();
    len <= 50 || (url.is_char_boundary(40) && url.is_char_boundary(len - 10))
}

/// Shortens a webhook url for display, keeping its first 40 and last 10 bytes.
pub fn mask_webhook(url: &str) -> (res: String)
    requires
        mask_defined(url@),
    ensures
        res@ == masked(url@),
{
    let len = url.as_bytes().len();
    if len <= 50 {
        return url.to_owned();
    }
    let (head, _) = url.split_at(40);
    let (_, tail) = url.split_at(len - 10);
    let mut res = head.to_owned();
    res.append("...");
    res.append(tail);
    res
}

/// The decimal digit for `d < 10`.
pub open spec fn decimal_digit_char(d: nat) -> char {
    if d == 0 { '0' } else if d == 1 { '1' } else if d == 2 { '2' } else if d == 3 { '3' }
    else if d == 4 { '4' } else if d == 5 { '5' } else if d == 6 { '6' } else if d == 7 { '7' }
    else if d == 8 { '8' } else { '9' }
}

/// `n` in decimal, without leading zeros.
pub open spec fn decimal_text(n: nat) -> Seq<char>
    decreases n,
{
    if n < 10 {
        seq![decimal_digit_char(n)]
    } else {
        decimal_text(n / 10).push(decimal_digit_char(n % 10))
    }
}

fn digit_str(d: u32) -> (res: &'static str)
    requires
        d < 10,
    ensures
        res@ == seq![decimal_digit_char(d as nat)],
{
    proof {
        reveal_strlit("0");
        reveal_strlit("1");
        reveal_strlit("2");
        reveal_strlit("3");
        reveal_strlit("4");
        reveal_strlit("5");
        reveal_strlit("6");
        reveal_strlit("7");
        reveal_strlit("8");
        reveal_strlit("9");
    }
    let res = if d == 0 { "0" } else if d == 1 { "1" } else if d == 2 { "2" } else if d == 3 { "3" }
    else if d == 4 { "4" } else if d == 5 { "5" } else if d == 6 { "6" } else if d == 7 { "7" }
    else if d == 8 { "8" } else { "9" };
    assert(res@ =~= seq![decimal_digit_char(d as nat)]);
    res
}

/// `n` written in decimal.
pub fn decimal(n: u32) -> (res: String)
    ensures
        res@ == decimal_text(n as nat),
    decreases n,
{
    if n < 10 {
        digit_str(n).to_owned()
    } else {
        let mut res = decimal(n / 10);
        res.append(digit_str(n % 10));
        res
    }
}

proof fn lemma_encode_concat(a: Seq<char>, b: Seq<char>)
    ensures
        encode_utf8(a + b) == encode_utf8(a) + encode_utf8(b),
    decreases a.len(),
{
    if a.len() == 0 {
        assert(a + b =~= b);
        assert(encode_utf8(a) =~= Seq::<u8>::empty());
    } else {
        assert((a + b)[0] == a[0]);
        assert((a + b).drop_first() =~= a.drop_first() + b);
        lemma_encode_concat(a.drop_first(), b);
    }
}

/// A masked url keeps exactly the first 40 and the last 10 bytes of a long url, with "..."
/// between them; a url of at most 50 bytes is shown as it is.
pub proof fn law_mask_keeps_ends(url: Seq<char>)
    requires
        mask_defined(url),
    ensures
        encode_utf8(url).len() <= 50 ==> masked(url) == url,
        encode_utf8(url).len() > 50 ==> encode_utf8(masked(url)) == encode_utf8(url).subrange(0, 40)
            + encode_utf8("..."@) + encode_utf8(url).subrange(
            encode_utf8(url).len() - 10,
            encode_utf8(url).len() as int,
        ),
{
    broadcast use vstd::utf8::encode_utf8_valid_utf8, vstd::utf8::valid_utf8_split, vstd::utf8::decode_utf8_encode_utf8;

    let b = encode_utf8(url);
    if b.len() > 50 {
        let head = b.subrange(0, 40);
        let tail = b.subrange(b.len() - 10, b.len() as int);
        assert(valid_utf8(b));
        assert(valid_utf8(head));
        assert(valid_utf8(tail));
        let d1 = decode_utf8(head);
        let d2 = decode_utf8(tail);
        lemma_encode_concat(d1, "..."@);
        lemma_encode_concat(d1 + "..."@, d2);
        assert(encode_utf8(d1) == head);
        assert(encode_utf8(d2) == tail);
    }
}

/// A character among `0`..=`9`.
pub open spec fn is_decimal_digit(c: char) -> bool {
    '0' as u32 <= c as u32 && c as u32 <= '9' as u32
}

/// The number that a text of decimal digits denotes, each digit at its own value
/// (its distance from `0`).
pub open spec fn decimal_reading(text: Seq<char>) -> int
    decreases text.len(),
{
    if text.len() == 0 {
        0
    } else {
        decimal_reading(text.drop_last()) * 10 + (text.last() as u32 - '0' as u32)
    }
}

proof fn lemma_decimal_digit_char(d: nat)
    requires
        d < 10,
    ensures
        is_decimal_digit(decimal_digit_char(d)),
        decimal_digit_char(d) as u32 - '0' as u32 == d,
{
}

/// The decimal text of a number denotes that number: it is made of decimal digits, has no
/// leading zero, and read back in base 10 gives the number.
pub proof fn law_decimal_text_denotes(n: nat)
    ensures
        decimal_text(n).len() >= 1,
        forall|i: int| 0 <= i < decimal_text(n).len() ==> is_decimal_digit(#[trigger] decimal_text(n)[i]),
        decimal_reading(decimal_text(n)) == n,
        n >= 10 ==> decimal_text(n)[0] != '0',
    decreases n,
{
    lemma_decimal_digit_char(n % 10);
    if n < 10 {
        assert(decimal_text(n).drop_last() =~= Seq::<char>::empty());
        assert(decimal_text(n).last() == decimal_digit_char(n));
        assert(decimal_reading(Seq::<char>::empty()) == 0);
        assert(decimal_reading(decimal_text(n)) == decimal_reading(decimal_text(n).drop_last()) * 10
            + (decimal_text(n).last() as u32 - '0' as u32));
    } else {
        law_decimal_text_denotes(n / 10);
        let t = decimal_text(n);
        assert(t.drop_last() == decimal_text(n / 10));
        assert(t.last() == decimal_digit_char(n % 10));
        assert(forall|i: int| 0 <= i < t.len() - 1 ==> t[i] == decimal_text(n / 10)[i]);
        assert(t[0] == decimal_text(n / 10)[0]);
        if n / 10 < 10 {
            lemma_decimal_digit_char(n / 10);
            assert(n / 10 != 0);
        }
        assert((n / 10) * 10 + n % 10 == n);
        assert(decimal_reading(t) == decimal_reading(t.drop_last()) * 10 + (t.last() as u32
            - '0' as u32));
    }
}

} // verus!
