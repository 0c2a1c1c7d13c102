use vstd::prelude::*;

verus! {

/// Why an embed color was not understood (the kinds of a failed base-16 integer parse).
#[derive(Debug, Clone, Copy, PartialEq, Eq, Structural)]
pub enum ColorError {
    /// Nothing is left once the prefixes are taken off.
    Empty,
    /// A character that is not a base-16 digit (or a lone sign).
    InvalidDigit,
    /// The number does not fit in 32 bits.
    Overflow,
}

/// `s` with every leading repetition of `prefix` taken off.
pub open spec fn strip_repeated(s: Seq<char>, prefix: Seq<char>) -> Seq<char>
    decreases s.len(),
{
    if prefix.len() > 0 && s.len() >= prefix.len() && s.subrange(0, prefix.len() as int) == prefix {
        strip_repeated(s.subrange(prefix.len() as int, s.len() as int), prefix)
    } else {
        s
    }
}

/// The value of a base-16 digit, either case.
pub open spec fn hex_digit_value(c: char) -> Option<nat> {
    if '0' as u32 <= c as u32 && c as u32 <= '9' as u32 {
        Some((c as u32 - '0' as u32) as nat)
    } else if 'a' as u32 <= c as u32 && c as u32 <= 'f' as u32 {
        Some((c as u32 - 'a' as u32 + 10) as nat)
    } else if 'A' as u32 <= c as u32 && c as u32 <= 'F' as u32 {
        Some((c as u32 - 'A' as u32 + 10) as nat)
    } else {
        None
    }
}

/// Reads base-16 digits from the left, failing at the first character that is not a digit or
/// that makes the number exceed 32 bits.
pub open spec fn scan_hex(digits: Seq<char>) -> Result<nat, ColorError>
    decreases digits.len(),
{
    if digits.len() == 0 {
        Ok(0)
    } else {
        match scan_hex(digits.drop_last()) {
            Err(e) => Err(e),
            Ok(v) => match hex_digit_value(digits.last()) {
                None => Err(ColorError::InvalidDigit),
                Some(d) => if v * 16 + d > u32::MAX {
                    Err(ColorError::Overflow)
                } else {
                    Ok(v * 16 + d)
                },
            },
        }
    }
}

/// An unsigned base-16 number with an optional leading `+`.
pub open spec fn unsigned_hex(text: Seq<char>) -> Result<nat, ColorError> {
    if text.len() == 0 {
        Err(ColorError::Empty)
    } else if text.len() == 1 && (text[0] == '+' || text[0] == '-') {
        Err(ColorError::InvalidDigit)
    } else if text[0] == '+' {
        scan_hex(text.drop_first())
    } else {
        scan_hex(text)
    }
}

/// The color that a `--color` argument denotes: leading `0x`s, then leading `#`s, are taken
/// off and the rest is read as a base-16 number.
pub open spec fn color_value(text: Seq<char>) -> Result<nat, ColorError> {
    unsigned_hex(strip_repeated(strip_repeated(text, seq!['0', 'x']), seq!['#']))
}

pub open spec fn embed_color(color: Option<Seq<char>>) -> Result<Option<nat>, ColorError> {
    match color {
        None => Ok(None),
        Some(text) => match color_value(text) {
            Ok(v) => Ok(Some(v)),
            Err(e) => Err(e),
        },
    }
}

pub open spec fn color_result_view(r: Result<Option<u32>, ColorError>) -> Result<Option<nat>, ColorError> {
    match r {
        Ok(Some(v)) => Ok(Some(v as nat)),
        Ok(None) => Ok(None),
        Err(e) => Err(e),
    }
}

proof fn lemma_strip_step(s: Seq<char>, prefix: Seq<char>, i: int)
    requires
        prefix.len() > 0,
        0 <= i,
        i + prefix.len() <= s.len(),
        s.subrange(i, i + prefix.len()) == prefix,
    ensures
        strip_repeated(s.subrange(i, s.len() as int), prefix) == strip_repeated(
            s.subrange(i + prefix.len(), s.len() as int),
            prefix,
        ),
{
    let t = s.subrange(i, s.len() as int);
    assert(t.subrange(0, prefix.len() as int) =~= s.subrange(i, i + prefix.len()));
    assert(t.subrange(prefix.len() as int, t.len() as int) =~= s.subrange(
        i + prefix.len(),
        s.len() as int,
    ));
}

proof fn lemma_scan_error_persists(digits: Seq<char>, k: int)
    requires
        0 <= k <= digits.len(),
        scan_hex(digits.subrange(0, k)) is Err,
    ensures
        scan_hex(digits) == scan_hex(digits.subrange(0, k)),
    decreases digits.len() - k,
{
    if k < digits.len() {
        let next = digits.subrange(0, k + 1);
        assert(next.drop_last() =~= digits.subrange(0, k));
        lemma_scan_error_persists(digits, k + 1);
    } else {
        assert(digits.subrange(0, k) =~= digits);
    }
}

fn hex_digit(c: char) -> (res: Option<u32>)
    ensures
        match hex_digit_value(c) {
            Some(d) => res == Some(d as u32),
            None => res is None,
        },
{
    let v = c as u32;
    if 48 <= v && v <= 57 {
        Some(v - 48)
    } else if 97 <= v && v <= 102 {
        Some(v - 87)
    } else if 65 <= v && v <= 70 {
        Some(v - 55)
    } else {
        None
    }
}

fn chars_of(text: &str) -> (res: Vec<char>)
    ensures
        res@ == text@,
{
    let n = text.unicode_len();
    let mut res: Vec<char> = Vec::new();
    let mut i: usize = 0;
    while i < n
        invariant
            n == text@.len(),
            i <= n,
            res@ =~= text@.subrange(0, i as int),
        decreases n - i,
    {
        res.push(text.get_char(i));
        i = i + 1;
    }
    assert(res@ =~= text@);
    res
}

/// Reads the color of an embed: `None` stays `None`; otherwise leading `0x`s and then leading
/// `#`s are taken off and the rest is read as a base-16 number that fits in 32 bits.
pub fn parse_embed_color(color: Option<&str>) -> (res: Result<Option<u32>, ColorError>)
    ensures
        color_result_view(res) == embed_color(match color {
            Some(c) => Some(c@),
            None => None,
        }),
{
    let text = match color {
        None => {
            return Ok(None);
        },
        Some(c) => c,
    };
    let cs = chars_of(text);
    let n = cs.len();
    let ghost s = cs@;
    // Take off leading "0x"s.
    let mut i: usize = 0;
    assert(s.subrange(0, n as int) =~= s);
    while i < n && i + 1 < n && cs[i] == '0' && cs[i + 1] == 'x'
        invariant
            n == s.len(),
            cs@ == s,
            i <= n,
            strip_repeated(s, seq!['0', 'x']) == strip_repeated(s.subrange(i as int, n as int), seq!['0', 'x']),
        decreases n - i,
    {
        proof {
            assert(s.subrange(i as int, i + 2) =~= seq!['0', 'x']);
            lemma_strip_step(s, seq!['0', 'x'], i as int);
        }
        i = i + 2;
    }
    proof {
        let t = s.subrange(i as int, n as int);
        if t.len() >= 2 {
            assert(t.subrange(0, 2) != seq!['0', 'x']) by {
                if t.subrange(0, 2) == seq!['0', 'x'] {
                    assert(t.subrange(0, 2)[0] == cs[i as int]);
                    assert(t.subrange(0, 2)[1] == cs[i + 1]);
                }
            }
        }
        assert(strip_repeated(t, seq!['0', 'x']) == t);
    }
    // Take off leading '#'s.
    let mut j: usize = i;
    while j < n && cs[j] == '#'
        invariant
            n == s.len(),
            cs@ == s,
            i <= j <= n,
            strip_repeated(s.subrange(i as int, n as int), seq!['#']) == strip_repeated(s.subrange(j as int, n as int), seq!['#']),
        decreases n - j,
    {
        proof {
            assert(s.subrange(j as int, j + 1) =~= seq!['#']);
            lemma_strip_step(s, seq!['#'], j as int);
        }
        j = j + 1;
    }
    let ghost rest = s.subrange(j as int, n as int);
    proof {
        if rest.len() >= 1 {
            assert(rest.subrange(0, 1)[0] == cs[j as int]);
            assert(rest.subrange(0, 1) != seq!['#']);
        }
        assert(strip_repeated(rest, seq!['#']) == rest);
        assert(color_value(s) == unsigned_hex(rest));
    }
    if j == n {
        assert(rest.len() == 0);
        return Err(ColorError::Empty);
    }
    if j + 1 == n && (cs[j] == '+' || cs[j] == '-') {
        assert(rest.len() == 1 && rest[0] == cs[j as int]);
        return Err(ColorError::InvalidDigit);
    }
    let start: usize = if cs[j] == '+' {
        j + 1
    } else {
        j
    };
    let ghost digits = s.subrange(start as int, n as int);
    proof {
        if cs[j as int] == '+' {
            assert(rest.drop_first() =~= digits);
        } else {
            assert(rest =~= digits);
        }
        assert(unsigned_hex(rest) == scan_hex(digits));
    }
    let mut acc: u32 = 0;
    let mut k: usize = start;
    while k < n
        invariant
            n == s.len(),
            cs@ == s,
            start <= k <= n,
            digits == s.subrange(start as int, n as int),
            s == text@,
            color == Some(text),
            color_value(s) == scan_hex(digits),
            scan_hex(digits.subrange(0, k - start)) == Ok::<nat, ColorError>(acc as nat),
        decreases n - k,
    {
        let ghost prefix = digits.subrange(0, k + 1 - start);
        proof {
            assert(prefix.drop_last() =~= digits.subrange(0, k - start));
            assert(prefix.last() == cs[k as int]);
        }
        match hex_digit(cs[k]) {
            None => {
                proof {
                    assert(scan_hex(prefix) == Err::<nat, ColorError>(ColorError::InvalidDigit));
                    lemma_scan_error_persists(digits, k + 1 - start);
                }
                return Err(ColorError::InvalidDigit);
            },
            Some(d) => {
                let next: u64 = acc as u64 * 16 + d as u64;
                if next > 0xFFFF_FFFF {
                    proof {
                        assert(hex_digit_value(prefix.last()) == Some(d as nat));
                        assert(scan_hex(prefix) == Err::<nat, ColorError>(ColorError::Overflow));
                        lemma_scan_error_persists(digits, k + 1 - start);
                    }
                    return Err(ColorError::Overflow);
                }
                proof {
                    assert(hex_digit_value(prefix.last()) == Some(d as nat));
                    assert(scan_hex(prefix) == Ok::<nat, ColorError>(next as nat));
                }
                acc = next as u32;
            },
        }
        k = k + 1;
    }
    assert(digits.subrange(0, n - start) =~= digits);
    Ok(Some(acc))
}

/// The lower-case base-16 digit for `d < 16`.
pub open spec fn hex_digit_char(d: nat) -> char {
    if d == 0 { '0' } else if d == 1 { '1' } else if d == 2 { '2' } else if d == 3 { '3' }
    else if d == 4 { '4' } else if d == 5 { '5' } else if d == 6 { '6' } else if d == 7 { '7' }
    else if d == 8 { '8' } else if d == 9 { '9' } else if d == 10 { 'a' } else if d == 11 { 'b' }
    else if d == 12 { 'c' } else if d == 13 { 'd' } else if d == 14 { 'e' } else { 'f' }
}

/// `v` written in base 16 with lower-case digits and no leading zeros.
pub open spec fn hex_text(v: nat) -> Seq<char>
    decreases v,
{
    if v < 16 {
        seq![hex_digit_char(v)]
    } else {
        hex_text(v / 16).push(hex_digit_char(v % 16))
    }
}

proof fn lemma_hex_text(v: nat)
    requires
        v <= u32::MAX,
    ensures
        scan_hex(hex_text(v)) == Ok::<nat, ColorError>(v),
        hex_text(v).len() >= 1,
        hex_digit_value(hex_text(v)[0]) is Some,
        v >= 16 ==> hex_text(v)[0] != '0',
        v < 16 ==> hex_text(v).len() == 1,
    decreases v,
{
    let d = v % 16;
    assert(hex_digit_value(hex_digit_char(d)) == Some(d));
    if v < 16 {
        assert(hex_text(v).drop_last() =~= Seq::<char>::empty());
        assert(scan_hex(Seq::<char>::empty()) == Ok::<nat, ColorError>(0));
        assert(hex_text(v).last() == hex_digit_char(d));
    } else {
        lemma_hex_text(v / 16);
        assert(hex_text(v).drop_last() == hex_text(v / 16));
        assert((v / 16) * 16 + d == v);
        assert(hex_text(v).last() == hex_digit_char(d));
        assert(hex_text(v)[0] == hex_text(v / 16)[0]);
        if v / 16 < 16 {
            assert(v / 16 != 0);
            assert(hex_digit_value(hex_digit_char(v / 16)) == Some(v / 16));
        }
    }
}

/// A color written in base 16, bare or after `#` or `0x`, is read back as itself.
pub proof fn law_color_round_trip(v: u32)
    ensures
        color_value(hex_text(v as nat)) == Ok::<nat, ColorError>(v as nat),
        color_value(seq!['#'] + hex_text(v as nat)) == Ok::<nat, ColorError>(v as nat),
        color_value(seq!['0', 'x'] + hex_text(v as nat)) == Ok::<nat, ColorError>(v as nat),
{
    let h = hex_text(v as nat);
    lemma_hex_text(v as nat);
    // h itself starts with neither "0x" nor '#', nor with a sign.
    if h.len() >= 2 {
        assert(h.subrange(0, 2) != seq!['0', 'x']) by {
            if h.subrange(0, 2) == seq!['0', 'x'] {
                assert(h.subrange(0, 2)[0] == h[0]);
            }
        }
    }
    assert(strip_repeated(h, seq!['0', 'x']) == h);
    assert(h.subrange(0, 1)[0] == h[0]);
    assert(h.subrange(0, 1) != seq!['#']);
    assert(strip_repeated(h, seq!['#']) == h);
    assert(h[0] != '+' && h[0] != '-');
    assert(color_value(h) == scan_hex(h));

    let hash = seq!['#'] + h;
    assert(hash.subrange(0, 1) =~= seq!['#']);
    assert(hash.subrange(1, hash.len() as int) =~= h);
    if hash.len() >= 2 {
        assert(hash.subrange(0, 2)[0] == '#');
    }
    assert(strip_repeated(hash, seq!['0', 'x']) == hash);
    assert(strip_repeated(hash, seq!['#']) == strip_repeated(h, seq!['#']));

    let ox = seq!['0', 'x'] + h;
    assert(ox.subrange(0, 2) =~= seq!['0', 'x']);
    assert(ox.subrange(2, ox.len() as int) =~= h);
    assert(strip_repeated(ox, seq!['0', 'x']) == strip_repeated(h, seq!['0', 'x']));
}

/// The base-16 digit for `d < 16`, with upper-case letters when `upper`.
pub open spec fn hex_digit_char_cased(d: nat, upper: bool) -> char {
    if !upper || d < 10 {
        hex_digit_char(d)
    } else if d == 10 {
        'A'
    } else if d == 11 {
        'B'
    } else if d == 12 {
        'C'
    } else if d == 13 {
        'D'
    } else if d == 14 {
        'E'
    } else {
        'F'
    }
}

/// `v` written in base 16 without leading zeros, with upper-case letters when `upper`.
pub open spec fn hex_text_cased(v: nat, upper: bool) -> Seq<char>
    decreases v,
{
    if v < 16 {
        seq![hex_digit_char_cased(v, upper)]
    } else {
        hex_text_cased(v / 16, upper).push(hex_digit_char_cased(v % 16, upper))
    }
}

pub proof fn lemma_hex_digit_char_cased(d: nat, upper: bool)
    requires
        d < 16,
    ensures
        hex_digit_value(hex_digit_char_cased(d, upper)) == Some(d),
        hex_digit_char_cased(d, upper) != '#' && hex_digit_char_cased(d, upper) != '+'
            && hex_digit_char_cased(d, upper) != '-',
        d != 0 ==> hex_digit_char_cased(d, upper) != '0',
{
}

proof fn lemma_hex_text_cased(v: nat, upper: bool)
    requires
        v <= u32::MAX,
    ensures
        scan_hex(hex_text_cased(v, upper)) == Ok::<nat, ColorError>(v),
        hex_text_cased(v, upper).len() >= 1,
        hex_text_cased(v, upper)[0] != '#' && hex_text_cased(v, upper)[0] != '+'
            && hex_text_cased(v, upper)[0] != '-',
        v >= 16 ==> hex_text_cased(v, upper)[0] != '0',
        v < 16 ==> hex_text_cased(v, upper).len() == 1,
    decreases v,
{
    let d = v % 16;
    let t = hex_text_cased(v, upper);
    lemma_hex_digit_char_cased(d, upper);
    if v < 16 {
        assert(t.drop_last() =~= Seq::<char>::empty());
        assert(scan_hex(Seq::<char>::empty()) == Ok::<nat, ColorError>(0));
        assert(t.last() == hex_digit_char_cased(d, upper));
    } else {
        lemma_hex_text_cased(v / 16, upper);
        assert(t.drop_last() == hex_text_cased(v / 16, upper));
        assert((v / 16) * 16 + d == v);
        assert(t.last() == hex_digit_char_cased(d, upper));
        assert(t[0] == hex_text_cased(v / 16, upper)[0]);
        if v / 16 < 16 {
            assert(v / 16 != 0);
            lemma_hex_digit_char_cased(v / 16, upper);
        }
    }
}

/// Every base-16 digit is read at its value in either case: a color written in base 16 with
/// lower-case or with upper-case letters, bare or after `#` or `0x`, is read back as itself.
pub proof fn law_color_round_trip_any_case(v: u32, upper: bool)
    ensures
        color_value(hex_text_cased(v as nat, upper)) == Ok::<nat, ColorError>(v as nat),
        color_value(seq!['#'] + hex_text_cased(v as nat, upper)) == Ok::<nat, ColorError>(v as nat),
        color_value(seq!['0', 'x'] + hex_text_cased(v as nat, upper)) == Ok::<nat, ColorError>(
            v as nat,
        ),
{
    let h = hex_text_cased(v as nat, upper);
    lemma_hex_text_cased(v as nat, upper);
    if h.len() >= 2 {
        assert(h.subrange(0, 2) != seq!['0', 'x']) by {
            if h.subrange(0, 2) == seq!['0', 'x'] {
                assert(h.subrange(0, 2)[0] == h[0]);
            }
        }
    }
    assert(strip_repeated(h, seq!['0', 'x']) == h);
    assert(h.subrange(0, 1)[0] == h[0]);
    assert(h.subrange(0, 1) != seq!['#']);
    assert(strip_repeated(h, seq!['#']) == h);
    assert(color_value(h) == scan_hex(h));

    let hash = seq!['#'] + h;
    assert(hash.subrange(0, 1) =~= seq!['#']);
    assert(hash.subrange(1, hash.len() as int) =~= h);
    if hash.len() >= 2 {
        assert(hash.subrange(0, 2)[0] == '#');
    }
    assert(strip_repeated(hash, seq!['0', 'x']) == hash);
    assert(strip_repeated(hash, seq!['#']) == strip_repeated(h, seq!['#']));

    let ox = seq!['0', 'x'] + h;
    assert(ox.subrange(0, 2) =~= seq!['0', 'x']);
    assert(ox.subrange(2, ox.len() as int) =~= h);
    assert(strip_repeated(ox, seq!['0', 'x']) == strip_repeated(h, seq!['0', 'x']));
}

proof fn lemma_color_value_is_scan(t: Seq<char>)
    requires
        t.len() >= 1,
        hex_digit_value(t[0]) is Some,
        !(t.len() >= 2 && t[0] == '0' && t[1] == 'x'),
    ensures
        color_value(t) == scan_hex(t),
{
    if t.len() >= 2 {
        assert(t.subrange(0, 2) != seq!['0', 'x']) by {
            if t.subrange(0, 2) == seq!['0', 'x'] {
                assert(t.subrange(0, 2)[0] == t[0]);
                assert(t.subrange(0, 2)[1] == t[1]);
            }
        }
    }
    assert(strip_repeated(t, seq!['0', 'x']) == t);
    assert(t.subrange(0, 1)[0] == t[0]);
    assert(t.subrange(0, 1) != seq!['#']);
    assert(strip_repeated(t, seq!['#']) == t);
}

/// Writing one more base-16 digit after a number multiplies it by 16 and adds the digit's
/// value, and is refused as `Overflow` exactly when the result leaves 32 bits.
pub proof fn law_color_next_digit(v: u32, d: nat, upper: bool)
    requires
        d < 16,
    ensures
        color_value(hex_text_cased(v as nat, upper).push(hex_digit_char_cased(d, upper))) == (if v
            * 16 + d > u32::MAX {
            Err::<nat, ColorError>(ColorError::Overflow)
        } else {
            Ok::<nat, ColorError>((v * 16 + d) as nat)
        }),
{
    let h = hex_text_cased(v as nat, upper);
    let c = hex_digit_char_cased(d, upper);
    let t = h.push(c);
    lemma_hex_text_cased(v as nat, upper);
    lemma_hex_digit_char_cased(d, upper);
    assert(t[0] == h[0]);
    assert(hex_digit_value(h[0]) is Some) by {
        if v < 16 {
            lemma_hex_digit_char_cased(v as nat, upper);
        } else {
            lemma_hex_text_first(v as nat, upper);
        }
    }
    if t.len() >= 2 && t[0] == '0' && t[1] == 'x' {
        if v >= 16 {
            assert(false);
        } else {
            assert(t[1] == c);
        }
    }
    lemma_color_value_is_scan(t);
    assert(t.drop_last() == h);
}

/// A character that is not a base-16 digit after the digits of a number is refused as
/// `InvalidDigit` (save for `x` after a lone `0`, which makes the `0x` prefix).
pub proof fn law_color_invalid_character(v: u32, c: char, upper: bool)
    requires
        hex_digit_value(c) is None,
        !(v == 0 && c == 'x'),
    ensures
        color_value(hex_text_cased(v as nat, upper).push(c)) == Err::<nat, ColorError>(
            ColorError::InvalidDigit,
        ),
{
    let h = hex_text_cased(v as nat, upper);
    let t = h.push(c);
    lemma_hex_text_cased(v as nat, upper);
    assert(t[0] == h[0]);
    assert(hex_digit_value(h[0]) is Some) by {
        if v < 16 {
            lemma_hex_digit_char_cased(v as nat, upper);
        } else {
            lemma_hex_text_first(v as nat, upper);
        }
    }
    if t.len() >= 2 && t[0] == '0' && t[1] == 'x' {
        assert(t[1] == c);
        assert(v < 16);
        assert(h[0] == hex_digit_char_cased(v as nat, upper));
        assert(v == 0) by {
            if v != 0 {
                lemma_hex_digit_char_cased(v as nat, upper);
            }
        }
    }
    lemma_color_value_is_scan(t);
    assert(t.drop_last() == h);
}

proof fn lemma_hex_text_first(v: nat, upper: bool)
    ensures
        hex_digit_value(hex_text_cased(v, upper)[0]) is Some,
    decreases v,
{
    if v < 16 {
        lemma_hex_digit_char_cased(v % 16, upper);
        assert(v % 16 == v);
    } else {
        lemma_hex_text_first(v / 16, upper);
        assert(hex_text_cased(v, upper)[0] == hex_text_cased(v / 16, upper)[0]);
    }
}

/// A `0x` in front of any text is taken off; so is a `#` in front of a text that does not
/// begin with `0x`; and nothing left over is refused as `Empty`.
pub proof fn law_color_prefixes(t: Seq<char>)
    ensures
        color_value(seq!['0', 'x'] + t) == color_value(t),
        !(t.len() >= 2 && t[0] == '0' && t[1] == 'x') ==> color_value(seq!['#'] + t)
            == color_value(t),
        color_value(Seq::<char>::empty()) == Err::<nat, ColorError>(ColorError::Empty),
{
    let ox = seq!['0', 'x'] + t;
    assert(ox.subrange(0, 2) =~= seq!['0', 'x']);
    assert(ox.subrange(2, ox.len() as int) =~= t);
    assert(strip_repeated(ox, seq!['0', 'x']) == strip_repeated(t, seq!['0', 'x']));
    let hash = seq!['#'] + t;
    if hash.len() >= 2 {
        assert(hash.subrange(0, 2)[0] == '#');
    }
    assert(strip_repeated(hash, seq!['0', 'x']) == hash);
    assert(hash.subrange(0, 1) =~= seq!['#']);
    assert(hash.subrange(1, hash.len() as int) =~= t);
    assert(strip_repeated(hash, seq!['#']) == strip_repeated(t, seq!['#']));
    if !(t.len() >= 2 && t[0] == '0' && t[1] == 'x') {
        if t.len() >= 2 {
            assert(t.subrange(0, 2) != seq!['0', 'x']) by {
                if t.subrange(0, 2) == seq!['0', 'x'] {
                    assert(t.subrange(0, 2)[0] == t[0]);
                    assert(t.subrange(0, 2)[1] == t[1]);
                }
            }
        }
        assert(strip_repeated(t, seq!['0', 'x']) == t);
    }
    assert(strip_repeated(Seq::<char>::empty(), seq!['0', 'x']) == Seq::<char>::empty());
    assert(strip_repeated(Seq::<char>::empty(), seq!['#']) == Seq::<char>::empty());
}

/// The text that reports a color that was not understood (the wording of std's integer
/// parse errors).
pub open spec fn color_error_message(e: ColorError) -> Seq<char> {
    match e {
        ColorError::Empty => "cannot parse integer from empty string"@,
        ColorError::InvalidDigit => "invalid digit found in string"@,
        ColorError::Overflow => "number too large to fit in target type"@,
    }
}

impl ColorError {
    /// The text that reports this error to the user.
    pub fn message(&self) -> (res: String)
        ensures
            res@ == color_error_message(*self),
    {
        match self {
            ColorError::Empty => "cannot parse integer from empty string".to_owned(),
            ColorError::InvalidDigit => "invalid digit found in string".to_owned(),
            ColorError::Overflow => "number too large to fit in target type".to_owned(),
        }
    }
}

} // verus!
