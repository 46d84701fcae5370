use vstd::prelude::*;
use crate::clip::Clip;

verus! {

// ---------------------------------------------------------------------------
// Trusted bridge between `String`/`&str` and character vectors.
// ---------------------------------------------------------------------------

/// Relies on `str::chars`: the characters of the string in order, which is
/// exactly the view of `&str`.
#[verifier::external_body]
pub(crate) fn str_to_chars(s: &str) -> (r: Vec<char>)
    ensures
        r@ == s@,
{
    s.chars().collect()
}

/// Relies on `String`'s `FromIterator<char>`: the collected string holds
/// exactly the characters of the input, in order.
#[verifier::external_body]
pub(crate) fn chars_to_string(v: &Vec<char>) -> (r: String)
    ensures
        r@ == v@,
{
    v.iter().collect()
}

/// Relies on `char::from_u32`: `Some` iff the value is a Unicode scalar
/// (below the surrogate range, or past it and at most 0x10FFFF), and then
/// the character with that value.
#[verifier::external_body]
fn char_from_u32(v: u32) -> (r: Option<char>)
    ensures
        r == if v < 0xD800 || (0xE000 <= v && v <= 0x10FFFF) {
            Some(v as char)
        } else {
            None::<char>
        },
{
    char::from_u32(v)
}

// ---------------------------------------------------------------------------
// Encoding: a clip or an auth request as a JSON text frame.
// ---------------------------------------------------------------------------

/// The hexadecimal digit for a value below 16, lower case.
pub open spec fn hex_digit_char(n: nat) -> char {
    if n == 0 { '0' } else if n == 1 { '1' } else if n == 2 { '2' } else if n == 3 { '3' }
    else if n == 4 { '4' } else if n == 5 { '5' } else if n == 6 { '6' } else if n == 7 { '7' }
    else if n == 8 { '8' } else if n == 9 { '9' } else if n == 10 { 'a' } else if n == 11 { 'b' }
    else if n == 12 { 'c' } else if n == 13 { 'd' } else if n == 14 { 'e' } else { 'f' }
}

/// How one character appears inside a JSON string literal: quotes and
/// backslashes get a two-character escape, common control characters get
/// their short escapes, the remaining control characters get `\u00XX`,
/// everything else stands for itself.
pub open spec fn spec_escape_char(c: char) -> Seq<char> {
    if c == '"' { seq!['\\', '"'] }
    else if c == '\\' { seq!['\\', '\\'] }
    else if c == '\n' { seq!['\\', 'n'] }
    else if c == '\r' { seq!['\\', 'r'] }
    else if c == '\t' { seq!['\\', 't'] }
    else if (c as u32) < 0x20 {
        seq!['\\', 'u', '0', '0',
             hex_digit_char((c as u32 / 16) as nat),
             hex_digit_char((c as u32 % 16) as nat)]
    } else {
        seq![c]
    }
}

/// A text as it appears inside a JSON string literal.
pub open spec fn spec_escape(s: Seq<char>) -> Seq<char>
    decreases s.len(),
{
    if s.len() == 0 {
        Seq::empty()
    } else {
        spec_escape_char(s[0]) + spec_escape(s.drop_first())
    }
}

/// The decimal digit for a value below 10.
pub open spec fn dec_digit_char(n: nat) -> char {
    if n == 0 { '0' } else if n == 1 { '1' } else if n == 2 { '2' } else if n == 3 { '3' }
    else if n == 4 { '4' } else if n == 5 { '5' } else if n == 6 { '6' } else if n == 7 { '7' }
    else if n == 8 { '8' } else { '9' }
}

/// The canonical decimal rendering of an unsigned integer: no sign, no
/// leading zeros (a lone zero for 0).
pub open spec fn spec_dec_digits(n: nat) -> Seq<char>
    decreases n,
{
    if n < 10 {
        seq![dec_digit_char(n)]
    } else {
        spec_dec_digits(n / 10) + seq![dec_digit_char(n % 10)]
    }
}

/// The wire rendering of a clip: a JSON object with exactly the fields
/// `text` and `timestamp`, in that order, without spaces.
pub open spec fn spec_clip_json(text: Seq<char>, timestamp: u128) -> Seq<char> {
    "{\"text\":\""@ + spec_escape(text) + "\",\"timestamp\":"@
        + spec_dec_digits(timestamp as nat) + "}"@
}

/// The wire rendering of the auth request: a JSON object with exactly the
/// fields `name` and `token`, in that order, without spaces.
pub open spec fn spec_auth_json(name: Seq<char>, token: Seq<char>) -> Seq<char> {
    "{\"name\":\""@ + spec_escape(name) + "\",\"token\":\""@ + spec_escape(token) + "\"}"@
}

proof fn lemma_escape_snoc(s: Seq<char>, c: char)
    ensures
        spec_escape(s.push(c)) == spec_escape(s) + spec_escape_char(c),
    decreases s.len(),
{
    if s.len() == 0 {
        assert(s.push(c)[0] == c);
        assert(s.push(c).drop_first() =~= Seq::<char>::empty());
        assert(spec_escape(s.push(c)) == spec_escape_char(c) + spec_escape(Seq::<char>::empty()));
        assert(spec_escape_char(c) + Seq::<char>::empty() =~= spec_escape_char(c));
        assert(spec_escape(s) + spec_escape_char(c) =~= spec_escape_char(c));
    } else {
        assert(s.push(c)[0] == s[0]);
        assert(s.push(c).drop_first() =~= s.drop_first().push(c));
        lemma_escape_snoc(s.drop_first(), c);
        assert(spec_escape(s.push(c)) =~= spec_escape(s) + spec_escape_char(c));
    }
}

fn hex_digit(n: u32) -> (r: char)
    requires
        n < 16,
    ensures
        r == hex_digit_char(n as nat),
{
    if n == 0 { '0' } else if n == 1 { '1' } else if n == 2 { '2' } else if n == 3 { '3' }
    else if n == 4 { '4' } else if n == 5 { '5' } else if n == 6 { '6' } else if n == 7 { '7' }
    else if n == 8 { '8' } else if n == 9 { '9' } else if n == 10 { 'a' } else if n == 11 { 'b' }
    else if n == 12 { 'c' } else if n == 13 { 'd' } else if n == 14 { 'e' } else { 'f' }
}

fn push_escaped_char(out: &mut Vec<char>, c: char)
    ensures
        final(out)@ == old(out)@ + spec_escape_char(c),
{
    if c == '"' {
        out.push('\\');
        out.push('"');
    } else if c == '\\' {
        out.push('\\');
        out.push('\\');
    } else if c == '\n' {
        out.push('\\');
        out.push('n');
    } else if c == '\r' {
        out.push('\\');
        out.push('r');
    } else if c == '\t' {
        out.push('\\');
        out.push('t');
    } else if (c as u32) < 0x20 {
        out.push('\\');
        out.push('u');
        out.push('0');
        out.push('0');
        out.push(hex_digit((c as u32) / 16));
        out.push(hex_digit((c as u32) % 16));
    } else {
        out.push(c);
    }
    proof {
        assert(out@ =~= old(out)@ + spec_escape_char(c));
    }
}

fn push_escaped(out: &mut Vec<char>, text: &Vec<char>)
    ensures
        final(out)@ == old(out)@ + spec_escape(text@),
{
    let mut i: usize = 0;
    while i < text.len()
        invariant
            i <= text.len(),
            out@ == old(out)@ + spec_escape(text@.subrange(0, i as int)),
        decreases text.len() - i,
    {
        proof {
            assert(text@.subrange(0, i as int).push(text@[i as int])
                =~= text@.subrange(0, i + 1 as int));
            lemma_escape_snoc(text@.subrange(0, i as int), text@[i as int]);
        }
        push_escaped_char(out, text[i]);
        i = i + 1;
    }
    proof {
        assert(text@.subrange(0, text@.len() as int) =~= text@);
    }
}

fn push_dec_digits(out: &mut Vec<char>, n: u128)
    ensures
        final(out)@ == old(out)@ + spec_dec_digits(n as nat),
    decreases n,
{
    if n < 10 {
        let d: u32 = n as u32;
        if d == 0 { out.push('0') } else if d == 1 { out.push('1') }
        else if d == 2 { out.push('2') } else if d == 3 { out.push('3') }
        else if d == 4 { out.push('4') } else if d == 5 { out.push('5') }
        else if d == 6 { out.push('6') } else if d == 7 { out.push('7') }
        else if d == 8 { out.push('8') } else { out.push('9') }
        proof {
            assert(out@ =~= old(out)@ + spec_dec_digits(n as nat));
        }
    } else {
        push_dec_digits(out, n / 10);
        let d: u32 = (n % 10) as u32;
        if d == 0 { out.push('0') } else if d == 1 { out.push('1') }
        else if d == 2 { out.push('2') } else if d == 3 { out.push('3') }
        else if d == 4 { out.push('4') } else if d == 5 { out.push('5') }
        else if d == 6 { out.push('6') } else if d == 7 { out.push('7') }
        else if d == 8 { out.push('8') } else { out.push('9') }
        proof {
            assert(out@ =~= old(out)@ + spec_dec_digits(n as nat));
        }
    }
}

fn push_str_chars(out: &mut Vec<char>, s: &str)
    ensures
        final(out)@ == old(out)@ + s@,
{
    let v = str_to_chars(s);
    let mut i: usize = 0;
    while i < v.len()
        invariant
            i <= v.len(),
            v@ == s@,
            out@ == old(out)@ + s@.subrange(0, i as int),
        decreases v.len() - i,
    {
        out.push(v[i]);
        proof {
            assert(out@ =~= old(out)@ + s@.subrange(0, i + 1 as int));
        }
        i = i + 1;
    }
    proof {
        assert(s@.subrange(0, s@.len() as int) =~= s@);
    }
}

/// Renders a clip as the JSON text frame sent over the wire.
pub fn clip_json(clip: &Clip) -> (r: String)
    ensures
        r@ == spec_clip_json(clip.text@, clip.timestamp),
{
    let text = str_to_chars(clip.text.as_str());
    let mut out: Vec<char> = Vec::new();
    push_str_chars(&mut out, "{\"text\":\"");
    push_escaped(&mut out, &text);
    push_str_chars(&mut out, "\",\"timestamp\":");
    push_dec_digits(&mut out, clip.timestamp);
    push_str_chars(&mut out, "}");
    proof {
        assert(out@ =~= spec_clip_json(clip.text@, clip.timestamp));
    }
    chars_to_string(&out)
}

/// Renders the auth request sent as the first frame after the handshake.
pub fn auth_json(name: &str, token: &str) -> (r: String)
    ensures
        r@ == spec_auth_json(name@, token@),
{
    let name_chars = str_to_chars(name);
    let token_chars = str_to_chars(token);
    let mut out: Vec<char> = Vec::new();
    push_str_chars(&mut out, "{\"name\":\"");
    push_escaped(&mut out, &name_chars);
    push_str_chars(&mut out, "\",\"token\":\"");
    push_escaped(&mut out, &token_chars);
    push_str_chars(&mut out, "\"}");
    proof {
        assert(out@ =~= spec_auth_json(name@, token@));
    }
    chars_to_string(&out)
}

// ---------------------------------------------------------------------------
// Parsing: the JSON subset that the wire protocol uses. An incoming frame is
// an object of string keys whose values are strings, unsigned integers or
// booleans; the two accepted shapes are the clip object (fields `text` and
// `timestamp`, in either order) and the auth reply (field `success`).
// ---------------------------------------------------------------------------

pub open spec fn is_ws(c: char) -> bool {
    c == ' ' || c == '\t' || c == '\n' || c == '\r'
}

/// The first index at or after `i` holding a non-whitespace character.
pub open spec fn spec_skip_ws(s: Seq<char>, i: int) -> int
    decreases s.len() - i when 0 <= i && i <= s.len()
{
    if 0 <= i && i < s.len() && is_ws(s[i]) {
        spec_skip_ws(s, i + 1)
    } else {
        i
    }
}

/// The character a short escape stands for.
pub open spec fn spec_unescape_char(e: char) -> Option<char> {
    if e == '"' { Some('"') } else if e == '\\' { Some('\\') } else if e == '/' { Some('/') }
    else if e == 'b' { Some('\u{0008}') } else if e == 'f' { Some('\u{000C}') }
    else if e == 'n' { Some('\n') } else if e == 'r' { Some('\r') }
    else if e == 't' { Some('\t') } else { None }
}

pub open spec fn hex_val(c: char) -> Option<nat> {
    if '0' as u32 <= c as u32 && c as u32 <= '9' as u32 {
        Some((c as u32 - '0' as u32) as nat)
    } else if 'a' as u32 <= c as u32 && c as u32 <= 'f' as u32 {
        Some((c as u32 - 'a' as u32 + 10) as nat)
    } else if 'A' as u32 <= c as u32 && c as u32 <= 'F' as u32 {
        Some((c as u32 - 'A' as u32 + 10) as nat)
    } else {
        None
    }
}

/// Four hexadecimal digits starting at `i`, combined big-endian.
pub open spec fn spec_hex4(s: Seq<char>, i: int) -> Option<nat>
    recommends
        0 <= i,
        i + 4 <= s.len(),
{
    match (hex_val(s[i]), hex_val(s[i + 1]), hex_val(s[i + 2]), hex_val(s[i + 3])) {
        (Some(a), Some(b), Some(c), Some(d)) => Some(a * 4096 + b * 256 + c * 16 + d),
        _ => None,
    }
}

/// Whether a `\u` code unit is a high (leading) surrogate.
pub open spec fn is_high_surrogate(v: nat) -> bool {
    0xD800 <= v && v < 0xDC00
}

/// Whether a `\u` code unit is a low (trailing) surrogate.
pub open spec fn is_low_surrogate(v: nat) -> bool {
    0xDC00 <= v && v < 0xE000
}

/// The Unicode scalar value a surrogate pair stands for.
pub open spec fn combine_surrogates(hi: nat, lo: nat) -> int {
    0x10000 + (hi - 0xD800) * 0x400 + (lo - 0xDC00)
}

/// The body of a JSON string literal, entered just past the opening quote:
/// the decoded characters and the index just past the closing quote. A
/// `\u` escape naming a high surrogate must be followed by one naming a
/// low surrogate; the pair decodes to one astral character. Raw control
/// characters, unknown escapes, unpaired surrogates, and an unterminated
/// literal are rejected.
pub open spec fn spec_parse_string_body(s: Seq<char>, i: int) -> Option<(Seq<char>, int)>
    decreases s.len() - i when 0 <= i && i <= s.len()
{
    if i >= s.len() {
        None
    } else if s[i] == '"' {
        Some((Seq::empty(), i + 1))
    } else if s[i] == '\\' {
        if i + 1 >= s.len() {
            None
        } else if s[i + 1] == 'u' {
            if i + 6 > s.len() {
                None
            } else {
                match spec_hex4(s, i + 2) {
                    None => None,
                    Some(v) => if !is_high_surrogate(v) && !is_low_surrogate(v) {
                        match spec_parse_string_body(s, i + 6) {
                            None => None,
                            Some((t, j)) => Some((seq![(v as u32) as char] + t, j)),
                        }
                    } else if is_high_surrogate(v) {
                        if i + 12 > s.len() || s[i + 6] != '\\' || s[i + 7] != 'u' {
                            None
                        } else {
                            match spec_hex4(s, i + 8) {
                                None => None,
                                Some(w) => if is_low_surrogate(w) {
                                    match spec_parse_string_body(s, i + 12) {
                                        None => None,
                                        Some((t, j)) => Some((
                                            seq![(combine_surrogates(v, w) as u32) as char] + t,
                                            j,
                                        )),
                                    }
                                } else {
                                    None
                                },
                            }
                        }
                    } else {
                        None
                    },
                }
            }
        } else {
            match spec_unescape_char(s[i + 1]) {
                None => None,
                Some(c) => match spec_parse_string_body(s, i + 2) {
                    None => None,
                    Some((t, j)) => Some((seq![c] + t, j)),
                },
            }
        }
    } else if (s[i] as u32) < 0x20 {
        None
    } else {
        match spec_parse_string_body(s, i + 1) {
            None => None,
            Some((t, j)) => Some((seq![s[i]] + t, j)),
        }
    }
}

/// A string literal, preceded by optional whitespace.
pub open spec fn spec_parse_string(s: Seq<char>, i: int) -> Option<(Seq<char>, int)> {
    let j = spec_skip_ws(s, i);
    if j < s.len() && s[j] == '"' {
        spec_parse_string_body(s, j + 1)
    } else {
        None
    }
}

pub open spec fn is_digit(c: char) -> bool {
    '0' as u32 <= c as u32 && c as u32 <= '9' as u32
}

pub open spec fn digit_val(c: char) -> nat {
    (c as u32 - '0' as u32) as nat
}

/// Consumes digits from `i`, folding them onto `acc`; yields the value and
/// the index of the first non-digit.
pub open spec fn spec_parse_digits(s: Seq<char>, i: int, acc: nat) -> (nat, int)
    decreases s.len() - i when 0 <= i && i <= s.len()
{
    if i < s.len() && is_digit(s[i]) {
        spec_parse_digits(s, i + 1, acc * 10 + digit_val(s[i]))
    } else {
        (acc, i)
    }
}

/// An unsigned JSON integer: one or more digits, no leading zero unless the
/// number is a lone zero. The value is unbounded here; shape parsers bound it.
pub open spec fn spec_parse_uint(s: Seq<char>, i: int) -> Option<(nat, int)> {
    if !(0 <= i && i < s.len() && is_digit(s[i])) {
        None
    } else if s[i] == '0' {
        if i + 1 < s.len() && is_digit(s[i + 1]) {
            None
        } else {
            Some((0, i + 1))
        }
    } else {
        Some(spec_parse_digits(s, i, 0))
    }
}

/// An unsigned integer, preceded by optional whitespace.
pub open spec fn spec_parse_uint_ws(s: Seq<char>, i: int) -> Option<(nat, int)> {
    spec_parse_uint(s, spec_skip_ws(s, i))
}

/// A boolean literal, preceded by optional whitespace.
pub open spec fn spec_parse_bool_ws(s: Seq<char>, i: int) -> Option<(bool, int)> {
    let j = spec_skip_ws(s, i);
    if 0 <= j && j + 4 <= s.len() && s[j] == 't' && s[j + 1] == 'r' && s[j + 2] == 'u'
        && s[j + 3] == 'e' {
        Some((true, j + 4))
    } else if 0 <= j && j + 5 <= s.len() && s[j] == 'f' && s[j + 1] == 'a' && s[j + 2] == 'l'
        && s[j + 3] == 's' && s[j + 4] == 'e' {
        Some((false, j + 5))
    } else {
        None
    }
}

/// One punctuation token, preceded by optional whitespace.
pub open spec fn spec_tok(s: Seq<char>, i: int, c: char) -> Option<int> {
    let j = spec_skip_ws(s, i);
    if j < s.len() && s[j] == c {
        Some(j + 1)
    } else {
        None
    }
}

/// A whole frame parsed as a clip object: exactly the fields `text` (a
/// string) and `timestamp` (an unsigned integer that fits the timestamp
/// type), in either order, with nothing but whitespace around the tokens.
pub open spec fn spec_parse_clip(s: Seq<char>) -> Option<(Seq<char>, u128)> {
    match spec_tok(s, 0, '{') {
        None => None,
        Some(i1) => match spec_parse_string(s, i1) {
            None => None,
            Some((k1, i2)) => match spec_tok(s, i2, ':') {
                None => None,
                Some(i3) => if k1 == "text"@ {
                    match spec_parse_string(s, i3) {
                        None => None,
                        Some((t, i4)) => match spec_tok(s, i4, ',') {
                            None => None,
                            Some(i5) => match spec_parse_string(s, i5) {
                                None => None,
                                Some((k2, i6)) => if k2 == "timestamp"@ {
                                    match spec_tok(s, i6, ':') {
                                        None => None,
                                        Some(i7) => match spec_parse_uint_ws(s, i7) {
                                            None => None,
                                            Some((v, i8)) => match spec_tok(s, i8, '}') {
                                                None => None,
                                                Some(i9) => if spec_skip_ws(s, i9) == s.len()
                                                    && v <= u128::MAX {
                                                    Some((t, v as u128))
                                                } else {
                                                    None
                                                },
                                            },
                                        },
                                    }
                                } else {
                                    None
                                },
                            },
                        },
                    }
                } else if k1 == "timestamp"@ {
                    match spec_parse_uint_ws(s, i3) {
                        None => None,
                        Some((v, i4)) => match spec_tok(s, i4, ',') {
                            None => None,
                            Some(i5) => match spec_parse_string(s, i5) {
                                None => None,
                                Some((k2, i6)) => if k2 == "text"@ {
                                    match spec_tok(s, i6, ':') {
                                        None => None,
                                        Some(i7) => match spec_parse_string(s, i7) {
                                            None => None,
                                            Some((t, i8)) => match spec_tok(s, i8, '}') {
                                                None => None,
                                                Some(i9) => if spec_skip_ws(s, i9) == s.len()
                                                    && v <= u128::MAX {
                                                    Some((t, v as u128))
                                                } else {
                                                    None
                                                },
                                            },
                                        },
                                    }
                                } else {
                                    None
                                },
                            },
                        },
                    }
                } else {
                    None
                },
            },
        },
    }
}

/// A whole frame parsed as the auth reply: exactly the field `success` with
/// a boolean value.
pub open spec fn spec_parse_auth_reply(s: Seq<char>) -> Option<bool> {
    match spec_tok(s, 0, '{') {
        None => None,
        Some(i1) => match spec_parse_string(s, i1) {
            None => None,
            Some((k, i2)) => if k == "success"@ {
                match spec_tok(s, i2, ':') {
                    None => None,
                    Some(i3) => match spec_parse_bool_ws(s, i3) {
                        None => None,
                        Some((b, i4)) => match spec_tok(s, i4, '}') {
                            None => None,
                            Some(i5) => if spec_skip_ws(s, i5) == s.len() {
                                Some(b)
                            } else {
                                None
                            },
                        },
                    },
                }
            } else {
                None
            },
        },
    }
}

// ---------------------------------------------------------------------------
// Executable parser, proved against the specification above.
// ---------------------------------------------------------------------------

fn skip_ws(v: &Vec<char>, i: usize) -> (r: usize)
    requires
        i <= v@.len(),
    ensures
        r as int == spec_skip_ws(v@, i as int),
        i <= r <= v@.len(),
{
    let mut k: usize = i;
    while k < v.len() && (v[k] == ' ' || v[k] == '\t' || v[k] == '\n' || v[k] == '\r')
        invariant
            i <= k <= v@.len(),
            spec_skip_ws(v@, i as int) == spec_skip_ws(v@, k as int),
        decreases v@.len() - k,
    {
        k = k + 1;
    }
    k
}

fn tok(v: &Vec<char>, i: usize, c: char) -> (r: Option<usize>)
    requires
        i <= v@.len(),
    ensures
        spec_tok(v@, i as int, c) == (match r {
            Some(j) => Some(j as int),
            None => None::<int>,
        }),
        r matches Some(j) ==> i < j <= v@.len(),
{
    let j = skip_ws(v, i);
    if j < v.len() && v[j] == c {
        Some(j + 1)
    } else {
        None
    }
}

fn hex_val_exec(c: char) -> (r: Option<u32>)
    ensures
        hex_val(c) == (match r {
            Some(x) => Some(x as nat),
            None => None::<nat>,
        }),
        r matches Some(x) ==> x < 16,
{
    let u = c as u32;
    if '0' as u32 <= u && u <= '9' as u32 {
        Some(u - '0' as u32)
    } else if 'a' as u32 <= u && u <= 'f' as u32 {
        Some(u - 'a' as u32 + 10)
    } else if 'A' as u32 <= u && u <= 'F' as u32 {
        Some(u - 'A' as u32 + 10)
    } else {
        None
    }
}

fn hex4(v: &Vec<char>, i: usize) -> (r: Option<u32>)
    requires
        i + 4 <= v@.len(),
    ensures
        spec_hex4(v@, i as int) == (match r {
            Some(x) => Some(x as nat),
            None => None::<nat>,
        }),
        r matches Some(x) ==> x <= 0xFFFF,
{
    let n = v.len();
    let a = hex_val_exec(v[i]);
    let b = hex_val_exec(v[i + 1]);
    let c = hex_val_exec(v[i + 2]);
    let d = hex_val_exec(v[i + 3]);
    match (a, b, c, d) {
        (Some(a), Some(b), Some(c), Some(d)) => Some(a * 4096 + b * 256 + c * 16 + d),
        _ => None,
    }
}

fn unescape_char(e: char) -> (r: Option<char>)
    ensures
        r == spec_unescape_char(e),
{
    if e == '"' { Some('"') } else if e == '\\' { Some('\\') } else if e == '/' { Some('/') }
    else if e == 'b' { Some('\u{0008}') } else if e == 'f' { Some('\u{000C}') }
    else if e == 'n' { Some('\n') } else if e == 'r' { Some('\r') }
    else if e == 't' { Some('\t') } else { None }
}

fn parse_string_body(v: &Vec<char>, i: usize) -> (r: Option<(Vec<char>, usize)>)
    requires
        i <= v@.len(),
    ensures
        match r {
            Some((t, j)) => spec_parse_string_body(v@, i as int) == Some((t@, j as int))
                && i < j <= v@.len(),
            None => spec_parse_string_body(v@, i as int) is None,
        },
{
    let mut acc: Vec<char> = Vec::new();
    let mut k: usize = i;
    loop
        invariant
            i <= k <= v@.len(),
            spec_parse_string_body(v@, i as int) == (match spec_parse_string_body(
                v@,
                k as int,
            ) {
                None => None::<(Seq<char>, int)>,
                Some((t, j)) => Some((acc@ + t, j)),
            }),
        decreases v@.len() - k,
    {
        if k >= v.len() {
            return None;
        }
        let c = v[k];
        if c == '"' {
            proof {
                assert(acc@ + Seq::<char>::empty() =~= acc@);
            }
            return Some((acc, k + 1));
        } else if c == '\\' {
            if k + 1 >= v.len() {
                return None;
            }
            let e = v[k + 1];
            if e == 'u' {
                if v.len() - k < 6 {
                    return None;
                }
                match hex4(v, k + 2) {
                    None => {
                        return None;
                    },
                    Some(val) => {
                        if val < 0xD800 || val >= 0xE000 {
                            match char_from_u32(val) {
                                None => {
                                    return None;
                                },
                                Some(ch) => {
                                    proof {
                                        let ghost rest = spec_parse_string_body(
                                            v@,
                                            k + 6 as int,
                                        );
                                        if rest is Some {
                                            assert(acc@ + (seq![ch] + (rest->0).0)
                                                =~= acc@.push(ch) + (rest->0).0);
                                        }
                                    }
                                    acc.push(ch);
                                    k = k + 6;
                                },
                            }
                        } else if val < 0xDC00 {
                            // a high surrogate: a low one must follow
                            if v.len() - k < 12 {
                                return None;
                            }
                            if !(v[k + 6] == '\\' && v[k + 7] == 'u') {
                                return None;
                            }
                            match hex4(v, k + 8) {
                                None => {
                                    return None;
                                },
                                Some(w) => {
                                    if 0xDC00 <= w && w < 0xE000 {
                                        let scalar: u32 = 0x10000 + (val - 0xD800) * 0x400 + (w
                                            - 0xDC00);
                                        match char_from_u32(scalar) {
                                            None => {
                                                return None;
                                            },
                                            Some(ch) => {
                                                proof {
                                                    let ghost rest = spec_parse_string_body(
                                                        v@,
                                                        k + 12 as int,
                                                    );
                                                    if rest is Some {
                                                        assert(acc@ + (seq![ch] + (rest->0).0)
                                                            =~= acc@.push(ch) + (rest->0).0);
                                                    }
                                                }
                                                acc.push(ch);
                                                k = k + 12;
                                            },
                                        }
                                    } else {
                                        return None;
                                    }
                                },
                            }
                        } else {
                            // a lone low surrogate
                            return None;
                        }
                    },
                }
            } else {
                match unescape_char(e) {
                    None => {
                        return None;
                    },
                    Some(ch) => {
                        proof {
                            let ghost rest = spec_parse_string_body(v@, k + 2 as int);
                            if rest is Some {
                                assert(acc@ + (seq![ch] + (rest->0).0) =~= acc@.push(ch)
                                    + (rest->0).0);
                            }
                        }
                        acc.push(ch);
                        k = k + 2;
                    },
                }
            }
        } else if (c as u32) < 0x20 {
            return None;
        } else {
            proof {
                let ghost rest = spec_parse_string_body(v@, k + 1 as int);
                if rest is Some {
                    assert(acc@ + (seq![c] + (rest->0).0) =~= acc@.push(c) + (rest->0).0);
                }
            }
            acc.push(c);
            k = k + 1;
        }
    }
}

fn parse_string(v: &Vec<char>, i: usize) -> (r: Option<(Vec<char>, usize)>)
    requires
        i <= v@.len(),
    ensures
        match r {
            Some((t, j)) => spec_parse_string(v@, i as int) == Some((t@, j as int)) && i < j
                <= v@.len(),
            None => spec_parse_string(v@, i as int) is None,
        },
{
    let j = skip_ws(v, i);
    if j < v.len() && v[j] == '"' {
        parse_string_body(v, j + 1)
    } else {
        None
    }
}

fn parse_uint_ws(v: &Vec<char>, i: usize) -> (r: Option<(u128, usize)>)
    requires
        i <= v@.len(),
    ensures
        match r {
            Some((x, j)) => spec_parse_uint_ws(v@, i as int) == Some((x as nat, j as int)) && i
                < j <= v@.len(),
            None => spec_parse_uint_ws(v@, i as int) is None || (spec_parse_uint_ws(
                v@,
                i as int,
            ) matches Some((x0, _)) && x0 > u128::MAX),
        },
{
    let start = skip_ws(v, i);
    if start >= v.len() {
        return None;
    }
    let c0 = v[start];
    if !('0' as u32 <= c0 as u32 && c0 as u32 <= '9' as u32) {
        return None;
    }
    if c0 == '0' {
        if start + 1 < v.len() && '0' as u32 <= v[start + 1] as u32 && v[start + 1] as u32
            <= '9' as u32 {
            return None;
        }
        return Some((0, start + 1));
    }
    let mut acc: u128 = 0;
    let ghost mut acc_g: nat = 0nat;
    let mut overflow: bool = false;
    let mut k: usize = start;
    while k < v.len() && '0' as u32 <= v[k] as u32 && v[k] as u32 <= '9' as u32
        invariant
            start <= k <= v@.len(),
            spec_parse_digits(v@, start as int, 0nat) == spec_parse_digits(v@, k as int, acc_g),
            !overflow ==> acc as nat == acc_g,
            overflow ==> acc_g > u128::MAX,
        decreases v@.len() - k,
    {
        let d: u32 = v[k] as u32 - '0' as u32;
        proof {
            acc_g = acc_g * 10 + digit_val(v@[k as int]);
        }
        if overflow {
        } else if acc > u128::MAX / 10 || (acc == u128::MAX / 10 && d as u128 > u128::MAX % 10) {
            overflow = true;
        } else {
            acc = acc * 10 + d as u128;
        }
        k = k + 1;
    }
    if overflow {
        None
    } else {
        Some((acc, k))
    }
}

fn parse_bool_ws(v: &Vec<char>, i: usize) -> (r: Option<(bool, usize)>)
    requires
        i <= v@.len(),
    ensures
        spec_parse_bool_ws(v@, i as int) == (match r {
            Some((b, j)) => Some((b, j as int)),
            None => None::<(bool, int)>,
        }),
        r matches Some((_, j)) ==> i < j <= v@.len(),
{
    let j = skip_ws(v, i);
    if v.len() - j >= 4 && v[j] == 't' && v[j + 1] == 'r' && v[j + 2] == 'u' && v[j + 3] == 'e' {
        Some((true, j + 4))
    } else if v.len() - j >= 5 && v[j] == 'f' && v[j + 1] == 'a' && v[j + 2] == 'l' && v[j + 3]
        == 's' && v[j + 4] == 'e' {
        Some((false, j + 5))
    } else {
        None
    }
}

fn chars_eq(a: &Vec<char>, b: &Vec<char>) -> (r: bool)
    ensures
        r == (a@ == b@),
{
    if a.len() != b.len() {
        return false;
    }
    let mut i: usize = 0;
    while i < a.len()
        invariant
            i <= a@.len(),
            a@.len() == b@.len(),
            forall|j: int| 0 <= j < i ==> a@[j] == b@[j],
        decreases a@.len() - i,
    {
        if a[i] != b[i] {
            return false;
        }
        i = i + 1;
    }
    proof {
        assert(a@ =~= b@);
    }
    true
}

/// Parses a text frame as a clip. Returns the clip iff the frame is a JSON
/// object with exactly the fields `text` and `timestamp` (in either order),
/// the timestamp fitting the timestamp type.
pub fn parse_clip(s: &str) -> (r: Option<Clip>)
    ensures
        match r {
            Some(c) => spec_parse_clip(s@) == Some((c.text@, c.timestamp)),
            None => spec_parse_clip(s@) is None,
        },
{
    let v = str_to_chars(s);
    let key_text = str_to_chars("text");
    let key_timestamp = str_to_chars("timestamp");
    let i1 = match tok(&v, 0, '{') {
        None => {
            return None;
        },
        Some(j) => j,
    };
    let (k1, i2) = match parse_string(&v, i1) {
        None => {
            return None;
        },
        Some(p) => p,
    };
    let i3 = match tok(&v, i2, ':') {
        None => {
            return None;
        },
        Some(j) => j,
    };
    if chars_eq(&k1, &key_text) {
        let (t, i4) = match parse_string(&v, i3) {
            None => {
                return None;
            },
            Some(p) => p,
        };
        let i5 = match tok(&v, i4, ',') {
            None => {
                return None;
            },
            Some(j) => j,
        };
        let (k2, i6) = match parse_string(&v, i5) {
            None => {
                return None;
            },
            Some(p) => p,
        };
        if !chars_eq(&k2, &key_timestamp) {
            return None;
        }
        let i7 = match tok(&v, i6, ':') {
            None => {
                return None;
            },
            Some(j) => j,
        };
        let (ts, i8) = match parse_uint_ws(&v, i7) {
            None => {
                return None;
            },
            Some(p) => p,
        };
        let i9 = match tok(&v, i8, '}') {
            None => {
                return None;
            },
            Some(j) => j,
        };
        if skip_ws(&v, i9) != v.len() {
            return None;
        }
        Some(Clip { text: chars_to_string(&t), timestamp: ts })
    } else if chars_eq(&k1, &key_timestamp) {
        let (ts, i4) = match parse_uint_ws(&v, i3) {
            None => {
                return None;
            },
            Some(p) => p,
        };
        let i5 = match tok(&v, i4, ',') {
            None => {
                return None;
            },
            Some(j) => j,
        };
        let (k2, i6) = match parse_string(&v, i5) {
            None => {
                return None;
            },
            Some(p) => p,
        };
        if !chars_eq(&k2, &key_text) {
            return None;
        }
        let i7 = match tok(&v, i6, ':') {
            None => {
                return None;
            },
            Some(j) => j,
        };
        let (t, i8) = match parse_string(&v, i7) {
            None => {
                return None;
            },
            Some(p) => p,
        };
        let i9 = match tok(&v, i8, '}') {
            None => {
                return None;
            },
            Some(j) => j,
        };
        if skip_ws(&v, i9) != v.len() {
            return None;
        }
        Some(Clip { text: chars_to_string(&t), timestamp: ts })
    } else {
        None
    }
}

/// Parses a text frame as the auth reply. Returns the flag iff the frame is
/// a JSON object with exactly the field `success` holding a boolean.
pub fn parse_auth_reply(s: &str) -> (r: Option<bool>)
    ensures
        r == spec_parse_auth_reply(s@),
{
    let v = str_to_chars(s);
    let key_success = str_to_chars("success");
    let i1 = match tok(&v, 0, '{') {
        None => {
            return None;
        },
        Some(j) => j,
    };
    let (k, i2) = match parse_string(&v, i1) {
        None => {
            return None;
        },
        Some(p) => p,
    };
    if !chars_eq(&k, &key_success) {
        return None;
    }
    let i3 = match tok(&v, i2, ':') {
        None => {
            return None;
        },
        Some(j) => j,
    };
    let (b, i4) = match parse_bool_ws(&v, i3) {
        None => {
            return None;
        },
        Some(p) => p,
    };
    let i5 = match tok(&v, i4, '}') {
        None => {
            return None;
        },
        Some(j) => j,
    };
    if skip_ws(&v, i5) != v.len() {
        return None;
    }
    Some(b)
}

// ---------------------------------------------------------------------------
// Round trip: a clip rendered by the encoder parses back to the same values.
// ---------------------------------------------------------------------------

spec fn pow10(k: nat) -> nat
    decreases k,
{
    if k == 0 {
        1
    } else {
        10 * pow10((k - 1) as nat)
    }
}

proof fn lemma_dec_digits_shape(n: nat)
    ensures
        spec_dec_digits(n).len() >= 1,
        forall|k: int|
            0 <= k < spec_dec_digits(n).len() ==> is_digit(#[trigger] spec_dec_digits(n)[k])
                && !is_ws(spec_dec_digits(n)[k]),
        n > 0 ==> spec_dec_digits(n)[0] != '0',
        n == 0 ==> spec_dec_digits(n) =~= seq!['0'],
    decreases n,
{
    if n < 10 {
        assert(spec_dec_digits(n) == seq![dec_digit_char(n)]);
    } else {
        lemma_dec_digits_shape(n / 10);
        assert(spec_dec_digits(n) == spec_dec_digits(n / 10) + seq![dec_digit_char(n % 10)]);
        assert(spec_dec_digits(n)[0] == spec_dec_digits(n / 10)[0]);
        assert(forall|k: int|
            0 <= k < spec_dec_digits(n / 10).len() ==> #[trigger] spec_dec_digits(n)[k]
                == spec_dec_digits(n / 10)[k]);
    }
}

proof fn lemma_parse_digits_chunk(s: Seq<char>, i: int, m: nat, acc: nat)
    requires
        0 <= i,
        i + spec_dec_digits(m).len() <= s.len(),
        s.subrange(i, i + spec_dec_digits(m).len() as int) == spec_dec_digits(m),
    ensures
        spec_parse_digits(s, i, acc) == spec_parse_digits(
            s,
            i + spec_dec_digits(m).len() as int,
            acc * pow10(spec_dec_digits(m).len() as nat) + m,
        ),
    decreases m,
{
    lemma_dec_digits_shape(m);
    let dd = spec_dec_digits(m);
    let ll = dd.len() as int;
    assert forall|k: int| 0 <= k < ll implies s[i + k] == dd[k] by {
        assert(s.subrange(i, i + ll)[k] == s[i + k]);
    }
    if m < 10 {
        assert(s[i] == dec_digit_char(m));
        assert(digit_val(dec_digit_char(m)) == m);
        assert(spec_parse_digits(s, i, acc) == spec_parse_digits(s, i + 1, acc * 10 + m));
        assert(pow10(0) == 1);
        assert(pow10(1) == 10);
    } else {
        let pre = spec_dec_digits(m / 10);
        let pl = pre.len() as int;
        let d = m % 10;
        assert(dd == pre + seq![dec_digit_char(d)]);
        assert(s.subrange(i, i + pl) =~= pre) by {
            assert forall|k: int| 0 <= k < pl implies s.subrange(i, i + pl)[k] == pre[k] by {
                assert(s[i + k] == dd[k]);
                assert(dd[k] == pre[k]);
            }
        }
        lemma_parse_digits_chunk(s, i, m / 10, acc);
        let acc0 = acc * pow10(pre.len() as nat) + m / 10;
        assert(s[i + pl] == dd[pl]);
        assert(dd[pl] == dec_digit_char(d));
        assert(digit_val(dec_digit_char(d)) == d);
        assert(spec_parse_digits(s, i + pl, acc0) == spec_parse_digits(
            s,
            i + pl + 1,
            acc0 * 10 + d,
        ));
        assert(acc0 * 10 + d == acc * pow10(dd.len() as nat) + m) by {
            assert(pow10(dd.len() as nat) == 10 * pow10(pre.len() as nat));
            assert((acc * pow10(pre.len() as nat) + m / 10) * 10 == acc * (10 * pow10(
                pre.len() as nat,
            )) + (m / 10) * 10) by (nonlinear_arith);
            vstd::arithmetic::div_mod::lemma_fundamental_div_mod(m as int, 10);
        }
    }
}

proof fn lemma_parse_uint_of_digits(s: Seq<char>, i: int, n: nat)
    requires
        0 <= i,
        i + spec_dec_digits(n).len() <= s.len(),
        s.subrange(i, i + spec_dec_digits(n).len() as int) == spec_dec_digits(n),
        i + spec_dec_digits(n).len() == s.len() || !is_digit(
            s[i + spec_dec_digits(n).len() as int],
        ),
    ensures
        spec_parse_uint(s, i) == Some((n, i + spec_dec_digits(n).len() as int)),
{
    lemma_dec_digits_shape(n);
    let dd = spec_dec_digits(n);
    let ll = dd.len() as int;
    assert forall|k: int| 0 <= k < ll implies s[i + k] == dd[k] by {
        assert(s.subrange(i, i + ll)[k] == s[i + k]);
    }
    assert(s[i] == dd[0]);
    assert(is_digit(s[i]));
    if n == 0 {
        assert(s[i] == '0');
        assert(spec_parse_uint(s, i) == Some((0nat, i + 1)));
    } else {
        assert(s[i] != '0');
        lemma_parse_digits_chunk(s, i, n, 0nat);
        assert(0nat * pow10(dd.len() as nat) + n == n);
        assert(spec_parse_digits(s, i + ll, n) == (n, i + ll));
    }
}

proof fn lemma_hex_of_digit(n: nat)
    requires
        n < 16,
    ensures
        hex_val(hex_digit_char(n)) == Some(n),
{
}

proof fn lemma_parse_escaped_string(s: Seq<char>, i: int, t: Seq<char>)
    requires
        0 <= i,
        i + spec_escape(t).len() + 1 <= s.len(),
        s.subrange(i, i + spec_escape(t).len() + 1) == spec_escape(t).push('"'),
    ensures
        spec_parse_string_body(s, i) == Some((t, i + spec_escape(t).len() + 1)),
    decreases t.len(),
{
    let ee = spec_escape(t);
    let ll = ee.len() as int;
    assert forall|k: int| 0 <= k <= ll implies s[i + k] == ee.push('"')[k] by {
        assert(s.subrange(i, i + ll + 1)[k] == s[i + k]);
    }
    if t.len() == 0 {
        assert(ee == Seq::<char>::empty());
        assert(ee.push('"')[0] == '"');
        assert(s[i + 0] == ee.push('"')[0]);
        assert(s[i] == '"');
        assert(spec_parse_string_body(s, i) == Some((Seq::<char>::empty(), i + 1)));
        assert(t =~= Seq::<char>::empty());
    } else {
        let c = t[0];
        let e = spec_escape_char(c);
        let t2 = t.drop_first();
        let e2 = spec_escape(t2);
        let el = e.len() as int;
        let l2 = e2.len() as int;
        assert(ee == e + e2);
        assert(ll == el + l2);
        assert forall|k: int| 0 <= k < el implies s[i + k] == e[k] by {
            assert(ee.push('"')[k] == ee[k]);
            assert(ee[k] == e[k]);
        }
        assert(s.subrange(i + el, i + el + l2 + 1) =~= e2.push('"')) by {
            assert forall|k: int| 0 <= k < l2 + 1 implies s.subrange(
                i + el,
                i + el + l2 + 1,
            )[k] == e2.push('"')[k] by {
                assert(s.subrange(i + el, i + el + l2 + 1)[k] == s[i + el + k]);
                assert(s[i + el + k] == ee.push('"')[el + k]);
                if k < l2 {
                    assert(ee.push('"')[el + k] == ee[el + k]);
                    assert(ee[el + k] == e2[k]);
                } else {
                    assert(ee.push('"')[el + k] == '"');
                }
            }
        }
        lemma_parse_escaped_string(s, i + el, t2);
        assert(seq![c] + t2 =~= t);
        if c == '"' || c == '\\' || c == '\n' || c == '\r' || c == '\t' {
            assert(e[0] == '\\');
            assert(s[i] == '\\');
            assert(s[i + 1] == e[1]);
            assert(e[1] != 'u');
            assert(spec_unescape_char(e[1]) == Some(c));
            assert(spec_parse_string_body(s, i) == Some((seq![c] + t2, i + ll + 1)));
        } else if (c as u32) < 0x20 {
            let u = c as u32;
            assert(e == seq!['\\', 'u', '0', '0', hex_digit_char((u / 16) as nat),
                hex_digit_char((u % 16) as nat)]);
            assert(s[i] == '\\');
            assert(s[i + 1] == 'u');
            assert(s[i + 2] == '0');
            assert(s[i + 3] == '0');
            assert(s[i + 4] == hex_digit_char((u / 16) as nat));
            assert(s[i + 5] == hex_digit_char((u % 16) as nat));
            lemma_hex_of_digit((u / 16) as nat);
            lemma_hex_of_digit((u % 16) as nat);
            assert(hex_val('0') == Some(0nat));
            let v = (u / 16) as nat * 16 + (u % 16) as nat;
            assert(spec_hex4(s, i + 2) == Some(0nat * 4096 + 0nat * 256 + (u / 16) as nat * 16
                + (u % 16) as nat));
            assert(v == u as nat);
            assert(!is_high_surrogate(v) && !is_low_surrogate(v));
            vstd::utf8::char_u32_cast(c, u);
            assert((v as u32) as char == c);
            assert(spec_parse_string_body(s, i) == Some((seq![c] + t2, i + ll + 1)));
        } else {
            assert(e == seq![c]);
            assert(s[i] == c);
            assert(c != '"' && c != '\\' && !((c as u32) < 0x20));
            assert(spec_parse_string_body(s, i) == Some((seq![c] + t2, i + ll + 1)));
        }
    }
}

proof fn lemma_escape_plain(t: Seq<char>)
    requires
        forall|k: int| 0 <= k < t.len() ==> spec_escape_char(#[trigger] t[k]) == seq![t[k]],
    ensures
        spec_escape(t) == t,
    decreases t.len(),
{
    if t.len() == 0 {
        assert(spec_escape(t) =~= t);
    } else {
        assert(forall|k: int|
            0 <= k < t.drop_first().len() ==> spec_escape_char(#[trigger] t.drop_first()[k])
                == seq![t.drop_first()[k]]);
        lemma_escape_plain(t.drop_first());
        assert(spec_escape(t) =~= t);
    }
}

/// Round trip: the wire rendering of any text and timestamp parses back to
/// exactly those values. In particular empty text and multi-byte text
/// survive a trip over the wire unchanged.
pub proof fn lemma_clip_round_trip(text: Seq<char>, ts: u128)
    ensures
        spec_parse_clip(spec_clip_json(text, ts)) == Some((text, ts)),
{
    reveal_strlit("{\"text\":\"");
    reveal_strlit("\",\"timestamp\":");
    reveal_strlit("}");
    reveal_strlit("text");
    reveal_strlit("timestamp");
    let lit1 = "{\"text\":\""@;
    let lit2 = "\",\"timestamp\":"@;
    let lit3 = "}"@;
    let ee = spec_escape(text);
    let el = ee.len() as int;
    let dd = spec_dec_digits(ts as nat);
    let dl = dd.len() as int;
    let s = spec_clip_json(text, ts);
    assert(s == lit1 + ee + lit2 + dd + lit3);
    assert(lit1.len() == 9);
    assert(lit2.len() == 14);
    assert(lit3.len() == 1);
    lemma_dec_digits_shape(ts as nat);
    assert(s.len() == 24 + el + dl);

    // where each piece sits
    assert forall|k: int| 0 <= k < 9 implies s[k] == lit1[k] by {}
    assert forall|k: int| 0 <= k < el implies s[9 + k] == ee[k] by {}
    assert forall|k: int| 0 <= k < 14 implies s[9 + el + k] == lit2[k] by {}
    assert forall|k: int| 0 <= k < dl implies s[23 + el + k] == dd[k] by {}
    assert(s[23 + el + dl] == '}');

    // "{" token
    assert(s[0] == '{' && !is_ws('{'));
    assert(spec_skip_ws(s, 0) == 0);
    assert(spec_tok(s, 0, '{') == Some(1int));

    // key "text"
    assert(s[1] == '"' && !is_ws('"'));
    assert(spec_skip_ws(s, 1) == 1);
    let keyt = "text"@;
    assert(keyt.len() == 4);
    assert forall|k: int| 0 <= k < keyt.len() implies spec_escape_char(#[trigger] keyt[k])
        == seq![keyt[k]] by {}
    lemma_escape_plain(keyt);
    assert(s.subrange(2, 7) =~= spec_escape(keyt).push('"')) by {
        assert forall|k: int| 0 <= k < 5 implies s.subrange(2, 7)[k] == spec_escape(keyt).push(
            '"',
        )[k] by {
            assert(s.subrange(2, 7)[k] == s[2 + k]);
            assert(s[2 + k] == lit1[2 + k]);
        }
    }
    lemma_parse_escaped_string(s, 2, keyt);
    assert(spec_parse_string(s, 1) == Some((keyt, 7int)));

    // ":" token
    assert(s[7] == ':' && !is_ws(':'));
    assert(spec_skip_ws(s, 7) == 7);
    assert(spec_tok(s, 7, ':') == Some(8int));

    // the text value
    assert(s[8] == '"' && !is_ws('"'));
    assert(spec_skip_ws(s, 8) == 8);
    assert(s.subrange(9, 9 + el + 1) =~= ee.push('"')) by {
        assert forall|k: int| 0 <= k < el + 1 implies s.subrange(9, 9 + el + 1)[k] == ee.push(
            '"',
        )[k] by {
            assert(s.subrange(9, 9 + el + 1)[k] == s[9 + k]);
            if k < el {
            } else {
                assert(s[9 + el] == lit2[0]);
            }
        }
    }
    lemma_parse_escaped_string(s, 9, text);
    assert(spec_parse_string(s, 8) == Some((text, 10 + el)));

    // "," token
    assert(s[10 + el] == lit2[1]);
    assert(s[10 + el] == ',' && !is_ws(','));
    assert(spec_skip_ws(s, 10 + el) == 10 + el);
    assert(spec_tok(s, 10 + el, ',') == Some(11 + el));

    // key "timestamp"
    assert(s[11 + el] == lit2[2]);
    assert(s[11 + el] == '"');
    assert(spec_skip_ws(s, 11 + el) == 11 + el);
    let keyts = "timestamp"@;
    assert(keyts.len() == 9);
    assert forall|k: int| 0 <= k < keyts.len() implies spec_escape_char(#[trigger] keyts[k])
        == seq![keyts[k]] by {}
    lemma_escape_plain(keyts);
    assert(s.subrange(12 + el, 22 + el) =~= spec_escape(keyts).push('"')) by {
        assert forall|k: int| 0 <= k < 10 implies s.subrange(12 + el, 22 + el)[k]
            == spec_escape(keyts).push('"')[k] by {
            assert(s.subrange(12 + el, 22 + el)[k] == s[12 + el + k]);
            assert(s[12 + el + k] == lit2[3 + k]);
        }
    }
    lemma_parse_escaped_string(s, 12 + el, keyts);
    assert(spec_parse_string(s, 11 + el) == Some((keyts, 22 + el)));

    // ":" token
    assert(s[22 + el] == lit2[13]);
    assert(s[22 + el] == ':');
    assert(spec_skip_ws(s, 22 + el) == 22 + el);
    assert(spec_tok(s, 22 + el, ':') == Some(23 + el));

    // the timestamp value
    assert(s[23 + el] == dd[0]);
    assert(!is_ws(s[23 + el]));
    assert(spec_skip_ws(s, 23 + el) == 23 + el);
    assert(s.subrange(23 + el, 23 + el + dl) =~= dd) by {
        assert forall|k: int| 0 <= k < dl implies s.subrange(23 + el, 23 + el + dl)[k]
            == dd[k] by {
            assert(s.subrange(23 + el, 23 + el + dl)[k] == s[23 + el + k]);
        }
    }
    assert(!is_digit(s[23 + el + dl]));
    lemma_parse_uint_of_digits(s, 23 + el, ts as nat);
    assert(spec_parse_uint_ws(s, 23 + el) == Some((ts as nat, 23 + el + dl)));

    // "}" token and the end of input
    assert(!is_ws('}'));
    assert(spec_skip_ws(s, 23 + el + dl) == 23 + el + dl);
    assert(spec_tok(s, 23 + el + dl, '}') == Some(24 + el + dl));
    assert(spec_skip_ws(s, 24 + el + dl) == s.len());
    assert(ts as nat <= u128::MAX);
    assert(keyt == "text"@);
    assert(spec_parse_clip(s) == Some((text, (ts as nat) as u128)));
    assert((ts as nat) as u128 == ts);
}

} // verus!
