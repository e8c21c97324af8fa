//! The token record format.
//!
//! A token is written as the JSON object `{"access_token":"..."}`. Reading
//! accepts a flat JSON object — string, number, boolean and null members,
//! surrounding whitespace, and the JSON string escapes over ASCII code
//! points — and yields the value of its `access_token` member.
use vstd::prelude::*;

use crate::strutil::push_char;

verus! {

/// Lowercase hexadecimal digit character of a value below sixteen.
pub open spec fn hex_digit_char(d: nat) -> char {
    if d < 10 {
        ((48 + d) as u8) as char
    } else {
        ((87 + d) as u8) as char
    }
}

/// How one character is written inside a JSON string: quote and backslash get
/// a backslash escape, control characters a `\u00..` escape, every other
/// character stands as itself.
pub open spec fn escape_char(c: char) -> Seq<char> {
    if c == '"' {
        seq!['\\', '"']
    } else if c == '\\' {
        seq!['\\', '\\']
    } else if (c as u32) < 32 {
        seq![
            '\\',
            'u',
            '0',
            '0',
            hex_digit_char(((c as u32) / 16) as nat),
            hex_digit_char(((c as u32) % 16) as nat),
        ]
    } else {
        seq![c]
    }
}

/// A whole string escaped, character by character.
pub open spec fn escape_string(s: Seq<char>) -> Seq<char>
    decreases s.len(),
{
    if s.len() == 0 {
        Seq::empty()
    } else {
        escape_char(s[0]) + escape_string(s.drop_first())
    }
}

/// The serialized form of a token record.
pub open spec fn token_json(access_token: Seq<char>) -> Seq<char> {
    "{\"access_token\":\""@ + escape_string(access_token) + "\"}"@
}

proof fn lemma_escape_take_step(s: Seq<char>, i: int)
    requires
        0 <= i < s.len(),
    ensures
        escape_string(s.take(i + 1)) == escape_string(s.take(i)) + escape_char(s[i]),
    decreases i,
{
    if i == 0 {
        assert(s.take(1).drop_first() =~= s.take(0));
        assert(escape_string(s.take(0)) == Seq::<char>::empty());
        assert(escape_string(s.take(1)) == escape_char(s.take(1)[0]) + escape_string(s.take(0)));
        assert(escape_string(s.take(0)) + escape_char(s[0]) =~= escape_char(s[0]));
        assert(escape_char(s.take(1)[0]) + escape_string(s.take(0)) =~= escape_char(s[0]));
    } else {
        let t = s.drop_first();
        lemma_escape_take_step(t, i - 1);
        assert(s.take(i + 1).drop_first() =~= t.take(i));
        assert(s.take(i).drop_first() =~= t.take(i - 1));
        assert(escape_string(s.take(i + 1)) == escape_char(s[0]) + escape_string(t.take(i)));
        assert(escape_string(s.take(i)) == escape_char(s[0]) + escape_string(t.take(i - 1)));
        assert(t.take(i - 1) == s.take(i).drop_first());
        assert(t[i - 1] == s[i]);
        assert(escape_char(s[0]) + (escape_string(t.take(i - 1)) + escape_char(t[i - 1])) =~= (
        escape_char(s[0]) + escape_string(t.take(i - 1))) + escape_char(t[i - 1]));
    }
}

/// Lowercase hexadecimal digit of a value below sixteen.
fn hex_char(d: u8) -> (c: char)
    requires
        d < 16,
    ensures
        c == hex_digit_char(d as nat),
{
    if d < 10 {
        (48 + d) as char
    } else {
        (87 + d) as char
    }
}

/// Appends the escaped form of `s` to `out`.
fn append_escaped(out: &mut String, s: &str)
    ensures
        final(out)@ == old(out)@ + escape_string(s@),
{
    let len = s.unicode_len();
    let mut i: usize = 0;
    proof {
        assert(escape_string(s@.take(0)) =~= Seq::<char>::empty());
        assert(old(out)@ + escape_string(s@.take(0)) =~= old(out)@);
    }
    while i < len
        invariant
            i <= len,
            len == s@.len(),
            out@ == old(out)@ + escape_string(s@.take(i as int)),
        decreases len - i,
    {
        let c = s.get_char(i);
        if c == '"' {
            out.append("\\\"");
            proof {
                reveal_strlit("\\\"");
                assert("\\\""@ =~= escape_char(c));
            }
        } else if c == '\\' {
            out.append("\\\\");
            proof {
                reveal_strlit("\\\\");
                assert("\\\\"@ =~= escape_char(c));
            }
        } else if (c as u32) < 32 {
            let v = c as u32;
            out.append("\\u00");
            push_char(out, hex_char((v / 16) as u8));
            push_char(out, hex_char((v % 16) as u8));
            proof {
                reveal_strlit("\\u00");
                assert(("\\u00"@).push(hex_digit_char((v / 16) as nat)).push(
                    hex_digit_char((v % 16) as nat),
                ) =~= escape_char(c));
            }
        } else {
            push_char(out, c);
            proof {
                assert(old(out)@ + escape_string(s@.take(i as int)) + seq![c] =~= old(out)@ + (
                escape_string(s@.take(i as int)) + escape_char(c)));
            }
        }
        proof {
            lemma_escape_take_step(s@, i as int);
            assert(out@ =~= old(out)@ + escape_string(s@.take(i + 1)));
        }
        i = i + 1;
    }
    proof {
        assert(s@.take(len as int) =~= s@);
    }
}

/// JSON insignificant whitespace.
pub open spec fn is_json_ws(c: char) -> bool {
    c == ' ' || c == '\t' || c == '\n' || c == '\r'
}

/// Position of the first non-whitespace character at or after `i`.
pub open spec fn sp_skip_ws(s: Seq<char>, i: int) -> int
    decreases s.len() - i,
{
    if i < s.len() && is_json_ws(s[i]) {
        sp_skip_ws(s, i + 1)
    } else {
        i
    }
}

/// The value of a hexadecimal digit character, if it is one.
pub open spec fn hex_val(c: char) -> Option<nat> {
    let v = c as u32;
    if 48 <= v && v <= 57 {
        Some((v - 48) as nat)
    } else if 97 <= v && v <= 102 {
        Some((v - 87) as nat)
    } else if 65 <= v && v <= 70 {
        Some((v - 55) as nat)
    } else {
        None
    }
}

/// Parse of the inside of a JSON string from `i`, just after the opening
/// quote: the decoded content so far is `acc`. Yields the full content and
/// the position just after the closing quote. Escapes are accepted for ASCII
/// code points; raw control characters are refused.
pub open spec fn sp_string_body(s: Seq<char>, i: int, acc: Seq<char>) -> Option<(Seq<char>, int)>
    decreases s.len() - i,
{
    if i < 0 || i >= s.len() {
        None
    } else if s[i] == '"' {
        Some((acc, i + 1))
    } else if s[i] == '\\' {
        if i + 1 >= s.len() {
            None
        } else {
            let e = s[i + 1];
            if e == '"' {
                sp_string_body(s, i + 2, acc.push('"'))
            } else if e == '\\' {
                sp_string_body(s, i + 2, acc.push('\\'))
            } else if e == '/' {
                sp_string_body(s, i + 2, acc.push('/'))
            } else if e == 'n' {
                sp_string_body(s, i + 2, acc.push('\n'))
            } else if e == 't' {
                sp_string_body(s, i + 2, acc.push('\t'))
            } else if e == 'r' {
                sp_string_body(s, i + 2, acc.push('\r'))
            } else if e == 'b' {
                sp_string_body(s, i + 2, acc.push('\u{8}'))
            } else if e == 'f' {
                sp_string_body(s, i + 2, acc.push('\u{c}'))
            } else if e == 'u' {
                if i + 6 <= s.len() {
                    match (hex_val(s[i + 2]), hex_val(s[i + 3]), hex_val(s[i + 4]), hex_val(
                        s[i + 5],
                    )) {
                        (Some(h3), Some(h2), Some(h1), Some(h0)) => {
                            let v = h3 * 4096 + h2 * 256 + h1 * 16 + h0;
                            if v < 128 {
                                sp_string_body(s, i + 6, acc.push((v as u8) as char))
                            } else {
                                None
                            }
                        },
                        _ => None,
                    }
                } else {
                    None
                }
            } else {
                None
            }
        }
    } else if (s[i] as u32) < 32 {
        None
    } else {
        sp_string_body(s, i + 1, acc.push(s[i]))
    }
}

/// Parse of a JSON string at `i`, opening quote included.
pub open spec fn sp_string(s: Seq<char>, i: int) -> Option<(Seq<char>, int)> {
    if 0 <= i < s.len() && s[i] == '"' {
        sp_string_body(s, i + 1, Seq::empty())
    } else {
        None
    }
}

/// Characters that may make up a non-string literal value.
pub open spec fn is_literal_char(c: char) -> bool {
    let v = c as u32;
    (48 <= v && v <= 57) || (97 <= v && v <= 122) || (65 <= v && v <= 90) || v == 43 || v == 45
        || v == 46
}

/// Characters that may make up a number.
pub open spec fn is_number_char(c: char) -> bool {
    let v = c as u32;
    (48 <= v && v <= 57) || v == 43 || v == 45 || v == 46 || v == 101 || v == 69
}

/// Position of the first character at or after `i` that cannot belong to a
/// non-string literal.
pub open spec fn sp_scan_literal(s: Seq<char>, i: int) -> int
    decreases s.len() - i,
{
    if i < s.len() && is_literal_char(s[i]) {
        sp_scan_literal(s, i + 1)
    } else {
        i
    }
}

/// A non-string literal value: one of the keywords, or a number-shaped run.
pub open spec fn valid_literal(run: Seq<char>) -> bool {
    run == "true"@ || run == "false"@ || run == "null"@ || (run.len() > 0 && (48 <= (run[0] as u32)
        <= 57 || (run[0] as u32) == 45) && (forall|k: int|
        0 <= k < run.len() ==> is_number_char(run[k])))
}

/// Parse of a non-string literal value at `i`: yields the position after it.
pub open spec fn sp_literal(s: Seq<char>, i: int) -> Option<int> {
    let j = sp_scan_literal(s, i);
    if 0 <= i <= j <= s.len() && valid_literal(s.subrange(i, j)) {
        Some(j)
    } else {
        None
    }
}

/// Parse of one object member at `i`: a key string, a colon, and a value.
/// A string value is yielded; a non-string literal is checked and skipped.
pub open spec fn sp_member(s: Seq<char>, i: int) -> Option<((Seq<char>, Option<Seq<char>>), int)> {
    match sp_string(s, i) {
        None => None,
        Some((key, j)) => {
            let k = sp_skip_ws(s, j);
            if k < s.len() && s[k] == ':' {
                let m = sp_skip_ws(s, k + 1);
                if m < s.len() && s[m] == '"' {
                    match sp_string(s, m) {
                        None => None,
                        Some((v, e)) => Some(((key, Some(v)), e)),
                    }
                } else {
                    match sp_literal(s, m) {
                        None => None,
                        Some(e) => Some(((key, None), e)),
                    }
                }
            } else {
                None
            }
        },
    }
}

/// Parse of the member list from the first key at `i` up to the closing
/// brace. `found` carries the `access_token` value seen so far; a duplicate
/// member of that name, or one that is not a string, refuses the text.
pub open spec fn sp_members(s: Seq<char>, i: int, found: Option<Seq<char>>) -> Option<
    (Option<Seq<char>>, int),
>
    decreases s.len() - i,
{
    match sp_member(s, i) {
        None => None,
        Some(((key, sval), j)) => {
            if key == "access_token"@ && (found is Some || sval is None) {
                None
            } else {
                let nf = if key == "access_token"@ {
                    sval
                } else {
                    found
                };
                let k = sp_skip_ws(s, j);
                if k < s.len() && s[k] == ',' {
                    let m = sp_skip_ws(s, k + 1);
                    if i < m <= s.len() {
                        sp_members(s, m, nf)
                    } else {
                        None
                    }
                } else if k < s.len() && s[k] == '}' {
                    Some((nf, k + 1))
                } else {
                    None
                }
            }
        },
    }
}

/// The record grammar over a whole text: one flat object, nothing but
/// whitespace around it, and an `access_token` member inside it.
pub open spec fn spec_parse_token(s: Seq<char>) -> Option<Seq<char>> {
    let i = sp_skip_ws(s, 0);
    if i < s.len() && s[i] == '{' {
        let j = sp_skip_ws(s, i + 1);
        if j < s.len() && s[j] == '}' {
            None
        } else {
            match sp_members(s, j, None) {
                None => None,
                Some((found, e)) => {
                    let k = sp_skip_ws(s, e);
                    if k == s.len() {
                        found
                    } else {
                        None
                    }
                },
            }
        }
    } else {
        None
    }
}

/// Writes a token record: the one `access_token` member, escaped.
pub fn serialize_record(access_token: &str) -> (r: String)
    ensures
        r@ == token_json(access_token@),
{
    let mut out = String::from_str("{\"access_token\":\"");
    append_escaped(&mut out, access_token);
    out.append("\"}");
    proof {
        assert(out@ =~= token_json(access_token@));
    }
    out
}

/// Whether a character is JSON whitespace.
fn ws_char(c: char) -> (r: bool)
    ensures
        r == is_json_ws(c),
{
    c == ' ' || c == '\t' || c == '\n' || c == '\r'
}

/// Whether a character may make up a non-string literal value.
fn literal_char(c: char) -> (r: bool)
    ensures
        r == is_literal_char(c),
{
    let v = c as u32;
    (48 <= v && v <= 57) || (97 <= v && v <= 122) || (65 <= v && v <= 90) || v == 43 || v == 45
        || v == 46
}

/// Position of the first non-whitespace character at or after `i`.
fn skip_ws(s: &str, i: usize) -> (r: usize)
    requires
        i <= s@.len(),
    ensures
        r as int == sp_skip_ws(s@, i as int),
        i <= r <= s@.len(),
{
    let len = s.unicode_len();
    let mut j = i;
    while j < len && ws_char(s.get_char(j))
        invariant
            i <= j <= len,
            len == s@.len(),
            sp_skip_ws(s@, i as int) == sp_skip_ws(s@, j as int),
        decreases len - j,
    {
        j = j + 1;
    }
    j
}

/// The value of a hexadecimal digit character, if it is one.
fn hex_val_of(c: char) -> (r: Option<u8>)
    ensures
        match hex_val(c) {
            Some(d) => r matches Some(x) && x as nat == d,
            None => r is None,
        },
{
    let v = c as u32;
    if 48 <= v && v <= 57 {
        Some((v - 48) as u8)
    } else if 97 <= v && v <= 102 {
        Some((v - 87) as u8)
    } else if 65 <= v && v <= 70 {
        Some((v - 55) as u8)
    } else {
        None
    }
}

/// Parses the inside of a JSON string from `i`, just after the opening quote,
/// appending the decoded content to `acc`.
fn parse_string_body(s: &str, i: usize, acc: String) -> (r: Option<(String, usize)>)
    requires
        i <= s@.len(),
    ensures
        match sp_string_body(s@, i as int, acc@) {
            Some((c, j)) => r matches Some(p) && p.0@ == c && p.1 as int == j && p.1 <= s@.len(),
            None => r is None,
        },
    decreases s@.len() - i,
{
    let len = s.unicode_len();
    if i >= len {
        return None;
    }
    let c = s.get_char(i);
    if c == '"' {
        Some((acc, i + 1))
    } else if c == '\\' {
        if i + 1 >= len {
            return None;
        }
        let e = s.get_char(i + 1);
        let mut acc = acc;
        if e == '"' {
            push_char(&mut acc, '"');
            parse_string_body(s, i + 2, acc)
        } else if e == '\\' {
            push_char(&mut acc, '\\');
            parse_string_body(s, i + 2, acc)
        } else if e == '/' {
            push_char(&mut acc, '/');
            parse_string_body(s, i + 2, acc)
        } else if e == 'n' {
            push_char(&mut acc, '\n');
            parse_string_body(s, i + 2, acc)
        } else if e == 't' {
            push_char(&mut acc, '\t');
            parse_string_body(s, i + 2, acc)
        } else if e == 'r' {
            push_char(&mut acc, '\r');
            parse_string_body(s, i + 2, acc)
        } else if e == 'b' {
            push_char(&mut acc, '\u{8}');
            parse_string_body(s, i + 2, acc)
        } else if e == 'f' {
            push_char(&mut acc, '\u{c}');
            parse_string_body(s, i + 2, acc)
        } else if e == 'u' {
            if len - i < 6 {
                return None;
            }
            let h3 = hex_val_of(s.get_char(i + 2));
            let h2 = hex_val_of(s.get_char(i + 3));
            let h1 = hex_val_of(s.get_char(i + 4));
            let h0 = hex_val_of(s.get_char(i + 5));
            match (h3, h2, h1, h0) {
                (Some(a3), Some(a2), Some(a1), Some(a0)) => {
                    let v: u32 = (a3 as u32) * 4096 + (a2 as u32) * 256 + (a1 as u32) * 16 + (
                    a0 as u32);
                    if v < 128 {
                        push_char(&mut acc, (v as u8) as char);
                        parse_string_body(s, i + 6, acc)
                    } else {
                        None
                    }
                },
                _ => None,
            }
        } else {
            None
        }
    } else if (c as u32) < 32 {
        None
    } else {
        let mut acc = acc;
        push_char(&mut acc, c);
        parse_string_body(s, i + 1, acc)
    }
}

/// Parses a JSON string at `i`, opening quote included.
fn parse_string(s: &str, i: usize) -> (r: Option<(String, usize)>)
    requires
        i <= s@.len(),
    ensures
        match sp_string(s@, i as int) {
            Some((c, j)) => r matches Some(p) && p.0@ == c && p.1 as int == j && p.1 <= s@.len(),
            None => r is None,
        },
{
    let len = s.unicode_len();
    if i < len && s.get_char(i) == '"' {
        parse_string_body(s, i + 1, String::new())
    } else {
        None
    }
}

/// Checks that the run `s[i..j]` is a keyword or number-shaped literal.
fn literal_valid(s: &str, i: usize, j: usize) -> (r: bool)
    requires
        i <= j <= s@.len(),
    ensures
        r == valid_literal(s@.subrange(i as int, j as int)),
{
    let ghost run = s@.subrange(i as int, j as int);
    let n = j - i;
    let is_true = n == 4 && s.get_char(i) == 't' && s.get_char(i + 1) == 'r' && s.get_char(i + 2)
        == 'u' && s.get_char(i + 3) == 'e';
    let is_false = n == 5 && s.get_char(i) == 'f' && s.get_char(i + 1) == 'a' && s.get_char(i + 2)
        == 'l' && s.get_char(i + 3) == 's' && s.get_char(i + 4) == 'e';
    let is_null = n == 4 && s.get_char(i) == 'n' && s.get_char(i + 1) == 'u' && s.get_char(i + 2)
        == 'l' && s.get_char(i + 3) == 'l';
    proof {
        reveal_strlit("true");
        reveal_strlit("false");
        reveal_strlit("null");
        if is_true {
            assert(run =~= "true"@);
        }
        if is_false {
            assert(run =~= "false"@);
        }
        if is_null {
            assert(run =~= "null"@);
        }
        if run == "true"@ {
            assert(run.len() == 4 && run[0] == 't' && run[1] == 'r' && run[2] == 'u' && run[3]
                == 'e');
        }
        if run == "false"@ {
            assert(run.len() == 5 && run[0] == 'f' && run[1] == 'a' && run[2] == 'l' && run[3]
                == 's' && run[4] == 'e');
        }
        if run == "null"@ {
            assert(run.len() == 4 && run[0] == 'n' && run[1] == 'u' && run[2] == 'l' && run[3]
                == 'l');
        }
    }
    if is_true || is_false || is_null {
        return true;
    }
    if n == 0 {
        return false;
    }
    let first = s.get_char(i) as u32;
    let first_ok = (48 <= first && first <= 57) || first == 45;
    let mut all_num = true;
    let mut k = i;
    while k < j
        invariant
            i <= k <= j <= s@.len(),
            all_num <==> (forall|t: int| i <= t < k ==> is_number_char(s@[t])),
        decreases j - k,
    {
        let v = s.get_char(k) as u32;
        if !(48 <= v && v <= 57 || v == 43 || v == 45 || v == 46 || v == 101 || v == 69) {
            all_num = false;
        }
        k = k + 1;
    }
    proof {
        assert(run.len() == n);
        assert(forall|t: int| 0 <= t < run.len() ==> run[t] == s@[i + t]);
        assert(run[0] == s@[i as int]);
        if first_ok && all_num {
            assert(forall|t: int| 0 <= t < run.len() ==> is_number_char(run[t]));
            assert(valid_literal(run));
        } else {
            if !first_ok {
                assert(!(48 <= (run[0] as u32) <= 57 || (run[0] as u32) == 45));
            } else {
                let w = choose|t: int| i <= t < j && !is_number_char(s@[t]);
                assert(!is_number_char(run[w - i]));
            }
        }
    }
    first_ok && all_num
}

/// Parses a non-string literal value at `i`.
fn parse_literal(s: &str, i: usize) -> (r: Option<usize>)
    requires
        i <= s@.len(),
    ensures
        match sp_literal(s@, i as int) {
            Some(e) => r matches Some(x) && x as int == e && x <= s@.len(),
            None => r is None,
        },
{
    let len = s.unicode_len();
    let mut j = i;
    while j < len && literal_char(s.get_char(j))
        invariant
            i <= j <= len,
            len == s@.len(),
            sp_scan_literal(s@, i as int) == sp_scan_literal(s@, j as int),
        decreases len - j,
    {
        j = j + 1;
    }
    if literal_valid(s, i, j) {
        Some(j)
    } else {
        None
    }
}

/// Parses one object member at `i`.
fn parse_member(s: &str, i: usize) -> (r: Option<((String, Option<String>), usize)>)
    requires
        i <= s@.len(),
    ensures
        match sp_member(s@, i as int) {
            Some(((k, v), e)) => r matches Some(t) && t.0.0@ == k && crate::strutil::opt_view(
                t.0.1,
            ) == v && t.1 as int == e && t.1 <= s@.len(),
            None => r is None,
        },
{
    let len = s.unicode_len();
    match parse_string(s, i) {
        None => None,
        Some((key, j)) => {
            let k = skip_ws(s, j);
            if k < len && s.get_char(k) == ':' {
                let m = skip_ws(s, k + 1);
                if m < len && s.get_char(m) == '"' {
                    match parse_string(s, m) {
                        None => None,
                        Some((v, e)) => Some(((key, Some(v)), e)),
                    }
                } else {
                    match parse_literal(s, m) {
                        None => None,
                        Some(e) => Some(((key, None), e)),
                    }
                }
            } else {
                None
            }
        },
    }
}

/// Parses the member list from the first key at `i` up to the closing brace.
fn parse_members(s: &str, i: usize, found: Option<String>) -> (r: Option<(Option<String>, usize)>)
    requires
        i <= s@.len(),
    ensures
        match sp_members(s@, i as int, crate::strutil::opt_view(found)) {
            Some((f, e)) => r matches Some(p) && crate::strutil::opt_view(p.0) == f && p.1 as int
                == e && p.1 <= s@.len(),
            None => r is None,
        },
    decreases s@.len() - i,
{
    let len = s.unicode_len();
    match parse_member(s, i) {
        None => None,
        Some(((key, sval), j)) => {
            let target = String::from_str("access_token");
            let is_target = key == target;
            if is_target && (found.is_some() || sval.is_none()) {
                return None;
            }
            let nf = if is_target {
                sval
            } else {
                found
            };
            let k = skip_ws(s, j);
            if k < len && s.get_char(k) == ',' {
                let m = skip_ws(s, k + 1);
                if i < m {
                    parse_members(s, m, nf)
                } else {
                    None
                }
            } else if k < len && s.get_char(k) == '}' {
                Some((nf, k + 1))
            } else {
                None
            }
        },
    }
}

/// Reads a token record: yields the `access_token` member of a flat JSON
/// object, and nothing for a text outside the record grammar.
pub fn parse_access_token(s: &str) -> (r: Option<String>)
    ensures
        crate::strutil::opt_view(r) == spec_parse_token(s@),
{
    let len = s.unicode_len();
    let i = skip_ws(s, 0);
    if i < len && s.get_char(i) == '{' {
        let j = skip_ws(s, i + 1);
        if j < len && s.get_char(j) == '}' {
            None
        } else {
            match parse_members(s, j, None) {
                None => None,
                Some((found, e)) => {
                    let k = skip_ws(s, e);
                    if k == len {
                        found
                    } else {
                        None
                    }
                },
            }
        }
    } else {
        None
    }
}

/// A character that stands as itself inside a JSON string.
pub open spec fn plain_char(c: char) -> bool {
    c != '"' && c != '\\' && (c as u32) >= 32
}

proof fn lemma_body_plain_run(s: Seq<char>, i: int, j: int, acc: Seq<char>)
    requires
        0 <= i <= j <= s.len(),
        forall|k: int| i <= k < j ==> plain_char(s[k]),
    ensures
        sp_string_body(s, i, acc) == sp_string_body(s, j, acc + s.subrange(i, j)),
    decreases j - i,
{
    if i == j {
        assert(acc + s.subrange(i, j) =~= acc);
    } else {
        assert(plain_char(s[i]));
        assert(sp_string_body(s, i, acc) == sp_string_body(s, i + 1, acc.push(s[i])));
        lemma_body_plain_run(s, i + 1, j, acc.push(s[i]));
        assert(acc.push(s[i]) + s.subrange(i + 1, j) =~= acc + s.subrange(i, j));
    }
}

proof fn lemma_hex_val_of_digit(d: nat)
    requires
        d < 16,
    ensures
        hex_val(hex_digit_char(d)) == Some(d),
{
    if d < 10 {
        assert(hex_digit_char(d) as u32 == 48 + d);
    } else {
        assert(hex_digit_char(d) as u32 == 87 + d);
    }
}

#[verifier::rlimit(60)]
proof fn lemma_body_escaped(s: Seq<char>, i: int, t: Seq<char>, acc: Seq<char>)
    requires
        0 <= i,
        i + escape_string(t).len() <= s.len(),
        s.subrange(i, i + escape_string(t).len()) == escape_string(t),
    ensures
        sp_string_body(s, i, acc) == sp_string_body(s, i + escape_string(t).len(), acc + t),
    decreases t.len(),
{
    if t.len() == 0 {
        assert(acc + t =~= acc);
    } else {
        let c = t[0];
        let rest = t.drop_first();
        let ec = escape_char(c);
        let er = escape_string(rest);
        assert(escape_string(t) == ec + er);
        let full = escape_string(t).len() as int;
        let mid = i + ec.len() as int;
        assert forall|m: int| 0 <= m < ec.len() implies s[i + m] == ec[m] by {
            assert(s.subrange(i, i + full)[m] == s[i + m]);
            assert((ec + er)[m] == ec[m]);
        }
        assert forall|m: int| 0 <= m < er.len() implies s.subrange(mid, mid + er.len() as int)[m]
            == er[m] by {
            assert(s.subrange(i, i + full)[ec.len() + m] == s[mid + m]);
            assert((ec + er)[ec.len() + m] == er[m]);
            assert(s.subrange(mid, mid + er.len() as int)[m] == s[mid + m]);
        }
        assert(s.subrange(mid, mid + er.len() as int) =~= er);
        if c == '"' {
            assert(s[i + 0] == ec[0] && s[i + 1] == ec[1]);
            assert(s[i] == '\\' && s[i + 1] == '"');
            assert(sp_string_body(s, i, acc) == sp_string_body(s, i + 2, acc.push('"')));
            lemma_body_escaped(s, mid, rest, acc.push(c));
            assert(acc.push(c) + rest =~= acc + t);
        } else if c == '\\' {
            assert(s[i + 0] == ec[0] && s[i + 1] == ec[1]);
            assert(s[i] == '\\' && s[i + 1] == '\\');
            assert(sp_string_body(s, i, acc) == sp_string_body(s, i + 2, acc.push('\\')));
            lemma_body_escaped(s, mid, rest, acc.push(c));
            assert(acc.push(c) + rest =~= acc + t);
        } else if (c as u32) < 32 {
            let d = c as u32;
            let hi = (d / 16) as nat;
            let lo = (d % 16) as nat;
            assert(s[i + 0] == ec[0] && s[i + 1] == ec[1] && s[i + 2] == ec[2] && s[i + 3] == ec[3]
                && s[i + 4] == ec[4] && s[i + 5] == ec[5]);
            assert(s[i] == '\\' && s[i + 1] == 'u' && s[i + 2] == '0' && s[i + 3] == '0' && s[i
                + 4] == hex_digit_char(hi) && s[i + 5] == hex_digit_char(lo));
            lemma_hex_val_of_digit(hi);
            lemma_hex_val_of_digit(lo);
            assert(hex_val('0') == Some(0nat));
            let v = 0 * 4096 + 0 * 256 + hi * 16 + lo;
            assert(v == d) by {
                assert(d == 16 * (d / 16) + d % 16);
            }
            let c2 = (v as u8) as char;
            assert(c2 as u32 == d);
            vstd::utf8::char_u32_cast(c, c as u32);
            vstd::utf8::char_u32_cast(c2, c2 as u32);
            assert(c2 == c);
            assert(sp_string_body(s, i, acc) == sp_string_body(s, i + 6, acc.push(c)));
            lemma_body_escaped(s, mid, rest, acc.push(c));
            assert(acc.push(c) + rest =~= acc + t);
        } else {
            assert(plain_char(c));
            assert(s[i + 0] == ec[0]);
            assert(s[i] == c);
            assert(sp_string_body(s, i, acc) == sp_string_body(s, i + 1, acc.push(c)));
            lemma_body_escaped(s, mid, rest, acc.push(c));
            assert(acc.push(c) + rest =~= acc + t);
        }
    }
}

/// Law: reading back a written record yields exactly the token that was
/// written, whatever characters the access token holds.
pub proof fn lemma_token_round_trip(access_token: Seq<char>)
    ensures
        spec_parse_token(token_json(access_token)) == Some(access_token),
{
    reveal_strlit("{\"access_token\":\"");
    reveal_strlit("\"}");
    reveal_strlit("access_token");
    let pre = "{\"access_token\":\""@;
    let suf = "\"}"@;
    let esc = escape_string(access_token);
    let s = token_json(access_token);
    let n = esc.len() as int;
    let p = 17 + n;
    assert(pre.len() == 17);
    assert(suf.len() == 2);
    assert(s == (pre + esc) + suf);
    assert(s.len() == p + 2);
    assert forall|k: int| 0 <= k < 17 implies s[k] == pre[k] by {
        assert(((pre + esc) + suf)[k] == (pre + esc)[k]);
        assert((pre + esc)[k] == pre[k]);
    }
    assert forall|m: int| 0 <= m < n implies s[17 + m] == esc[m] by {
        assert(((pre + esc) + suf)[17 + m] == (pre + esc)[17 + m]);
        assert((pre + esc)[17 + m] == esc[m]);
    }
    assert forall|m: int| 0 <= m < 2 implies s[p + m] == suf[m] by {
        assert(((pre + esc) + suf)[p + m] == suf[m]);
    }
    assert(s[0] == '{' && s[1] == '"' && s[2] == 'a' && s[3] == 'c' && s[4] == 'c' && s[5] == 'e'
        && s[6] == 's' && s[7] == 's' && s[8] == '_' && s[9] == 't' && s[10] == 'o' && s[11] == 'k'
        && s[12] == 'e' && s[13] == 'n' && s[14] == '"' && s[15] == ':' && s[16] == '"');
    assert(s[p] == '"' && s[p + 1] == '}');
    // the surrounding shape
    assert(sp_skip_ws(s, 0) == 0);
    assert(sp_skip_ws(s, 1) == 1);
    // the key
    assert forall|k: int| 2 <= k < 14 implies plain_char(s[k]) by {
        if k == 2 || k == 3 || k == 4 || k == 5 || k == 6 || k == 7 || k == 8 || k == 9 || k == 10
            || k == 11 || k == 12 || k == 13 {
        }
    }
    lemma_body_plain_run(s, 2, 14, Seq::<char>::empty());
    let key = Seq::<char>::empty() + s.subrange(2, 14);
    assert(sp_string_body(s, 2, Seq::<char>::empty()) == Some((key, 15int)));
    assert(key =~= "access_token"@);
    assert(sp_string(s, 1) == Some(("access_token"@, 15int)));
    // the member around the value
    assert(sp_skip_ws(s, 15) == 15);
    assert(sp_skip_ws(s, 16) == 16);
    // the value
    assert forall|m: int| 0 <= m < n implies s.subrange(17, 17 + n)[m] == esc[m] by {
        assert(s.subrange(17, 17 + n)[m] == s[17 + m]);
    }
    assert(s.subrange(17, 17 + n) =~= esc);
    lemma_body_escaped(s, 17, access_token, Seq::<char>::empty());
    assert(sp_string_body(s, 17, Seq::<char>::empty()) == sp_string_body(
        s,
        p,
        Seq::<char>::empty() + access_token,
    ));
    assert(Seq::<char>::empty() + access_token =~= access_token);
    assert(sp_string_body(s, p, access_token) == Some((access_token, p + 1)));
    assert(sp_string(s, 16) == Some((access_token, p + 1)));
    assert(sp_member(s, 1) == Some((("access_token"@, Some(access_token)), p + 1)));
    // the member list and the closing brace
    assert(sp_skip_ws(s, p + 1) == p + 1);
    assert(sp_members(s, 1, Option::<Seq<char>>::None) == Some((Some(access_token), p + 2)));
    assert(sp_skip_ws(s, p + 2) == p + 2);
    assert(spec_parse_token(s) == Some(access_token));
}

} // verus!
