//! JSON string escaping, as it appears inside a JSON string literal: quote
//! and backslash get a two-character escape, the control characters with a
//! short name (backspace, tab, line feed, form feed, carriage return) get
//! theirs, every other control character becomes `\u00XX` with lower-case
//! hexadecimal digits, and all remaining characters stand verbatim.

use vstd::prelude::*;

verus! {

/// The lower-case hexadecimal digit for a value below 16.
pub open spec fn hex_digit(n: nat) -> char {
    if n == 0 {
        '0'
    } else if n == 1 {
        '1'
    } else if n == 2 {
        '2'
    } else if n == 3 {
        '3'
    } else if n == 4 {
        '4'
    } else if n == 5 {
        '5'
    } else if n == 6 {
        '6'
    } else if n == 7 {
        '7'
    } else if n == 8 {
        '8'
    } else if n == 9 {
        '9'
    } else if n == 10 {
        'a'
    } else if n == 11 {
        'b'
    } else if n == 12 {
        'c'
    } else if n == 13 {
        'd'
    } else if n == 14 {
        'e'
    } else {
        'f'
    }
}

/// The numeric value of a lower-case hexadecimal digit.
pub open spec fn hex_value(c: char) -> nat {
    if c == '0' {
        0
    } else if c == '1' {
        1
    } else if c == '2' {
        2
    } else if c == '3' {
        3
    } else if c == '4' {
        4
    } else if c == '5' {
        5
    } else if c == '6' {
        6
    } else if c == '7' {
        7
    } else if c == '8' {
        8
    } else if c == '9' {
        9
    } else if c == 'a' {
        10
    } else if c == 'b' {
        11
    } else if c == 'c' {
        12
    } else if c == 'd' {
        13
    } else if c == 'e' {
        14
    } else {
        15
    }
}

/// What escaping makes of one character.
pub open spec fn escape_char(c: char) -> Seq<char> {
    if c == '"' {
        seq!['\\', '"']
    } else if c == '\\' {
        seq!['\\', '\\']
    } else if c == '\u{8}' {
        seq!['\\', 'b']
    } else if c == '\t' {
        seq!['\\', 't']
    } else if c == '\n' {
        seq!['\\', 'n']
    } else if c == '\u{c}' {
        seq!['\\', 'f']
    } else if c == '\r' {
        seq!['\\', 'r']
    } else if (c as u32) < 0x20 {
        seq!['\\', 'u', '0', '0', hex_digit(((c as u32) / 16) as nat), hex_digit(
            ((c as u32) % 16) as nat,
        )]
    } else {
        seq![c]
    }
}

/// Escaping of a whole text: each character escaped in turn.
pub open spec fn escape_text(s: Seq<char>) -> Seq<char>
    decreases s.len(),
{
    if s.len() == 0 {
        Seq::<char>::empty()
    } else {
        escape_char(s[0]) + escape_text(s.drop_first())
    }
}

/// The character a short escape `\c` stands for.
pub open spec fn short_unescape(c: char) -> char {
    if c == 'b' {
        '\u{8}'
    } else if c == 't' {
        '\t'
    } else if c == 'n' {
        '\n'
    } else if c == 'f' {
        '\u{c}'
    } else if c == 'r' {
        '\r'
    } else {
        c
    }
}

/// How a standard JSON parser reads a string literal's body: the characters
/// up to the first quote that is not part of an escape, with every escape
/// decoded — a `\u00XX` escape from its two low hexadecimal digits, any
/// other backslash escape as a short escape, everything else standing for
/// itself. Yields the decoded text and what follows the closing quote, or
/// nothing where the text is malformed (a lone trailing backslash, a
/// truncated `\u` escape, no closing quote); escaped text followed by a
/// quote is never malformed, as the round-trip law shows.
pub open spec fn parse_string_body(s: Seq<char>) -> Option<(Seq<char>, Seq<char>)>
    decreases s.len(),
{
    if s.len() == 0 {
        None
    } else if s[0] == '"' {
        Some((Seq::<char>::empty(), s.skip(1)))
    } else if s[0] == '\\' {
        if s.len() >= 6 && s[1] == 'u' {
            match parse_string_body(s.skip(6)) {
                Some((body, rest)) => Some(
                    (
                        seq![(((16 * hex_value(s[4]) + hex_value(s[5])) as u32) as char)] + body,
                        rest,
                    ),
                ),
                None => None,
            }
        } else if s.len() >= 2 && s[1] != 'u' {
            match parse_string_body(s.skip(2)) {
                Some((body, rest)) => Some((seq![short_unescape(s[1])] + body, rest)),
                None => None,
            }
        } else {
            None
        }
    } else {
        match parse_string_body(s.skip(1)) {
            Some((body, rest)) => Some((seq![s[0]] + body, rest)),
            None => None,
        }
    }
}

proof fn lemma_hex_round_trip(n: nat)
    requires
        n < 16,
    ensures
        hex_value(hex_digit(n)) == n,
{
}

proof fn lemma_parse_one_escaped_char(c: char, rest: Seq<char>, body: Seq<char>, tail: Seq<char>)
    requires
        parse_string_body(rest) == Some((body, tail)),
    ensures
        parse_string_body(escape_char(c) + rest) == Some((seq![c] + body, tail)),
{
    let s = escape_char(c) + rest;
    if c == '"' || c == '\\' || c == '\u{8}' || c == '\t' || c == '\n' || c == '\u{c}' || c
        == '\r' {
        assert(s.len() >= 2 && s[0] == '\\' && s[1] != 'u');
        assert(short_unescape(s[1]) == c);
        assert(s.skip(2) =~= rest);
        assert(parse_string_body(s) == Some((seq![c] + body, tail)));
    } else if (c as u32) < 0x20 {
        let v = c as u32;
        assert(s.len() >= 6 && s[0] == '\\' && s[1] == 'u');
        lemma_hex_round_trip((v / 16) as nat);
        lemma_hex_round_trip((v % 16) as nat);
        assert(16 * (v / 16) + v % 16 == v) by {
            vstd::arithmetic::div_mod::lemma_fundamental_div_mod(v as int, 16);
        }
        assert(((16 * hex_value(s[4]) + hex_value(s[5])) as u32) as char == c) by {
            vstd::utf8::char_u32_cast(c, v);
        }
        assert(s.skip(6) =~= rest);
        assert(parse_string_body(s) == Some((seq![c] + body, tail)));
    } else {
        assert(s[0] == c && c != '"' && c != '\\');
        assert(s.skip(1) =~= rest);
        assert(parse_string_body(s) == Some((seq![c] + body, tail)));
    }
}

/// Law: escaping loses nothing and is unambiguous — a parser scanning the
/// escaped text followed by a closing quote recovers exactly the original
/// text, whatever characters it holds, stops exactly at that quote, and
/// leaves exactly what follows it.
pub proof fn lemma_parse_escaped_body(m: Seq<char>, tail: Seq<char>)
    ensures
        parse_string_body(escape_text(m) + seq!['"'] + tail) == Some((m, tail)),
    decreases m.len(),
{
    let s = escape_text(m) + seq!['"'] + tail;
    if m.len() == 0 {
        assert(s =~= seq!['"'] + tail);
        assert(s[0] == '"');
        assert(s.skip(1) =~= tail);
        assert(m =~= Seq::<char>::empty());
    } else {
        lemma_parse_escaped_body(m.drop_first(), tail);
        lemma_parse_one_escaped_char(
            m[0],
            escape_text(m.drop_first()) + seq!['"'] + tail,
            m.drop_first(),
            tail,
        );
        assert(s =~= escape_char(m[0]) + (escape_text(m.drop_first()) + seq!['"'] + tail));
        assert(seq![m[0]] + m.drop_first() =~= m);
    }
}

/// Law: a parser scanning plain text — text with no quote and no backslash —
/// followed by a closing quote recovers that text unchanged.
pub proof fn lemma_parse_plain_body(p: Seq<char>, tail: Seq<char>)
    requires
        forall|i: int| 0 <= i < p.len() ==> p[i] != '"' && p[i] != '\\',
    ensures
        parse_string_body(p + seq!['"'] + tail) == Some((p, tail)),
    decreases p.len(),
{
    let s = p + seq!['"'] + tail;
    if p.len() == 0 {
        assert(s =~= seq!['"'] + tail);
        assert(s[0] == '"');
        assert(s.skip(1) =~= tail);
        assert(p =~= Seq::<char>::empty());
    } else {
        lemma_parse_plain_body(p.drop_first(), tail);
        assert(s[0] == p[0]);
        assert(s.skip(1) =~= p.drop_first() + seq!['"'] + tail);
        assert(seq![p[0]] + p.drop_first() =~= p);
        assert(parse_string_body(s) == Some((p, tail)));
    }
}

/// Law: escaped text holds no control character — in particular no line
/// feed — so a rendered JSON line stays a single line whatever the message
/// holds.
pub proof fn lemma_escaped_text_printable(s: Seq<char>)
    ensures
        forall|i: int|
            0 <= i < escape_text(s).len() ==> (#[trigger] escape_text(s)[i]) as u32 >= 0x20,
    decreases s.len(),
{
    if s.len() > 0 {
        lemma_escaped_text_printable(s.drop_first());
        let head = escape_char(s[0]);
        let tail = escape_text(s.drop_first());
        assert(escape_text(s) == head + tail);
        assert forall|i: int| 0 <= i < escape_text(s).len() implies (#[trigger] escape_text(
            s,
        )[i]) as u32 >= 0x20 by {
            if i < head.len() {
                assert(escape_text(s)[i] == head[i]);
            } else {
                assert(escape_text(s)[i] == tail[i - head.len()]);
            }
        }
    }
}

/// Relies on `String::push`: appends the given character to the end of the
/// string.
pub assume_specification[ String::push ](s: &mut String, ch: char)
    ensures
        final(s)@ == old(s)@ + seq![ch],
;

fn hex_digit_char(n: u32) -> (r: char)
    requires
        n < 16,
    ensures
        r == hex_digit(n as nat),
{
    if n == 0 {
        '0'
    } else if n == 1 {
        '1'
    } else if n == 2 {
        '2'
    } else if n == 3 {
        '3'
    } else if n == 4 {
        '4'
    } else if n == 5 {
        '5'
    } else if n == 6 {
        '6'
    } else if n == 7 {
        '7'
    } else if n == 8 {
        '8'
    } else if n == 9 {
        '9'
    } else if n == 10 {
        'a'
    } else if n == 11 {
        'b'
    } else if n == 12 {
        'c'
    } else if n == 13 {
        'd'
    } else if n == 14 {
        'e'
    } else {
        'f'
    }
}

fn push_escaped_char(out: &mut String, c: char)
    ensures
        final(out)@ == old(out)@ + escape_char(c),
{
    if c == '"' {
        out.append("\\\"");
        proof {
            reveal_strlit("\\\"");
            assert(out@ =~= old(out)@ + escape_char(c));
        }
    } else if c == '\\' {
        out.append("\\\\");
        proof {
            reveal_strlit("\\\\");
            assert(out@ =~= old(out)@ + escape_char(c));
        }
    } else if c == '\u{8}' {
        out.append("\\b");
        proof {
            reveal_strlit("\\b");
            assert(out@ =~= old(out)@ + escape_char(c));
        }
    } else if c == '\t' {
        out.append("\\t");
        proof {
            reveal_strlit("\\t");
            assert(out@ =~= old(out)@ + escape_char(c));
        }
    } else if c == '\n' {
        out.append("\\n");
        proof {
            reveal_strlit("\\n");
            assert(out@ =~= old(out)@ + escape_char(c));
        }
    } else if c == '\u{c}' {
        out.append("\\f");
        proof {
            reveal_strlit("\\f");
            assert(out@ =~= old(out)@ + escape_char(c));
        }
    } else if c == '\r' {
        out.append("\\r");
        proof {
            reveal_strlit("\\r");
            assert(out@ =~= old(out)@ + escape_char(c));
        }
    } else if (c as u32) < 0x20 {
        out.append("\\u00");
        let v = c as u32;
        out.push(hex_digit_char(v / 16));
        out.push(hex_digit_char(v % 16));
        proof {
            reveal_strlit("\\u00");
            assert(out@ =~= old(out)@ + escape_char(c));
        }
    } else {
        out.push(c);
        proof {
            assert(out@ =~= old(out)@ + escape_char(c));
        }
    }
}

proof fn lemma_escape_text_push(p: Seq<char>, c: char)
    ensures
        escape_text(p.push(c)) == escape_text(p) + escape_char(c),
    decreases p.len(),
{
    if p.len() == 0 {
        assert(p.push(c)[0] == c);
        assert(p.push(c).drop_first() =~= Seq::<char>::empty());
        assert(escape_text(p.push(c)) == escape_char(c) + escape_text(Seq::<char>::empty()));
        assert(escape_char(c) + Seq::<char>::empty() =~= escape_char(c));
        assert(escape_text(p) + escape_char(c) =~= escape_char(c));
    } else {
        lemma_escape_text_push(p.drop_first(), c);
        assert(p.push(c)[0] == p[0]);
        assert(p.push(c).drop_first() =~= p.drop_first().push(c));
        assert(escape_text(p.push(c)) == escape_char(p[0]) + escape_text(p.drop_first().push(c)));
        assert(escape_text(p.push(c)) == escape_char(p[0]) + (escape_text(p.drop_first())
            + escape_char(c)));
        assert(escape_char(p[0]) + (escape_text(p.drop_first()) + escape_char(c)) =~= (escape_char(
            p[0],
        ) + escape_text(p.drop_first())) + escape_char(c));
    }
}

/// Appends the escaped form of `s` to `out`.
pub fn push_escaped_text(out: &mut String, s: &str)
    ensures
        final(out)@ == old(out)@ + escape_text(s@),
{
    let n = s.unicode_len();
    let mut i: usize = 0;
    while i < n
        invariant
            n == s@.len(),
            i <= n,
            out@ == old(out)@ + escape_text(s@.subrange(0, i as int)),
        decreases n - i,
    {
        let c = s.get_char(i);
        push_escaped_char(out, c);
        proof {
            lemma_escape_text_push(s@.subrange(0, i as int), c);
            assert(s@.subrange(0, i + 1 as int) =~= s@.subrange(0, i as int).push(c));
        }
        i = i + 1;
    }
    proof {
        assert(s@.subrange(0, n as int) =~= s@);
    }
}

/// The escaped form of `s`, as it stands inside a JSON string literal.
pub fn escape_string(s: &str) -> (r: String)
    ensures
        r@ == escape_text(s@),
{
    let mut out = String::new();
    push_escaped_text(&mut out, s);
    out
}

} // verus!
