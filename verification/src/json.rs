//! The assignment documents exchanged with worker containers: emitters for
//! the coder and imagegen input files, and a parser for the output files.
//!
//! The wire format is JSON restricted to what the pipeline actually
//! exchanges: flat objects whose member values are strings. String escapes
//! cover `\" \\ \/ \b \f \n \r \t` and `\u00XX`; other unicode escapes are
//! rejected.

use vstd::prelude::*;

use crate::textutil::{chars_to_string, push_chars, str_eq, str_to_chars};

verus! {

/// JSON whitespace.
pub open spec fn is_ws(c: char) -> bool {
    c == ' ' || c == '\t' || c == '\n' || c == '\r'
}

/// A hexadecimal digit.
pub open spec fn is_hex(c: char) -> bool {
    ('0' as u32 <= c as u32 && c as u32 <= '9' as u32) || ('a' as u32 <= c as u32 && c as u32
        <= 'f' as u32) || ('A' as u32 <= c as u32 && c as u32 <= 'F' as u32)
}

/// The value of a hexadecimal digit.
pub open spec fn hex_value(c: char) -> int {
    if '0' as u32 <= c as u32 && c as u32 <= '9' as u32 {
        c as u32 - '0' as u32
    } else if 'a' as u32 <= c as u32 && c as u32 <= 'f' as u32 {
        c as u32 - 'a' as u32 + 10
    } else {
        c as u32 - 'A' as u32 + 10
    }
}

/// The escape of one character inside a JSON string, as the emitter writes
/// it.
pub open spec fn json_escaped_char(c: char) -> Seq<char> {
    if c == '"' {
        seq!['\\', '"']
    } else if c == '\\' {
        seq!['\\', '\\']
    } else if c == '\u{8}' {
        seq!['\\', 'b']
    } else if c == '\t' {
        seq!['\\', 't']
    } else if c == '\n' {
        seq!['\\', 'n']
    } else if c == '\u{c}' {
        seq!['\\', 'f']
    } else if c == '\r' {
        seq!['\\', 'r']
    } else if (c as u32) < 0x20 {
        let hi = crate::textutil::spec_hex_digit(c as u32 as int / 16);
        let lo = crate::textutil::spec_hex_digit(c as u32 as int % 16);
        seq!['\\', 'u', '0', '0', hi, lo]
    } else {
        seq![c]
    }
}

/// The body of a JSON string: each character escaped.
pub open spec fn json_escaped(s: Seq<char>) -> Seq<char>
    decreases s.len(),
{
    if s.len() == 0 {
        Seq::<char>::empty()
    } else {
        json_escaped(s.drop_last()) + json_escaped_char(s.last())
    }
}

/// A JSON string literal: quoted escaped body.
pub open spec fn spec_json_string(s: Seq<char>) -> Seq<char> {
    seq!['"'] + json_escaped(s) + seq!['"']
}

/// The coder assignment document, with the member order the pipeline
/// writes.
pub open spec fn spec_coder_assignment_json(
    project: Seq<char>,
    instructions: Seq<char>,
    version: Option<Seq<char>>,
) -> Seq<char> {
    "{\"project\":"@ + spec_json_string(project) + ",\"instructions\":"@ + spec_json_string(
        instructions,
    ) + ",\"version\":"@ + (match version {
        Some(v) => spec_json_string(v),
        None => "null"@,
    }) + "}"@
}

/// The imagegen assignment document.
pub open spec fn spec_imagegen_assignment_json(project: Seq<char>) -> Seq<char> {
    "{\"project\":"@ + spec_json_string(project) + "}"@
}

/// Appends the escaped, quoted JSON string for the given text.
fn push_json_string(out: &mut Vec<char>, s: &str)
    ensures
        final(out)@ == old(out)@ + spec_json_string(s@),
{
    let cs = str_to_chars(s);
    out.push('"');
    let ghost base = out@;
    let n = cs.len();
    let mut i: usize = 0;
    while i < n
        invariant
            n == cs@.len(),
            cs@ == s@,
            0 <= i <= n,
            out@ == base + json_escaped(cs@.subrange(0, i as int)),
        decreases n - i,
    {
        proof {
            let pre = cs@.subrange(0, i + 1);
            assert(pre.drop_last() =~= cs@.subrange(0, i as int));
            assert(pre.last() == cs@[i as int]);
        }
        let c = cs[i];
        let u = c as u32;
        if c == '"' {
            out.push('\\');
            out.push('"');
        } else if c == '\\' {
            out.push('\\');
            out.push('\\');
        } else if c == '\u{8}' {
            out.push('\\');
            out.push('b');
        } else if c == '\t' {
            out.push('\\');
            out.push('t');
        } else if c == '\n' {
            out.push('\\');
            out.push('n');
        } else if c == '\u{c}' {
            out.push('\\');
            out.push('f');
        } else if c == '\r' {
            out.push('\\');
            out.push('r');
        } else if u < 0x20 {
            out.push('\\');
            out.push('u');
            out.push('0');
            out.push('0');
            let b = u as u8;
            out.push(crate::textutil::hex_digit(b / 16));
            out.push(crate::textutil::hex_digit(b % 16));
        } else {
            out.push(c);
        }
        proof {
            assert(out@ =~= base + (json_escaped(cs@.subrange(0, i as int)) + json_escaped_char(
                cs@[i as int],
            )));
            assert(base + (json_escaped(cs@.subrange(0, i as int)) + json_escaped_char(
                cs@[i as int],
            )) =~= base + json_escaped(cs@.subrange(0, i + 1)));
        }
        i = i + 1;
    }
    out.push('"');
    proof {
        assert(cs@.subrange(0, cs@.len() as int) =~= cs@);
        assert(out@ =~= old(out)@ + spec_json_string(s@));
    }
}

/// The coder assignment document for a deployment: project, instructions
/// and the project's pinned version (`null` when unpinned), in that order.
pub fn coder_assignment_json(project: &str, instructions: &str, version: &Option<String>) -> (r:
    String)
    ensures
        r@ == spec_coder_assignment_json(
            project@,
            instructions@,
            crate::projects::opt_str_view(*version),
        ),
{
    let mut out: Vec<char> = Vec::new();
    push_chars(&mut out, "{\"project\":");
    push_json_string(&mut out, project);
    push_chars(&mut out, ",\"instructions\":");
    push_json_string(&mut out, instructions);
    push_chars(&mut out, ",\"version\":");
    match version {
        Some(v) => push_json_string(&mut out, v.as_str()),
        None => push_chars(&mut out, "null"),
    }
    push_chars(&mut out, "}");
    proof {
        assert(out@ =~= spec_coder_assignment_json(
            project@,
            instructions@,
            crate::projects::opt_str_view(*version),
        ));
    }
    chars_to_string(&out)
}

/// The imagegen assignment document for a project.
pub fn imagegen_assignment_json(project: &str) -> (r: String)
    ensures
        r@ == spec_imagegen_assignment_json(project@),
{
    let mut out: Vec<char> = Vec::new();
    push_chars(&mut out, "{\"project\":");
    push_json_string(&mut out, project);
    push_chars(&mut out, "}");
    proof {
        assert(out@ =~= spec_imagegen_assignment_json(project@));
    }
    chars_to_string(&out)
}

/// The first non-whitespace position at or after `i`.
pub open spec fn sp_ws(s: Seq<char>, i: int) -> int
    decreases s.len() - i,
{
    if 0 <= i < s.len() && is_ws(s[i]) {
        sp_ws(s, i + 1)
    } else {
        i
    }
}

/// Parses a JSON string starting at `i`: the decoded text and the position
/// after the closing quote.
pub open spec fn sp_string(s: Seq<char>, i: int) -> Option<(Seq<char>, int)> {
    if 0 <= i < s.len() && s[i] == '"' {
        sp_string_body(s, i + 1, Seq::<char>::empty())
    } else {
        None
    }
}

/// Parses the rest of a JSON string body.
pub open spec fn sp_string_body(s: Seq<char>, i: int, acc: Seq<char>) -> Option<(Seq<char>, int)>
    decreases s.len() - i,
{
    if i < 0 || i >= s.len() {
        None
    } else if s[i] == '"' {
        Some((acc, i + 1))
    } else if s[i] == '\\' {
        if i + 1 < s.len() {
            let e = s[i + 1];
            if e == '"' {
                sp_string_body(s, i + 2, acc.push('"'))
            } else if e == '\\' {
                sp_string_body(s, i + 2, acc.push('\\'))
            } else if e == '/' {
                sp_string_body(s, i + 2, acc.push('/'))
            } else if e == 'b' {
                sp_string_body(s, i + 2, acc.push('\u{8}'))
            } else if e == 'f' {
                sp_string_body(s, i + 2, acc.push('\u{c}'))
            } else if e == 'n' {
                sp_string_body(s, i + 2, acc.push('\n'))
            } else if e == 'r' {
                sp_string_body(s, i + 2, acc.push('\r'))
            } else if e == 't' {
                sp_string_body(s, i + 2, acc.push('\t'))
            } else if e == 'u' && i + 5 < s.len() && s[i + 2] == '0' && s[i + 3] == '0' && is_hex(
                s[i + 4],
            ) && is_hex(s[i + 5]) {
                sp_string_body(
                    s,
                    i + 6,
                    acc.push(((hex_value(s[i + 4]) * 16 + hex_value(s[i + 5])) as u8) as char),
                )
            } else {
                None
            }
        } else {
            None
        }
    } else {
        sp_string_body(s, i + 1, acc.push(s[i]))
    }
}

/// Parses the members of a string-valued object from a key position on,
/// keeping the first value bound to `git_hash`; `fuel` bounds the member
/// count.
pub open spec fn sp_members(
    s: Seq<char>,
    i: int,
    found: Option<Seq<char>>,
    fuel: nat,
) -> Option<Option<Seq<char>>>
    decreases fuel,
{
    if fuel == 0 {
        None
    } else {
        match sp_string(s, i) {
            None => None,
            Some((key, j)) => {
                let j2 = sp_ws(s, j);
                if 0 <= j2 < s.len() && s[j2] == ':' {
                    match sp_string(s, sp_ws(s, j2 + 1)) {
                        None => None,
                        Some((value, j4)) => {
                            let nf = if found is Some {
                                found
                            } else if key == "git_hash"@ {
                                Some(value)
                            } else {
                                None
                            };
                            let j5 = sp_ws(s, j4);
                            if 0 <= j5 < s.len() && s[j5] == ',' {
                                sp_members(s, sp_ws(s, j5 + 1), nf, (fuel - 1) as nat)
                            } else if 0 <= j5 < s.len() && s[j5] == '}' {
                                if sp_ws(s, j5 + 1) == s.len() {
                                    Some(nf)
                                } else {
                                    None
                                }
                            } else {
                                None
                            }
                        },
                    }
                } else {
                    None
                }
            },
        }
    }
}

/// The `git_hash` member of a worker output document: `Some(hash)` exactly
/// when the document is an object of string members among which `git_hash`
/// appears (its first occurrence taken), `None` on anything else.
pub open spec fn spec_parse_git_hash(s: Seq<char>) -> Option<Seq<char>> {
    let i = sp_ws(s, 0);
    if 0 <= i < s.len() && s[i] == '{' {
        let j = sp_ws(s, i + 1);
        if 0 <= j < s.len() && s[j] == '}' {
            None
        } else {
            match sp_members(s, j, None, s.len() as nat) {
                Some(found) => found,
                None => None,
            }
        }
    } else {
        None
    }
}

/// Skips whitespace.
fn ws_from(chars: &Vec<char>, i: usize) -> (r: usize)
    requires
        i <= chars@.len(),
    ensures
        r == sp_ws(chars@, i as int),
        i <= r <= chars@.len(),
    decreases chars@.len() - i,
{
    if i < chars.len() {
        let c = chars[i];
        if c == ' ' || c == '\t' || c == '\n' || c == '\r' {
            return ws_from(chars, i + 1);
        }
    }
    i
}

/// Parses a JSON string body.
fn string_body(chars: &Vec<char>, i: usize, acc: Vec<char>) -> (r: Option<(Vec<char>, usize)>)
    requires
        i <= chars@.len(),
    ensures
        r is Some <==> sp_string_body(chars@, i as int, acc@) is Some,
        r matches Some((v, end)) ==> {
            &&& sp_string_body(chars@, i as int, acc@) matches Some((sv, send))
            &&& v@ == sv
            &&& end == send
            &&& i < end <= chars@.len()
        },
    decreases chars@.len() - i,
{
    if i >= chars.len() {
        return None;
    }
    let c = chars[i];
    if c == '"' {
        return Some((acc, i + 1));
    }
    if c == '\\' {
        if i + 1 < chars.len() {
            let e = chars[i + 1];
            let mut acc2 = acc;
            if e == '"' {
                acc2.push('"');
                return string_body(chars, i + 2, acc2);
            } else if e == '\\' {
                acc2.push('\\');
                return string_body(chars, i + 2, acc2);
            } else if e == '/' {
                acc2.push('/');
                return string_body(chars, i + 2, acc2);
            } else if e == 'b' {
                acc2.push('\u{8}');
                return string_body(chars, i + 2, acc2);
            } else if e == 'f' {
                acc2.push('\u{c}');
                return string_body(chars, i + 2, acc2);
            } else if e == 'n' {
                acc2.push('\n');
                return string_body(chars, i + 2, acc2);
            } else if e == 'r' {
                acc2.push('\r');
                return string_body(chars, i + 2, acc2);
            } else if e == 't' {
                acc2.push('\t');
                return string_body(chars, i + 2, acc2);
            } else if e == 'u' && chars.len() - i > 5 {
                let h1 = chars[i + 4];
                let h2 = chars[i + 5];
                if chars[i + 2] == '0' && chars[i + 3] == '0' && hex_digit_value(h1).is_some()
                    && hex_digit_value(h2).is_some() {
                    let v1 = match hex_digit_value(h1) {
                        Some(v) => v,
                        None => 0,
                    };
                    let v2 = match hex_digit_value(h2) {
                        Some(v) => v,
                        None => 0,
                    };
                    acc2.push((v1 * 16 + v2) as char);
                    return string_body(chars, i + 6, acc2);
                } else {
                    return None;
                }
            } else {
                return None;
            }
        } else {
            return None;
        }
    }
    let mut acc2 = acc;
    acc2.push(c);
    string_body(chars, i + 1, acc2)
}

/// The value of a hexadecimal digit character, if it is one.
fn hex_digit_value(c: char) -> (r: Option<u8>)
    ensures
        r is Some <==> is_hex(c),
        r matches Some(v) ==> v == hex_value(c) && v < 16,
{
    let u = c as u32;
    if '0' as u32 <= u && u <= '9' as u32 {
        Some((u - '0' as u32) as u8)
    } else if 'a' as u32 <= u && u <= 'f' as u32 {
        Some((u - 'a' as u32 + 10) as u8)
    } else if 'A' as u32 <= u && u <= 'F' as u32 {
        Some((u - 'A' as u32 + 10) as u8)
    } else {
        None
    }
}

/// Parses a JSON string at `i`.
fn string_at(chars: &Vec<char>, i: usize) -> (r: Option<(Vec<char>, usize)>)
    requires
        i <= chars@.len(),
    ensures
        r is Some <==> sp_string(chars@, i as int) is Some,
        r matches Some((v, end)) ==> {
            &&& sp_string(chars@, i as int) matches Some((sv, send))
            &&& v@ == sv
            &&& end == send
            &&& i < end <= chars@.len()
        },
{
    if i < chars.len() && chars[i] == '"' {
        string_body(chars, i + 1, Vec::new())
    } else {
        None
    }
}

/// Parses object members from a key position on.
fn members(chars: &Vec<char>, i: usize, found: Option<String>, fuel: usize) -> (r: Option<Option<
    String,
>>)
    requires
        i <= chars@.len(),
    ensures
        r is Some <==> sp_members(
            chars@,
            i as int,
            crate::projects::opt_str_view(found),
            fuel as nat,
        ) is Some,
        r matches Some(f) ==> {
            &&& sp_members(
                chars@,
                i as int,
                crate::projects::opt_str_view(found),
                fuel as nat,
            ) matches Some(sf)
            &&& crate::projects::opt_str_view(f) == sf
        },
    decreases fuel,
{
    if fuel == 0 {
        return None;
    }
    let key = match string_at(chars, i) {
        Some(kj) => kj,
        None => {
            return None;
        },
    };
    let (key_chars, j) = key;
    let j2 = ws_from(chars, j);
    if !(j2 < chars.len() && chars[j2] == ':') {
        return None;
    }
    let j3 = ws_from(chars, j2 + 1);
    let value = match string_at(chars, j3) {
        Some(vj) => vj,
        None => {
            return None;
        },
    };
    let (value_chars, j4) = value;
    let key_string = chars_to_string(&key_chars);
    let nf: Option<String> = match found {
        Some(f) => Some(f),
        None => {
            if str_eq(key_string.as_str(), "git_hash") {
                Some(chars_to_string(&value_chars))
            } else {
                None
            }
        },
    };
    let j5 = ws_from(chars, j4);
    if j5 < chars.len() && chars[j5] == ',' {
        let j6 = ws_from(chars, j5 + 1);
        members(chars, j6, nf, fuel - 1)
    } else if j5 < chars.len() && chars[j5] == '}' {
        if ws_from(chars, j5 + 1) == chars.len() {
            Some(nf)
        } else {
            None
        }
    } else {
        None
    }
}

/// Extracts the `git_hash` member from a worker output document: `Some`
/// exactly when the document is a flat JSON object of string members and
/// `git_hash` is among them.
pub fn parse_git_hash(doc: &str) -> (r: Option<String>)
    ensures
        r is Some <==> spec_parse_git_hash(doc@) is Some,
        r matches Some(g) ==> spec_parse_git_hash(doc@) == Some(g@),
{
    let chars = str_to_chars(doc);
    let i = ws_from(&chars, 0);
    if !(i < chars.len() && chars[i] == '{') {
        return None;
    }
    let j = ws_from(&chars, i + 1);
    if j < chars.len() && chars[j] == '}' {
        return None;
    }
    match members(&chars, j, None, chars.len()) {
        Some(found) => found,
        None => None,
    }
}

} // verus!
