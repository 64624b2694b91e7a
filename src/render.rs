//! Debug-style text for the decoded form values.
use vstd::prelude::*;
use crate::forms::{FormTask, Kind, StrictTask};
use crate::text::{chars_of, push_all, push_str};

verus! {

/// Whether a character is a control character, which debug text writes
/// as a `\u{..}` escape.
pub open spec fn is_control(c: char) -> bool {
    (c as u32) < 0x20 || (0x7f <= (c as u32) && (c as u32) < 0xa0)
}

/// A lower-case hexadecimal digit.
pub open spec fn hex_char(d: nat) -> char {
    if d < 10 {
        ((d + '0' as u32) as u32) as char
    } else {
        ((d - 10 + 'a' as u32) as u32) as char
    }
}

/// The shortest lower-case hexadecimal spelling of `n`.
pub open spec fn hex_text(n: nat) -> Seq<char>
    decreases n,
{
    if n < 16 {
        seq![hex_char(n)]
    } else {
        hex_text(n / 16).push(hex_char(n % 16))
    }
}

/// How a character is written inside a quoted debug string: quotes,
/// backslashes and the usual control characters by their short escapes,
/// other control characters as `\u{..}`; every other character as it is.
pub open spec fn escaped_char(c: char) -> Seq<char> {
    if c == '\0' {
        seq!['\\', '0']
    } else if c == '"' {
        seq!['\\', '"']
    } else if c == '\\' {
        seq!['\\', '\\']
    } else if c == '\n' {
        seq!['\\', 'n']
    } else if c == '\r' {
        seq!['\\', 'r']
    } else if c == '\t' {
        seq!['\\', 't']
    } else if is_control(c) {
        seq!['\\', 'u', '{'] + hex_text(c as u32 as nat) + seq!['}']
    } else {
        seq![c]
    }
}

fn hex_digit_char(d: u32) -> (c: char)
    requires
        d < 16,
    ensures
        c == hex_char(d as nat),
{
    if d < 10 {
        ((d + '0' as u32) as u8) as char
    } else {
        ((d - 10 + 'a' as u32) as u8) as char
    }
}

fn render_hex(n: u32) -> (r: Vec<char>)
    ensures
        r@ == hex_text(n as nat),
    decreases n,
{
    let c = hex_digit_char(n % 16);
    if n < 16 {
        vec![c]
    } else {
        let mut r = render_hex(n / 16);
        r.push(c);
        r
    }
}

/// A text with quotes, backslashes and line breaks escaped.
pub open spec fn escaped(s: Seq<char>) -> Seq<char>
    decreases s.len(),
{
    if s.len() == 0 {
        seq![]
    } else {
        escaped(s.drop_last()) + escaped_char(s.last())
    }
}

/// A text in double quotes, escaped.
pub open spec fn quoted(s: Seq<char>) -> Seq<char> {
    seq!['"'] + escaped(s) + seq!['"']
}

/// The debug text of a task form.
pub open spec fn task_debug(name: Seq<char>, category: Seq<char>) -> Seq<char> {
    "Task { name: "@ + quoted(name) + ", category: "@ + quoted(category) + " }"@
}

/// The name of a kind.
pub open spec fn kind_name(k: Kind) -> Seq<char> {
    match k {
        Kind::Leisure => "Leisure"@,
        Kind::Business => "Business"@,
        Kind::Critical => "Critical"@,
    }
}

/// The debug text of a strict task form.
pub open spec fn strict_task_debug(name: Seq<char>, k: Kind) -> Seq<char> {
    "StrictTask { name: Name("@ + quoted(name) + "), kind: "@ + kind_name(k) + " }"@
}

fn escape_char_exec(c: char) -> (r: Vec<char>)
    ensures
        r@ == escaped_char(c),
{
    let code = c as u32;
    if c == '\0' {
        vec!['\\', '0']
    } else if c == '"' {
        vec!['\\', '"']
    } else if c == '\\' {
        vec!['\\', '\\']
    } else if c == '\n' {
        vec!['\\', 'n']
    } else if c == '\r' {
        vec!['\\', 'r']
    } else if c == '\t' {
        vec!['\\', 't']
    } else if code < 0x20 || (0x7f <= code && code < 0xa0) {
        let mut r: Vec<char> = vec!['\\', 'u', '{'];
        push_all(&mut r, &render_hex(code));
        r.push('}');
        r
    } else {
        vec![c]
    }
}

/// Writes a text in double quotes, escaped.
pub fn quote(s: &Vec<char>) -> (r: Vec<char>)
    ensures
        r@ == quoted(s@),
{
    let mut body: Vec<char> = Vec::new();
    let mut i: usize = 0;
    while i < s.len()
        invariant
            i <= s@.len(),
            body@ == escaped(s@.subrange(0, i as int)),
        decreases s@.len() - i,
    {
        let e = escape_char_exec(s[i]);
        push_all(&mut body, &e);
        assert(s@.subrange(0, i + 1).drop_last() =~= s@.subrange(0, i as int));
        i = i + 1;
    }
    assert(s@.subrange(0, s@.len() as int) =~= s@);
    let mut r: Vec<char> = vec!['"'];
    push_all(&mut r, &body);
    let q: Vec<char> = vec!['"'];
    push_all(&mut r, &q);
    assert(r@ =~= quoted(s@));
    r
}

/// The debug text of a task form.
pub fn debug_task(t: &FormTask) -> (r: Vec<char>)
    ensures
        r@ == task_debug(t.name@, t.category@),
{
    let mut r = chars_of("Task { name: ");
    push_all(&mut r, &quote(&t.name));
    push_str(&mut r, ", category: ");
    push_all(&mut r, &quote(&t.category));
    push_str(&mut r, " }");
    r
}

/// The name of a kind.
pub fn kind_text(k: Kind) -> (r: Vec<char>)
    ensures
        r@ == kind_name(k),
{
    match k {
        Kind::Leisure => chars_of("Leisure"),
        Kind::Business => chars_of("Business"),
        Kind::Critical => chars_of("Critical"),
    }
}

/// The debug text of a strict task form.
pub fn debug_strict_task(t: &StrictTask) -> (r: Vec<char>)
    ensures
        r@ == strict_task_debug(t.name.0@, t.kind),
{
    let mut r = chars_of("StrictTask { name: Name(");
    push_all(&mut r, &quote(&t.name.0));
    push_str(&mut r, "), kind: ");
    push_all(&mut r, &kind_text(t.kind));
    push_str(&mut r, " }");
    r
}

} // verus!
