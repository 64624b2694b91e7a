//! Form bodies: splitting into fields, URL decoding, and the strict and
//! lenient decoders of the task forms and the login form.
use vstd::prelude::*;
use crate::path::{pieces, split_on, views, same_text};
use crate::text::{chars_of, copy_text, push_all};
use vstd::utf8::{decode_utf8, valid_utf8};

verus! {

/// One `key=value` item of a form body, both still encoded.
#[derive(Debug, Clone)]
pub struct FormField {
    pub key: Vec<char>,
    pub value: Vec<char>,
}

/// Why a form body was refused.
#[derive(Debug, Clone, Copy, PartialEq, Eq, Structural)]
pub enum FormError {
    /// A strict form held a field it does not declare.
    UnknownField,
    /// A declared field was absent.
    MissingField,
    /// A field's value could not be decoded or did not validate.
    BadValue,
}

/// The status with which a refused form is answered.
pub const UNPROCESSABLE: u16 = 422;

/// The value of a hexadecimal digit.
pub open spec fn hex_value(c: char) -> Option<nat> {
    if '0' <= c && c <= '9' {
        Some((c as u32 - '0' as u32) as nat)
    } else if 'a' <= c && c <= 'f' {
        Some((c as u32 - 'a' as u32 + 10) as nat)
    } else if 'A' <= c && c <= 'F' {
        Some((c as u32 - 'A' as u32 + 10) as nat)
    } else {
        None
    }
}

/// The byte an escape `%XY` at the start of `s` stands for, if there is
/// one.
pub open spec fn escape_byte(s: Seq<char>) -> Option<u8> {
    if s.len() >= 3 && s[0] == '%' && hex_value(s[1]) is Some && hex_value(s[2]) is Some {
        Some((hex_value(s[1]).unwrap() * 16 + hex_value(s[2]).unwrap()) as u8)
    } else {
        None
    }
}

/// The characters that a run of escaped bytes stands for, when they are
/// valid UTF-8.
pub open spec fn bytes_text(b: Seq<u8>) -> Option<Seq<char>> {
    if valid_utf8(b) {
        Some(decode_utf8(b))
    } else {
        None
    }
}

/// A character as it stands in a decoded value: `+` is a space.
pub open spec fn plain_char(c: char) -> char {
    if c == '+' {
        ' '
    } else {
        c
    }
}

/// Decoding `s` after the escaped bytes `pending`: each run of `%XY`
/// escapes is read as UTF-8 bytes, every other character stands for itself
/// (a `%` that does not start an escape included), with `+` a space.
pub open spec fn decode_from(s: Seq<char>, pending: Seq<u8>) -> Option<Seq<char>>
    decreases s.len(),
{
    if s.len() == 0 {
        bytes_text(pending)
    } else {
        match escape_byte(s) {
            Some(b) => decode_from(s.subrange(3, s.len() as int), pending.push(b)),
            None => match bytes_text(pending) {
                None => None,
                Some(t) => match decode_from(s.drop_first(), seq![]) {
                    Some(u) => Some(t + seq![plain_char(s[0])] + u),
                    None => None,
                },
            },
        }
    }
}

/// URL decoding of a form value; `None` when its escapes are not UTF-8.
pub open spec fn url_decoded(s: Seq<char>) -> Option<Seq<char>> {
    decode_from(s, seq![])
}

/// `out` followed by a decoded rest, if there is one.
pub open spec fn after(out: Seq<char>, rest: Option<Seq<char>>) -> Option<Seq<char>> {
    match rest {
        Some(t) => Some(out + t),
        None => None,
    }
}

fn hex_digit(c: char) -> (r: Option<u32>)
    ensures
        match hex_value(c) {
            Some(v) => r == Some(v as u32),
            None => r is None,
        },
{
    if '0' <= c && c <= '9' {
        Some(c as u32 - '0' as u32)
    } else if 'a' <= c && c <= 'f' {
        Some(c as u32 - 'a' as u32 + 10)
    } else if 'A' <= c && c <= 'F' {
        Some(c as u32 - 'A' as u32 + 10)
    } else {
        None
    }
}

fn flush_bytes(p: Vec<u8>) -> (r: Option<Vec<char>>)
    ensures
        match bytes_text(p@) {
            Some(t) => r is Some && r.unwrap()@ == t,
            None => r is None,
        },
{
    match crate::text::utf8_text(p) {
        Some(s) => Some(chars_of(s.as_str())),
        None => None,
    }
}

/// Decodes a form value as UTF-8 after its escapes; `None` when the
/// escaped bytes are not valid UTF-8.
pub fn url_decode(s: &Vec<char>) -> (r: Option<Vec<char>>)
    ensures
        match url_decoded(s@) {
            Some(t) => r is Some && r.unwrap()@ == t,
            None => r is None,
        },
{
    let n = s.len();
    let mut out: Vec<char> = Vec::new();
    let mut pending: Vec<u8> = Vec::new();
    let mut i: usize = 0;
    assert(s@.subrange(0, n as int) =~= s@);
    while i < n
        invariant
            n == s@.len(),
            i <= n,
            url_decoded(s@) == after(out@, decode_from(s@.subrange(i as int, n as int), pending@)),
        decreases n - i,
    {
        let ghost rest = s@.subrange(i as int, n as int);
        let c = s[i];
        let mut escaped: Option<u8> = None;
        if c == '%' && n - i >= 3 {
            match (hex_digit(s[i + 1]), hex_digit(s[i + 2])) {
                (Some(h), Some(l)) => {
                    escaped = Some((h * 16 + l) as u8);
                },
                _ => {},
            }
        }
        assert(escaped == escape_byte(rest));
        match escaped {
            Some(b) => {
                assert(rest.subrange(3, rest.len() as int) =~= s@.subrange(i + 3, n as int));
                pending.push(b);
                i = i + 3;
            },
            None => {
                let flushed = flush_bytes(pending);
                pending = Vec::new();
                assert(rest.drop_first() =~= s@.subrange(i + 1, n as int));
                match flushed {
                    None => {
                        return None;
                    },
                    Some(t) => {
                        let ghost o = out@;
                        push_all(&mut out, &t);
                        out.push(if c == '+' {
                            ' '
                        } else {
                            c
                        });
                        assert(out@ =~= o + t@ + seq![plain_char(c)]);
                        proof {
                            match decode_from(s@.subrange(i + 1, n as int), seq![]) {
                                Some(u) => {
                                    assert(o + (t@ + seq![plain_char(c)] + u) =~= out@ + u);
                                },
                                None => {},
                            }
                            assert(pending@ =~= seq![]);
                        }
                        i = i + 1;
                    },
                }
            },
        }
    }
    assert(s@.subrange(n as int, n as int) =~= Seq::<char>::empty());
    match flush_bytes(pending) {
        Some(t) => {
            push_all(&mut out, &t);
            Some(out)
        },
        None => None,
    }
}

/// The position of the first `c` in `s`, if any.
pub open spec fn first_index(s: Seq<char>, c: char) -> Option<int>
    decreases s.len(),
{
    if s.len() == 0 {
        None
    } else if s.last() == c && first_index(s.drop_last(), c) is None {
        Some(s.len() - 1)
    } else {
        first_index(s.drop_last(), c)
    }
}

/// A form item split at its first `=`; without one, the value is empty.
pub open spec fn split_item(s: Seq<char>) -> (Seq<char>, Seq<char>) {
    match first_index(s, '=') {
        Some(k) => (s.subrange(0, k), s.subrange(k + 1, s.len() as int)),
        None => (s, seq![]),
    }
}

/// The items of a form body: its non-empty `&`-separated pieces, split.
pub open spec fn form_items(body: Seq<char>) -> Seq<(Seq<char>, Seq<char>)> {
    pieces(body, '&').map_values(|p: Seq<char>| split_item(p))
}

/// The view of a list of fields.
pub open spec fn field_views(v: Seq<FormField>) -> Seq<(Seq<char>, Seq<char>)> {
    v.map_values(|f: FormField| (f.key@, f.value@))
}

fn split_field(s: &Vec<char>) -> (r: FormField)
    ensures
        (r.key@, r.value@) == split_item(s@),
{
    let mut i: usize = 0;
    while i < s.len()
        invariant
            i <= s@.len(),
            first_index(s@.subrange(0, i as int), '=') is None,
        decreases s@.len() - i,
    {
        assert(s@.subrange(0, i + 1).drop_last() =~= s@.subrange(0, i as int));
        if s[i] == '=' {
            proof {
                lemma_first_index_prefix(s@, i as int + 1);
            }
            let mut key: Vec<char> = Vec::new();
            let mut value: Vec<char> = Vec::new();
            let mut j: usize = 0;
            while j < s.len()
                invariant
                    i < s@.len(),
                    j <= s@.len(),
                    key@ == s@.subrange(0, if j < i { j as int } else { i as int }),
                    value@ == (if j <= i { seq![] } else { s@.subrange(i + 1, j as int) }),
                decreases s@.len() - j,
            {
                if j < i {
                    key.push(s[j]);
                    assert(key@ =~= s@.subrange(0, j + 1));
                } else if j > i {
                    value.push(s[j]);
                    assert(value@ =~= s@.subrange(i + 1, j + 1));
                }
                j = j + 1;
                if j == i + 1 {
                    assert(value@ =~= seq![]);
                }
            }
            assert(value@ =~= s@.subrange(i + 1, s@.len() as int));
            return FormField { key, value };
        }
        i = i + 1;
    }
    assert(s@.subrange(0, s@.len() as int) =~= s@);
    FormField { key: copy_text(s), value: Vec::new() }
}

proof fn lemma_first_index_prefix(s: Seq<char>, k: int)
    requires
        0 < k <= s.len(),
        s[k - 1] == '=',
        first_index(s.subrange(0, k - 1), '=') is None,
    ensures
        first_index(s, '=') == Some(k - 1),
    decreases s.len() - k,
{
    if k == s.len() {
        assert(s.drop_last() =~= s.subrange(0, k - 1));
    } else {
        assert(s.drop_last().subrange(0, k - 1) =~= s.subrange(0, k - 1));
        lemma_first_index_prefix(s.drop_last(), k);
        assert(s.drop_last()[k - 1] == s[k - 1]);
    }
}

/// Splits a form body into its items.
pub fn parse_form(body: &Vec<char>) -> (r: Vec<FormField>)
    ensures
        field_views(r@) == form_items(body@),
{
    let parts = split_on(body, '&');
    let mut r: Vec<FormField> = Vec::new();
    let mut i: usize = 0;
    while i < parts.len()
        invariant
            i <= parts@.len(),
            views(parts@) == pieces(body@, '&'),
            field_views(r@) == pieces(body@, '&').subrange(0, i as int).map_values(
                |p: Seq<char>| split_item(p),
            ),
        decreases parts@.len() - i,
    {
        let f = split_field(&parts[i]);
        let ghost before = r@;
        r.push(f);
        assert(views(parts@)[i as int] == parts@[i as int]@);
        assert(field_views(r@) =~= field_views(before).push(split_item(pieces(body@, '&')[i as int])));
        i = i + 1;
        assert(field_views(r@) =~= pieces(body@, '&').subrange(0, i as int).map_values(
            |p: Seq<char>| split_item(p),
        ));
    }
    assert(pieces(body@, '&').subrange(0, i as int) =~= pieces(body@, '&'));
    r
}

/// The encoded value of the last item named `key`, if any.
pub open spec fn last_value(items: Seq<(Seq<char>, Seq<char>)>, key: Seq<char>) -> Option<
    Seq<char>,
>
    decreases items.len(),
{
    if items.len() == 0 {
        None
    } else if items.last().0 == key {
        Some(items.last().1)
    } else {
        last_value(items.drop_last(), key)
    }
}

/// The decoded value of field `key`: its last occurrence, URL decoded.
pub open spec fn field_value(items: Seq<(Seq<char>, Seq<char>)>, key: Seq<char>) -> Result<
    Seq<char>,
    FormError,
> {
    match last_value(items, key) {
        Some(v) => match url_decoded(v) {
            Some(t) => Ok(t),
            None => Err(FormError::BadValue),
        },
        None => Err(FormError::MissingField),
    }
}

/// Whether every item is named `a` or `b`.
pub open spec fn only_fields(items: Seq<(Seq<char>, Seq<char>)>, a: Seq<char>, b: Seq<char>) -> bool {
    forall|i: int| 0 <= i < items.len() ==> (#[trigger] items[i]).0 == a || items[i].0 == b
}

/// Finds the encoded value of the last field named `key`.
pub fn find_last(fields: &Vec<FormField>, key: &Vec<char>) -> (r: Option<Vec<char>>)
    ensures
        match last_value(field_views(fields@), key@) {
            Some(v) => r is Some && r.unwrap()@ == v,
            None => r is None,
        },
{
    let mut found: Option<Vec<char>> = None;
    let mut i: usize = 0;
    while i < fields.len()
        invariant
            i <= fields@.len(),
            match last_value(field_views(fields@).subrange(0, i as int), key@) {
                Some(v) => found is Some && found.unwrap()@ == v,
                None => found is None,
            },
        decreases fields@.len() - i,
    {
        assert(field_views(fields@).subrange(0, i + 1).drop_last() =~= field_views(
            fields@,
        ).subrange(0, i as int));
        if same_text(&fields[i].key, key) {
            found = Some(copy_text(&fields[i].value));
        }
        i = i + 1;
    }
    assert(field_views(fields@).subrange(0, i as int) =~= field_views(fields@));
    found
}

/// Whether every field is named `a` or `b`.
pub fn has_only_fields(fields: &Vec<FormField>, a: &Vec<char>, b: &Vec<char>) -> (r: bool)
    ensures
        r == only_fields(field_views(fields@), a@, b@),
{
    let mut i: usize = 0;
    while i < fields.len()
        invariant
            i <= fields@.len(),
            only_fields(field_views(fields@).subrange(0, i as int), a@, b@),
        decreases fields@.len() - i,
    {
        if !same_text(&fields[i].key, a) && !same_text(&fields[i].key, b) {
            assert(!only_fields(field_views(fields@), a@, b@)) by {
                assert(field_views(fields@)[i as int].0 == fields@[i as int].key@);
            }
            return false;
        }
        i = i + 1;
        assert(only_fields(field_views(fields@).subrange(0, i as int), a@, b@)) by {
            assert forall|j: int| 0 <= j < i implies (#[trigger] field_views(fields@).subrange(
                0,
                i as int,
            )[j]).0 == a@ || field_views(fields@).subrange(0, i as int)[j].0 == b@ by {
                if j < i - 1 {
                    assert(field_views(fields@).subrange(0, i - 1)[j] == field_views(
                        fields@,
                    ).subrange(0, i as int)[j]);
                }
            }
        }
    }
    assert(field_views(fields@).subrange(0, i as int) =~= field_views(fields@));
    true
}

/// Reads and decodes field `key`.
pub fn decode_field(fields: &Vec<FormField>, key: &Vec<char>) -> (r: Result<Vec<char>, FormError>)
    ensures
        match field_value(field_views(fields@), key@) {
            Ok(t) => r is Ok && r->Ok_0@ == t,
            Err(e) => r == Err::<Vec<char>, FormError>(e),
        },
{
    match find_last(fields, key) {
        Some(v) => match url_decode(&v) {
            Some(t) => Ok(t),
            None => Err(FormError::BadValue),
        },
        None => Err(FormError::MissingField),
    }
}

/// A task submitted through a form.
#[derive(Debug, Clone)]
pub struct FormTask {
    pub name: Vec<char>,
    pub category: Vec<char>,
}

/// What decoding a task form gives: its name and category, or the first
/// error found. A strict form refuses fields besides the two; a lenient one
/// drops them.
pub open spec fn task_form(body: Seq<char>, strict: bool) -> Result<(Seq<char>, Seq<char>), FormError> {
    let items = form_items(body);
    if strict && !only_fields(items, "name"@, "category"@) {
        Err(FormError::UnknownField)
    } else {
        match field_value(items, "name"@) {
            Err(e) => Err(e),
            Ok(n) => match field_value(items, "category"@) {
                Err(e) => Err(e),
                Ok(c) => Ok((n, c)),
            },
        }
    }
}

impl FormTask {
    /// Decodes a task form, strictly or leniently.
    pub fn from_form(body: &Vec<char>, strict: bool) -> (r: Result<FormTask, FormError>)
        ensures
            match task_form(body@, strict) {
                Ok((n, c)) => r is Ok && r->Ok_0.name@ == n && r->Ok_0.category@ == c,
                Err(e) => r == Err::<FormTask, FormError>(e),
            },
    {
        let fields = parse_form(body);
        let name_key = chars_of("name");
        let category_key = chars_of("category");
        if strict && !has_only_fields(&fields, &name_key, &category_key) {
            return Err(FormError::UnknownField);
        }
        let name = match decode_field(&fields, &name_key) {
            Ok(t) => t,
            Err(e) => return Err(e),
        };
        let category = match decode_field(&fields, &category_key) {
            Ok(t) => t,
            Err(e) => return Err(e),
        };
        Ok(FormTask { name, category })
    }
}

/// How many bytes UTF-8 takes for one character.
pub open spec fn utf8_width(c: char) -> nat {
    if (c as u32) < 0x80 {
        1
    } else if (c as u32) < 0x800 {
        2
    } else if (c as u32) < 0x10000 {
        3
    } else {
        4
    }
}

/// How many bytes UTF-8 takes for a text.
pub open spec fn utf8_len(s: Seq<char>) -> nat
    decreases s.len(),
{
    if s.len() == 0 {
        0
    } else {
        utf8_len(s.drop_last()) + utf8_width(s.last())
    }
}

proof fn lemma_utf8_len_grows(s: Seq<char>, i: int, j: int)
    requires
        0 <= i <= j <= s.len(),
    ensures
        utf8_len(s.subrange(0, i)) <= utf8_len(s.subrange(0, j)),
    decreases j - i,
{
    if i < j {
        lemma_utf8_len_grows(s, i, j - 1);
        assert(s.subrange(0, j).drop_last() =~= s.subrange(0, j - 1));
    }
}

/// The longest name, in bytes.
pub const MAX_NAME_BYTES: usize = 128;

/// Whether a decoded text is a valid name: one to 128 bytes long.
pub open spec fn is_valid_name(s: Seq<char>) -> bool {
    0 < utf8_len(s) <= MAX_NAME_BYTES
}

/// Whether a text's UTF-8 length is at most `limit`.
pub fn fits_bytes(s: &Vec<char>, limit: usize) -> (r: bool)
    ensures
        r == (utf8_len(s@) <= limit),
{
    let mut total: usize = 0;
    let mut i: usize = 0;
    while i < s.len()
        invariant
            i <= s@.len(),
            total == utf8_len(s@.subrange(0, i as int)),
            total <= limit,
        decreases s@.len() - i,
    {
        let c = s[i];
        let w: usize = if (c as u32) < 0x80 {
            1
        } else if (c as u32) < 0x800 {
            2
        } else if (c as u32) < 0x10000 {
            3
        } else {
            4
        };
        assert(s@.subrange(0, i + 1).drop_last() =~= s@.subrange(0, i as int));
        if w > limit - total {
            proof {
                lemma_utf8_len_grows(s@, i + 1, s@.len() as int);
                assert(s@.subrange(0, s@.len() as int) =~= s@);
            }
            return false;
        }
        total = total + w;
        i = i + 1;
    }
    assert(s@.subrange(0, s@.len() as int) =~= s@);
    true
}

/// A validated task name.
#[derive(Debug, Clone)]
pub struct Name(pub Vec<char>);

impl Name {
    /// Decodes a raw value into a name of one to 128 bytes; hands the raw
    /// value back when it does not decode or has the wrong length.
    pub fn from_form_value(raw: &Vec<char>) -> (r: Result<Name, Vec<char>>)
        ensures
            match url_decoded(raw@) {
                Some(t) => if is_valid_name(t) {
                    r is Ok && r->Ok_0.0@ == t
                } else {
                    r is Err && r->Err_0@ == raw@
                },
                None => r is Err && r->Err_0@ == raw@,
            },
    {
        match url_decode(raw) {
            Some(t) => if t.len() > 0 && fits_bytes(&t, MAX_NAME_BYTES) {
                proof {
                    if utf8_len(t@) == 0 {
                        assert(t@.drop_last().len() < t@.len());
                        assert(utf8_len(t@) >= utf8_width(t@.last()));
                    }
                }
                Ok(Name(t))
            } else {
                proof {
                    if t.len() == 0 {
                        assert(t@ =~= Seq::<char>::empty());
                    }
                }
                Err(copy_text(raw))
            },
            None => Err(copy_text(raw)),
        }
    }
}

/// How pressing a strict task is.
#[derive(Debug, Clone, Copy, PartialEq, Eq, Structural)]
pub enum Kind {
    Leisure,
    Business,
    Critical,
}

/// The ASCII lower case of a character.
pub open spec fn lower(c: char) -> char {
    if 'A' <= c && c <= 'Z' {
        ((c as u32 + 32) as u32) as char
    } else {
        c
    }
}

/// The ASCII lower case of a text.
pub open spec fn lower_text(s: Seq<char>) -> Seq<char> {
    s.map_values(|c: char| lower(c))
}

/// The kind a raw value names, ignoring ASCII case.
pub open spec fn kind_of(raw: Seq<char>) -> Option<Kind> {
    if lower_text(raw) == "leisure"@ {
        Some(Kind::Leisure)
    } else if lower_text(raw) == "business"@ {
        Some(Kind::Business)
    } else if lower_text(raw) == "critical"@ {
        Some(Kind::Critical)
    } else {
        None
    }
}

fn lower_exec(s: &Vec<char>) -> (r: Vec<char>)
    ensures
        r@ == lower_text(s@),
{
    let mut r: Vec<char> = Vec::new();
    let mut i: usize = 0;
    while i < s.len()
        invariant
            i <= s@.len(),
            r@ == lower_text(s@.subrange(0, i as int)),
        decreases s@.len() - i,
    {
        let c = s[i];
        let d = if 'A' <= c && c <= 'Z' {
            ((c as u32 + 32) as u8) as char
        } else {
            c
        };
        r.push(d);
        i = i + 1;
        assert(r@ =~= lower_text(s@.subrange(0, i as int)));
    }
    assert(s@.subrange(0, s@.len() as int) =~= s@);
    r
}

impl Kind {
    /// Reads a kind by its name, in any ASCII case.
    pub fn from_form_value(raw: &Vec<char>) -> (r: Result<Kind, Vec<char>>)
        ensures
            match kind_of(raw@) {
                Some(k) => r == Ok::<Kind, Vec<char>>(k),
                None => r is Err && r->Err_0@ == raw@,
            },
    {
        let l = lower_exec(raw);
        if same_text(&l, &chars_of("leisure")) {
            Ok(Kind::Leisure)
        } else if same_text(&l, &chars_of("business")) {
            Ok(Kind::Business)
        } else if same_text(&l, &chars_of("critical")) {
            Ok(Kind::Critical)
        } else {
            Err(copy_text(raw))
        }
    }
}

/// A task whose fields are validated.
#[derive(Debug, Clone)]
pub struct StrictTask {
    pub name: Name,
    pub kind: Kind,
}

/// What decoding a strict task form gives: only the fields `name` and
/// `type`, a valid name, and a known kind.
pub open spec fn strict_task_form(body: Seq<char>) -> Result<(Seq<char>, Kind), FormError> {
    let items = form_items(body);
    if !only_fields(items, "name"@, "type"@) {
        Err(FormError::UnknownField)
    } else {
        match last_value(items, "name"@) {
            None => Err(FormError::MissingField),
            Some(raw_name) => match url_decoded(raw_name) {
                Some(n) if is_valid_name(n) => match last_value(items, "type"@) {
                    None => Err(FormError::MissingField),
                    Some(raw_kind) => match kind_of(raw_kind) {
                        Some(k) => Ok((n, k)),
                        None => Err(FormError::BadValue),
                    },
                },
                _ => Err(FormError::BadValue),
            },
        }
    }
}

impl StrictTask {
    /// Decodes a strict task form.
    pub fn from_form(body: &Vec<char>) -> (r: Result<StrictTask, FormError>)
        ensures
            match strict_task_form(body@) {
                Ok((n, k)) => r is Ok && r->Ok_0.name.0@ == n && r->Ok_0.kind == k,
                Err(e) => r == Err::<StrictTask, FormError>(e),
            },
    {
        let fields = parse_form(body);
        let name_key = chars_of("name");
        let type_key = chars_of("type");
        if !has_only_fields(&fields, &name_key, &type_key) {
            return Err(FormError::UnknownField);
        }
        let name = match find_last(&fields, &name_key) {
            None => return Err(FormError::MissingField),
            Some(raw) => match Name::from_form_value(&raw) {
                Ok(n) => n,
                Err(_) => return Err(FormError::BadValue),
            },
        };
        let kind = match find_last(&fields, &type_key) {
            None => return Err(FormError::MissingField),
            Some(raw) => match Kind::from_form_value(&raw) {
                Ok(k) => k,
                Err(_) => return Err(FormError::BadValue),
            },
        };
        Ok(StrictTask { name, kind })
    }
}

/// The credentials of the login form.
#[derive(Debug, Clone)]
pub struct LoginCredentials {
    pub username: Vec<char>,
    pub password: Vec<char>,
}

/// What decoding a login form gives.
pub open spec fn login_form(body: Seq<char>) -> Result<(Seq<char>, Seq<char>), FormError> {
    let items = form_items(body);
    if !only_fields(items, "username"@, "password"@) {
        Err(FormError::UnknownField)
    } else {
        match field_value(items, "username"@) {
            Err(e) => Err(e),
            Ok(u) => match field_value(items, "password"@) {
                Err(e) => Err(e),
                Ok(p) => Ok((u, p)),
            },
        }
    }
}

impl LoginCredentials {
    /// Decodes a login form.
    pub fn from_form(body: &Vec<char>) -> (r: Result<LoginCredentials, FormError>)
        ensures
            match login_form(body@) {
                Ok((u, p)) => r is Ok && r->Ok_0.username@ == u && r->Ok_0.password@ == p,
                Err(e) => r == Err::<LoginCredentials, FormError>(e),
            },
    {
        let fields = parse_form(body);
        let user_key = chars_of("username");
        let pass_key = chars_of("password");
        if !has_only_fields(&fields, &user_key, &pass_key) {
            return Err(FormError::UnknownField);
        }
        let username = match decode_field(&fields, &user_key) {
            Ok(t) => t,
            Err(e) => return Err(e),
        };
        let password = match decode_field(&fields, &pass_key) {
            Ok(t) => t,
            Err(e) => return Err(e),
        };
        Ok(LoginCredentials { username, password })
    }
}

} // verus!
