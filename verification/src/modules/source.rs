//! The text that a module is made from, and what it knows about itself.
use vstd::prelude::*;
use vstd::utf8::{decode_utf8, encode_utf8, valid_utf8};

use crate::modules::table::copy_text;
use crate::text::{decimal, decimal_string, join, same_text, string_from_utf8, to_chars};

verus! {

/// A hexadecimal digit.
pub open spec fn hex_digit(n: int) -> char {
    if n < 10 {
        (('0' as u32) + n) as char
    } else {
        (('a' as u32) + n - 10) as char
    }
}

/// A character as it stands in a string literal.
pub open spec fn escaped(c: char) -> Seq<char> {
    if c == '"' {
        seq!['\\', '"']
    } else if c == '\\' {
        seq!['\\', '\\']
    } else if c == '\n' {
        seq!['\\', 'n']
    } else if c == '\r' {
        seq!['\\', 'r']
    } else if c == '\u{2028}' {
        seq!['\\', 'u', '2', '0', '2', '8']
    } else if c == '\u{2029}' {
        seq!['\\', 'u', '2', '0', '2', '9']
    } else if (c as int) < 0x20 {
        seq!['\\', 'u', '0', '0', hex_digit((c as int) / 16), hex_digit((c as int) % 16)]
    } else {
        seq![c]
    }
}

/// The first `n` characters of a text as they stand in a string literal.
pub open spec fn escaped_text(s: Seq<char>, n: nat) -> Seq<char>
    decreases n,
{
    if n == 0 || n > s.len() {
        Seq::empty()
    } else {
        escaped_text(s, (n - 1) as nat) + escaped(s[n - 1])
    }
}

/// A text as a string literal.
pub open spec fn literal(s: Seq<char>) -> Seq<char> {
    seq!['"'] + escaped_text(s, s.len()) + seq!['"']
}

fn hex_char(n: u32) -> (c: char)
    requires
        n < 16,
    ensures
        c == hex_digit(n as int),
{
    if n < 10 {
        (48u8 + n as u8) as char
    } else {
        (97u8 + (n as u8 - 10u8)) as char
    }
}

fn push_escaped(out: &mut String, c: char)
    ensures
        final(out)@ == old(out)@ + escaped(c),
{
    if c == '"' {
        out.push('\\');
        out.push('"');
    } else if c == '\\' {
        out.push('\\');
        out.push('\\');
    } else if c == '\n' {
        out.push('\\');
        out.push('n');
    } else if c == '\r' {
        out.push('\\');
        out.push('r');
    } else if c == '\u{2028}' {
        out.push('\\');
        out.push('u');
        out.push('2');
        out.push('0');
        out.push('2');
        out.push('8');
    } else if c == '\u{2029}' {
        out.push('\\');
        out.push('u');
        out.push('2');
        out.push('0');
        out.push('2');
        out.push('9');
    } else if (c as u32) < 0x20 {
        out.push('\\');
        out.push('u');
        out.push('0');
        out.push('0');
        out.push(hex_char((c as u32) / 16));
        out.push(hex_char((c as u32) % 16));
    } else {
        out.push(c);
    }
    assert(out@ =~= old(out)@ + escaped(c));
}

/// A text as a string literal.
pub fn js_string_literal(text: &str) -> (r: String)
    ensures
        r@ == literal(text@),
{
    let chars = to_chars(text);
    let mut out = String::new();
    out.push('"');
    assert(out@ =~= seq!['"'] + escaped_text(text@, 0));
    let mut i: usize = 0;
    while i < chars.len()
        invariant
            i <= chars.len(),
            chars@ == text@,
            out@ == seq!['"'] + escaped_text(text@, i as nat),
        decreases chars.len() - i,
    {
        let c: char = chars[i];
        push_escaped(&mut out, c);
        i = i + 1;
        assert(out@ =~= seq!['"'] + escaped_text(text@, i as nat));
    }
    out.push('"');
    assert(out@ =~= literal(text@));
    out
}

/// Numbers in decimal, with commas between them.
pub open spec fn listed(v: Seq<int>, n: nat) -> Seq<char>
    decreases n,
{
    if n == 0 || n > v.len() {
        Seq::empty()
    } else if n == 1 {
        decimal(v[0] as nat)
    } else {
        listed(v, (n - 1) as nat) + seq![','] + decimal(v[n - 1] as nat)
    }
}

/// The numbers of the bytes of a text in UTF-8.
pub open spec fn byte_numbers(s: Seq<char>) -> Seq<int> {
    encode_utf8(s).map_values(|b: u8| b as int)
}

fn list_numbers(v: &Vec<u32>, Ghost(w): Ghost<Seq<int>>) -> (r: String)
    requires
        w.len() == v@.len(),
        forall|i: int| 0 <= i < w.len() ==> #[trigger] w[i] == v@[i],
    ensures
        r@ == listed(w, w.len()),
{
    let mut out = String::new();
    let mut i: usize = 0;
    assert(out@ =~= listed(w, 0));
    while i < v.len()
        invariant
            i <= v.len(),
            w.len() == v@.len(),
            forall|i: int| 0 <= i < w.len() ==> #[trigger] w[i] == v@[i],
            out@ == listed(w, i as nat),
        decreases v.len() - i,
    {
        assert(w[i as int] == v@[i as int]);
        let d = decimal_string(v[i] as u64);
        if i > 0 {
            out.push(',');
        }
        let ghost before = out@;
        out = join(out.as_str(), d.as_str());
        assert(out@ =~= listed(w, (i + 1) as nat));
        i = i + 1;
    }
    out
}

fn byte_list(text: &str) -> (r: String)
    ensures
        r@ == listed(byte_numbers(text@), byte_numbers(text@).len()),
{
    let bytes = text.as_bytes();
    let mut numbers: Vec<u32> = Vec::new();
    let mut k: usize = 0;
    while k < bytes.len()
        invariant
            k <= bytes.len(),
            numbers@.len() == k,
            forall|j: int| 0 <= j < k ==> #[trigger] numbers@[j] == bytes@[j] as int,
        decreases bytes.len() - k,
    {
        numbers.push(bytes[k] as u32);
        k = k + 1;
    }
    assert(byte_numbers(text@) =~= encode_utf8(text@).map_values(|b: u8| b as int));
    list_numbers(&numbers, Ghost(byte_numbers(text@)))
}

/// The module text for a text that is imported as a type: JSON is parsed, text is exported as it is,
/// bytes as an array of them. Any other type leaves the text as it is.
pub open spec fn typed_source(text: Seq<char>, kind: Option<Seq<char>>) -> Seq<char> {
    if kind == Some("json"@) {
        "export default JSON.parse("@ + literal(text) + ");"@
    } else if kind == Some("text"@) {
        "export default "@ + literal(text) + ";"@
    } else if kind == Some("bytes"@) {
        "export default new Uint8Array(new Uint8Array(["@ + listed(
            byte_numbers(text),
            byte_numbers(text).len(),
        ) + "]).buffer.sliceToImmutable());"@
    } else {
        text
    }
}

pub open spec fn kind_view(kind: Option<&str>) -> Option<Seq<char>> {
    match kind {
        Some(k) => Some(k@),
        None => None,
    }
}

/// The module text for a text that is imported as a type.
pub fn typed_module_source(text: &str, kind: Option<&str>) -> (r: String)
    ensures
        r@ == typed_source(text@, kind_view(kind)),
{
    match kind {
        Some(k) => {
            if same_text(k, "json") {
                join(
                    join("export default JSON.parse(", js_string_literal(text).as_str()).as_str(),
                    ");",
                )
            } else if same_text(k, "text") {
                join(join("export default ", js_string_literal(text).as_str()).as_str(), ";")
            } else if same_text(k, "bytes") {
                join(
                    join(
                        "export default new Uint8Array(new Uint8Array([",
                        byte_list(text).as_str(),
                    ).as_str(),
                    "]).buffer.sliceToImmutable());",
                )
            } else {
                copy_text(text)
            }
        },
        None => copy_text(text),
    }
}

/// The key of a text that is imported as a type: apart from that of the ordinary module.
pub open spec fn typed_key(key: Seq<char>, kind: Option<Seq<char>>) -> Seq<char> {
    match kind {
        Some(k) => if k == "json"@ || k == "text"@ || k == "bytes"@ {
            key + "#"@ + k
        } else {
            key
        },
        None => key,
    }
}

/// The key of a text that is imported as a type.
pub fn typed_module_key(key: &str, kind: Option<&str>) -> (r: String)
    ensures
        r@ == typed_key(key@, kind_view(kind)),
{
    match kind {
        Some(k) => {
            if same_text(k, "json") || same_text(k, "text") || same_text(k, "bytes") {
                join(join(key, "#").as_str(), k)
            } else {
                copy_text(key)
            }
        },
        None => copy_text(key),
    }
}

/// What `import.meta` says of a module.
pub struct ImportMeta {
    pub url: String,
    /// The file and its directory, for a module that is a file.
    pub file: Option<(String, String)>,
}

/// Whether a key is the path of a file.
pub open spec fn file_key(key: Seq<char>) -> bool {
    key.len() > 0 && key[0] == '/'
}

/// What `import.meta` says of the module with a key, given the directory around it: one whose key
/// starts with `/` is a file.
pub fn build_import_meta(key: &str, directory: Option<String>) -> (m: ImportMeta)
    ensures
        m.url@ == if file_key(key@) {
            "file://"@ + key@
        } else {
            key@
        },
        m.file is Some == file_key(key@),
        (match m.file {
            Some((file, dir)) => file@ == key@ && dir@ == (match directory {
                Some(d) => d@,
                None => Seq::empty(),
            }),
            None => true,
        }),
{
    if key.unicode_len() > 0 && key.get_char(0) == '/' {
        let dir = match directory {
            Some(p) => p,
            None => String::new(),
        };
        ImportMeta { url: join("file://", key), file: Some((copy_text(key), dir)) }
    } else {
        ImportMeta { url: copy_text(key), file: None }
    }
}

/// The text of a module's bytes: as UTF-8 if they are that, else each byte stands for the character with
/// its number, so that no byte is lost.
pub open spec fn bytes_text(bytes: Seq<u8>) -> Seq<char> {
    if valid_utf8(bytes) {
        decode_utf8(bytes)
    } else {
        bytes.map_values(|b: u8| b as char)
    }
}

/// The text of a module's bytes.
pub fn module_text(bytes: Vec<u8>) -> (r: String)
    ensures
        r@ == bytes_text(bytes@),
{
    let mut out = String::new();
    let mut i: usize = 0;
    while i < bytes.len()
        invariant
            i <= bytes.len(),
            out@ =~= bytes@.take(i as int).map_values(|b: u8| b as char),
        decreases bytes.len() - i,
    {
        out.push(bytes[i] as char);
        i = i + 1;
    }
    assert(bytes@.take(i as int) =~= bytes@);
    match string_from_utf8(bytes) {
        Some(t) => t,
        None => out,
    }
}

} // verus!
