//! Paths of the operating system as text.
//!
//! A path need not be text to the system, only bytes. Here every path is text all the same: a path
//! that is text stands for itself, and in one that is not each byte that is not ASCII is written as
//! the character of number zero and the character that has the number of the byte. The character of
//! number zero is written twice.
use crate::paths::below;
use crate::text::{Text, chars_of};
use vstd::prelude::*;
use vstd::utf8::{char_is_scalar, char_u32_cast, encode_scalar, encode_utf8};

verus! {

/// A path as the system gives it.
#[derive(Debug)]
pub enum OsPath {
    /// A path that is text.
    Unicode(String),
    /// A path that is not, by its bytes.
    Raw(Vec<u8>),
}

/// A byte of a path, as text.
pub open spec fn byte_text(byte: u8) -> Text {
    if byte == 0 || byte >= 128 {
        seq!['\0', byte as char]
    } else {
        seq![byte as char]
    }
}

/// The bytes of a path, as text.
pub open spec fn bytes_text(bytes: Seq<u8>) -> Text
    decreases bytes.len(),
{
    if bytes.len() == 0 {
        Seq::empty()
    } else {
        bytes_text(bytes.drop_last()) + byte_text(bytes.last())
    }
}

/// A path that is text, with the character of number zero written twice.
pub open spec fn doubled(s: Text) -> Text
    decreases s.len(),
{
    if s.len() == 0 {
        Seq::empty()
    } else if s.last() == '\0' {
        doubled(s.drop_last()) + seq!['\0', '\0']
    } else {
        doubled(s.drop_last()).push(s.last())
    }
}

impl OsPath {
    /// The bytes of the path.
    pub open spec fn bytes(self) -> Seq<u8> {
        match self {
            OsPath::Unicode(s) => encode_utf8(s@),
            OsPath::Raw(bytes) => bytes@,
        }
    }

    /// The path as text.
    pub open spec fn text(self) -> Text {
        match self {
            OsPath::Unicode(s) => doubled(s@),
            OsPath::Raw(bytes) => bytes_text(bytes@),
        }
    }
}

/// The bytes of the path that a text stands for.
pub open spec fn path_bytes(text: Text) -> Seq<u8>
    decreases text.len(),
{
    if text.len() == 0 {
        Seq::empty()
    } else if text[0] == '\0' && text.len() > 1 {
        seq![text[1] as u8] + path_bytes(text.skip(2))
    } else {
        encode_scalar(text[0] as u32) + path_bytes(text.drop_first())
    }
}

/// A path as text.
pub fn text_of_path(path: &OsPath) -> (r: String)
    ensures
        r@ == path.text(),
{
    let mut text = String::new();
    match path {
        OsPath::Unicode(s) => {
            let chars = chars_of(s.as_str());
            let mut i: usize = 0;
            assert(s@.take(0) =~= Seq::<char>::empty());
            while i < chars.len()
                invariant
                    i <= chars@.len(),
                    chars@ == s@,
                    text@ == doubled(s@.take(i as int)),
                decreases chars@.len() - i,
            {
                let ghost longer = s@.take(i + 1);
                assert(longer.drop_last() =~= s@.take(i as int));
                let ghost before = text@;
                if chars[i] == '\0' {
                    text.push('\0');
                    text.push('\0');
                    assert(text@ =~= before + seq!['\0', '\0']);
                } else {
                    text.push(chars[i]);
                }
                i += 1;
            }
            assert(s@.take(i as int) =~= s@);
        },
        OsPath::Raw(bytes) => {
            let mut i: usize = 0;
            assert(bytes@.take(0) =~= Seq::<u8>::empty());
            while i < bytes.len()
                invariant
                    i <= bytes@.len(),
                    text@ == bytes_text(bytes@.take(i as int)),
                decreases bytes@.len() - i,
            {
                let ghost longer = bytes@.take(i + 1);
                assert(longer.drop_last() =~= bytes@.take(i as int));
                let byte = bytes[i];
                let ghost before = text@;
                if byte == 0 || byte >= 128 {
                    text.push('\0');
                }
                text.push(byte as char);
                assert(text@ =~= before + byte_text(byte));
                i += 1;
            }
            assert(bytes@.take(i as int) =~= bytes@);
        },
    }
    text
}

/// Text without the character of number zero stands for the path that is that text.
proof fn lemma_no_escape(text: Text)
    requires
        !text.contains('\0'),
    ensures
        path_bytes(text) == encode_utf8(text),
    decreases text.len(),
{
    if text.len() > 0 {
        assert(text[0] != '\0');
        assert(!text.drop_first().contains('\0')) by {
            if text.drop_first().contains('\0') {
                let i = choose|i: int|
                    0 <= i < text.drop_first().len() && text.drop_first()[i] == '\0';
                assert(text[i + 1] == '\0');
            }
        }
        lemma_no_escape(text.drop_first());
    }
}

/// The path that a text stands for.
pub fn path_of_text(text: &str) -> (r: OsPath)
    ensures
        r.bytes() == path_bytes(text@),
        r is Unicode <==> !text@.contains('\0'),
        r matches OsPath::Unicode(s) ==> s@ == text@,
{
    let chars = chars_of(text);
    let mut bytes: Vec<u8> = Vec::new();
    let mut i: usize = 0;
    let mut raw = false;
    let ghost all = path_bytes(text@);
    assert(text@.skip(0) =~= text@);
    while i < chars.len()
        invariant
            i <= chars@.len(),
            chars@ == text@,
            all == path_bytes(text@),
            bytes@ + path_bytes(text@.skip(i as int)) == all,
            raw ==> text@.contains('\0'),
            !raw ==> forall|j: int| 0 <= j < i ==> text@[j] != '\0',
        decreases chars@.len() - i,
    {
        let ghost rest = text@.skip(i as int);
        let ghost before = bytes@;
        let c = chars[i];
        if c == '\0' {
            assert(text@[i as int] == '\0');
            raw = true;
        }
        let end: usize = chars.len();
        if c == '\0' && i + 1 < end {
            let next = chars[i + 1];
            bytes.push(next as u8);
            assert(rest.skip(2) =~= text@.skip(i + 2));
            assert(before + (seq![next as u8] + path_bytes(rest.skip(2))) =~= bytes@ + path_bytes(
                rest.skip(2),
            ));
            i += 2;
        } else {
            let mut one = String::new();
            one.push(c);
            let mut encoded = one.as_str().as_bytes_vec();
            let ghost written = encoded@;
            proof {
                assert(one@ =~= seq![c]);
                reveal_with_fuel(encode_utf8, 2);
                assert(seq![c].drop_first() =~= Seq::<char>::empty());
                assert(written =~= encode_scalar(c as u32));
                assert(rest.drop_first() =~= text@.skip(i + 1));
                assert(before + (written + path_bytes(rest.drop_first())) =~= (before + written)
                    + path_bytes(rest.drop_first()));
            }
            bytes.append(&mut encoded);
            i += 1;
        }
    }
    assert(text@.skip(i as int) =~= Seq::<char>::empty());
    assert(bytes@ =~= all);
    if raw {
        OsPath::Raw(bytes)
    } else {
        proof {
            lemma_no_escape(text@);
        }
        OsPath::Unicode(text.to_owned())
    }
}

/// An ASCII character is encoded as one byte, its number.
proof fn lemma_ascii(c: char)
    requires
        c as u32 <= 127,
    ensures
        encode_scalar(c as u32) == seq![c as u8],
{
    let v = c as u32;
    assert(v <= 127 ==> (v & 0x7f) as u8 == v as u8) by (bit_vector);
    assert(encode_scalar(v) =~= seq![v as u8]);
}

/// A character that is not ASCII is encoded with a last byte that is not ASCII either.
proof fn lemma_last_byte(c: char)
    requires
        c as u32 > 127,
    ensures
        encode_scalar(c as u32).len() > 0,
        encode_scalar(c as u32).last() >= 128,
{
    let v = c as u32;
    let bits = (v & 0x3f) as u8;
    assert(0x80u8 | bits >= 128) by (bit_vector);
}

/// Encoding one character more adds the bytes of that character.
proof fn lemma_encode_push(s: Text, c: char)
    ensures
        encode_utf8(s.push(c)) == encode_utf8(s) + encode_scalar(c as u32),
    decreases s.len(),
{
    let longer = s.push(c);
    if s.len() == 0 {
        reveal_with_fuel(encode_utf8, 2);
        assert(longer.drop_first() =~= Seq::<char>::empty());
        assert(encode_utf8(longer) =~= encode_scalar(c as u32));
        assert(encode_utf8(s) + encode_scalar(c as u32) =~= encode_scalar(c as u32));
    } else {
        lemma_encode_push(s.drop_first(), c);
        assert(longer.drop_first() =~= s.drop_first().push(c));
        assert(encode_utf8(longer) =~= encode_utf8(s) + encode_scalar(c as u32));
    }
}

/// The first step of reading a path.
proof fn lemma_escaped(c: char, rest: Text)
    requires
        (c as u32) < 256,
    ensures
        path_bytes(seq!['\0', c] + rest) == seq![c as u8] + path_bytes(rest),
{
    let text = seq!['\0', c] + rest;
    assert(text.skip(2) =~= rest);
}

/// The first step of reading a path.
proof fn lemma_plain(c: char, rest: Text)
    requires
        c != '\0',
    ensures
        path_bytes(seq![c] + rest) == encode_scalar(c as u32) + path_bytes(rest),
{
    let text = seq![c] + rest;
    assert(text.drop_first() =~= rest);
}

proof fn lemma_raw(bytes: Seq<u8>, rest: Text)
    ensures
        path_bytes(bytes_text(bytes) + rest) == bytes + path_bytes(rest),
    decreases bytes.len(),
{
    if bytes.len() == 0 {
        assert(bytes_text(bytes) + rest =~= rest);
        assert(bytes + path_bytes(rest) =~= path_bytes(rest));
    } else {
        let byte = bytes.last();
        let shorter = bytes.drop_last();
        lemma_raw(shorter, byte_text(byte) + rest);
        assert(bytes_text(bytes) + rest =~= bytes_text(shorter) + (byte_text(byte) + rest));
        if byte == 0 || byte >= 128 {
            lemma_escaped(byte as char, rest);
        } else {
            lemma_plain(byte as char, rest);
            lemma_ascii(byte as char);
        }
        assert(path_bytes(byte_text(byte) + rest) == seq![byte] + path_bytes(rest));
        assert(shorter + (seq![byte] + path_bytes(rest)) =~= bytes + path_bytes(rest));
    }
}

proof fn lemma_unicode(s: Text, rest: Text)
    ensures
        path_bytes(doubled(s) + rest) == encode_utf8(s) + path_bytes(rest),
    decreases s.len(),
{
    if s.len() == 0 {
        assert(doubled(s) + rest =~= rest);
        assert(encode_utf8(s) + path_bytes(rest) =~= path_bytes(rest));
    } else {
        let c = s.last();
        let shorter = s.drop_last();
        lemma_encode_push(shorter, c);
        assert(shorter.push(c) =~= s);
        if c == '\0' {
            let next = seq!['\0', '\0'] + rest;
            lemma_unicode(shorter, next);
            assert(doubled(s) + rest =~= doubled(shorter) + next);
            lemma_escaped('\0', rest);
            lemma_ascii('\0');
        } else {
            let next = seq![c] + rest;
            lemma_unicode(shorter, next);
            assert(doubled(s) + rest =~= doubled(shorter) + next);
            lemma_plain(c, rest);
        }
        assert(encode_utf8(shorter) + (encode_scalar(c as u32) + path_bytes(rest)) =~= encode_utf8(
            s,
        ) + path_bytes(rest));
    }
}

/// A path that is written as text, with more text behind it, stands for the bytes of the path and
/// those of what stands behind it.
pub proof fn law_text_extends_the_path(path: OsPath, rest: Text)
    ensures
        path_bytes(path.text() + rest) == path.bytes() + path_bytes(rest),
{
    match path {
        OsPath::Unicode(s) => {
            lemma_unicode(s@, rest);
        },
        OsPath::Raw(bytes) => {
            lemma_raw(bytes@, rest);
        },
    }
}

/// No path is lost: the text of a path stands for exactly the bytes of the path.
pub proof fn law_text_keeps_the_path(path: OsPath)
    ensures
        path_bytes(path.text()) == path.bytes(),
{
    law_text_extends_the_path(path, Seq::empty());
    assert(path.text() + Seq::<char>::empty() =~= path.text());
    assert(path.bytes() + path_bytes(Seq::empty()) =~= path.bytes());
}

/// The text of a path ends in `/` exactly where its bytes do.
proof fn lemma_ending(path: OsPath)
    ensures
        path.text().len() == 0 <==> path.bytes().len() == 0,
        path.text().len() > 0 ==> (path.text().last() == '/' <==> path.bytes().last() == 47),
{
    match path {
        OsPath::Unicode(s) => {
            if s@.len() > 0 {
                let c = s@.last();
                char_is_scalar(c);
                char_u32_cast('/', 47);
                char_u32_cast(c, c as u32);
                lemma_encode_push(s@.drop_last(), c);
                assert(s@.drop_last().push(c) =~= s@);
                if c as u32 <= 127 {
                    lemma_ascii(c);
                } else {
                    lemma_last_byte(c);
                }
                assert(path.bytes().last() == encode_scalar(c as u32).last());
                assert(path.text().last() == c) by {
                    if c == '\0' {
                        assert(seq!['\0', '\0'].last() == '\0');
                    }
                }
            }
        },
        OsPath::Raw(bytes) => {
            if bytes@.len() > 0 {
                assert(path.text().last() == bytes@.last() as char);
            }
        },
    }
}

/// A part below a path lies below the bytes of the path, whatever they are.
pub proof fn law_parts_lie_below_the_path(path: OsPath, part: Text)
    requires
        !part.contains('\0'),
        part.len() > 0 ==> part[0] != '/',
    ensures
        path_bytes(below(path.text(), part)) == path.bytes() + (if path.bytes().len() == 0
            || path.bytes().last() == 47 {
            Seq::<u8>::empty()
        } else {
            seq![47u8]
        }) + encode_utf8(part),
{
    lemma_ending(path);
    lemma_no_escape(part);
    let joined = below(path.text(), part);
    if path.text().len() == 0 || path.text().last() == '/' {
        law_text_extends_the_path(path, part);
        assert(path.bytes() + Seq::<u8>::empty() =~= path.bytes());
    } else {
        reveal_strlit("/");
        assert("/"@ =~= seq!['/']);
        law_text_extends_the_path(path, seq!['/'] + part);
        assert(joined =~= path.text() + (seq!['/'] + part));
        lemma_plain('/', part);
        lemma_ascii('/');
        assert(path.bytes() + (seq![47u8] + encode_utf8(part)) =~= path.bytes() + seq![47u8]
            + encode_utf8(part));
    }
}

} // verus!
