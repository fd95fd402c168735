//! The decisions of the image loader: the kind of image, the data URL built
//! from the downloaded bytes, and the classes and style of the container.

use vstd::prelude::*;
use vstd::string::*;
use crate::strings::{owned, concat2, concat3, same_text, chars_of, push_char};
use base64::Engine;

verus! {

/// The text after the last `.` of `s`, or all of `s` when it has no `.`
/// (the last piece of `str::split('.')`).
pub open spec fn after_last_dot(s: Seq<char>) -> Seq<char>
    decreases s.len(),
{
    if s.len() == 0 {
        s
    } else if s.last() == '.' {
        seq![]
    } else {
        after_last_dot(s.drop_last()).push(s.last())
    }
}

/// The MIME type of an image, by the extension of its URL; JPEG when the
/// extension is unknown.
pub open spec fn image_type_of(url: Seq<char>) -> Seq<char> {
    let ext = after_last_dot(url);
    if ext == "png"@ {
        "image/png"@
    } else if ext == "jpg"@ || ext == "jpeg"@ {
        "image/jpeg"@
    } else if ext == "gif"@ {
        "image/gif"@
    } else {
        "image/jpeg"@
    }
}

fn extension(url: &str) -> (r: String)
    ensures
        r@ == after_last_dot(url@),
{
    let cs = chars_of(url);
    let mut start: usize = cs.len();
    proof {
        assert(url@.take(start as int) =~= url@);
        assert(url@.subrange(start as int, url@.len() as int) =~= Seq::<char>::empty());
        assert(after_last_dot(url@) + Seq::<char>::empty() =~= after_last_dot(url@));
    }
    while start > 0 && cs[start - 1] != '.'
        invariant
            cs@ == url@,
            start <= cs@.len(),
            after_last_dot(url@) == after_last_dot(url@.take(start as int)) + url@.subrange(
                start as int,
                url@.len() as int,
            ),
        decreases start,
    {
        proof {
            let t = url@.take(start as int);
            assert(t.drop_last() =~= url@.take(start - 1));
            assert(t.last() == url@[start - 1]);
            assert(after_last_dot(t) == after_last_dot(url@.take(start - 1)).push(url@[start - 1]));
            assert(after_last_dot(url@.take(start - 1)).push(url@[start - 1]) + url@.subrange(
                start as int,
                url@.len() as int,
            ) =~= after_last_dot(url@.take(start - 1)) + url@.subrange(start - 1, url@.len() as int));
        }
        start = start - 1;
    }
    proof {
        let t = url@.take(start as int);
        if start > 0 {
            assert(t.last() == url@[start - 1]);
        } else {
            assert(t.len() == 0);
        }
        assert(after_last_dot(t) =~= Seq::<char>::empty());
    }
    let mut out = String::new();
    let mut i = start;
    while i < cs.len()
        invariant
            cs@ == url@,
            start <= i <= cs@.len(),
            out@ == url@.subrange(start as int, i as int),
        decreases cs@.len() - i,
    {
        push_char(&mut out, cs[i]);
        assert(out@ =~= url@.subrange(start as int, i + 1));
        i = i + 1;
    }
    assert(after_last_dot(url@) =~= out@);
    out
}

/// The MIME type of an image by the extension of its URL.
pub fn image_type(photo_url: &str) -> (r: &'static str)
    ensures
        r@ == image_type_of(photo_url@),
{
    let ext = extension(photo_url);
    if same_text(ext.as_str(), "png") {
        "image/png"
    } else if same_text(ext.as_str(), "jpg") || same_text(ext.as_str(), "jpeg") {
        "image/jpeg"
    } else if same_text(ext.as_str(), "gif") {
        "image/gif"
    } else {
        "image/jpeg"
    }
}

/// The character of a six-bit value in the standard base64 alphabet of
/// RFC 4648: `A`-`Z`, `a`-`z`, `0`-`9`, `+` and `/`.
pub open spec fn base64_digit(v: int) -> char {
    if v < 26 {
        ('A' as int + v) as char
    } else if v < 52 {
        ('a' as int + v - 26) as char
    } else if v < 62 {
        ('0' as int + v - 52) as char
    } else if v == 62 {
        '+'
    } else {
        '/'
    }
}

/// The standard base64 encoding of RFC 4648 with padding: every three bytes
/// become four characters of six bits each; a last group of one or two
/// bytes is padded with `=`.
pub open spec fn base64_standard(bytes: Seq<u8>) -> Seq<char>
    decreases bytes.len(),
{
    if bytes.len() == 0 {
        seq![]
    } else if bytes.len() == 1 {
        let b0 = bytes[0] as int;
        seq![base64_digit(b0 / 4), base64_digit((b0 % 4) * 16), '=', '=']
    } else if bytes.len() == 2 {
        let b0 = bytes[0] as int;
        let b1 = bytes[1] as int;
        seq![base64_digit(b0 / 4), base64_digit((b0 % 4) * 16 + b1 / 16), base64_digit((b1 % 16) * 4), '=']
    } else {
        let b0 = bytes[0] as int;
        let b1 = bytes[1] as int;
        let b2 = bytes[2] as int;
        seq![
            base64_digit(b0 / 4),
            base64_digit((b0 % 4) * 16 + b1 / 16),
            base64_digit((b1 % 16) * 4 + b2 / 64),
            base64_digit(b2 % 64),
        ] + base64_standard(bytes.skip(3))
    }
}

/// `base64::engine::general_purpose::STANDARD.encode` of the `base64` crate:
/// the standard alphabet with padding, as `base64_standard` spells out.
#[verifier::external_body]
fn encode_base64(bytes: &[u8]) -> (r: String)
    ensures
        r@ == base64_standard(bytes@),
{
    base64::engine::general_purpose::STANDARD.encode(bytes)
}

/// The data URL of a downloaded image: its MIME type and its bytes in base64.
pub fn data_url(photo_url: &str, bytes: &[u8]) -> (r: String)
    ensures
        r@ == "data:"@ + image_type_of(photo_url@) + ";base64,"@ + base64_standard(bytes@),
{
    let mut s = concat3("data:", image_type(photo_url), ";base64,");
    let encoded = encode_base64(bytes);
    s.append(encoded.as_str());
    s
}

/// The style of the container: the image as its background once it is
/// loaded, then the custom style.
pub fn container_style(loaded_url: Option<&str>, custom_style: &str) -> (r: String)
    ensures
        r@ == (match loaded_url {
            Some(u) => "background-image: url(\""@ + u@ + "\");"@,
            None => ""@,
        }) + " "@ + custom_style@,
{
    let mut s = match loaded_url {
        Some(u) => concat3("background-image: url(\"", u, "\");"),
        None => owned(""),
    };
    s.append(" ");
    s.append(custom_style);
    s
}

/// The classes of the container: the custom classes once the image is
/// loaded, a grey pulse when loading failed, both while it is loading
/// (`None`: not finished; `Some(ok)`: finished, successfully or not).
pub fn container_class(finished: Option<bool>, custom_class: &str) -> (r: String)
    ensures
        r@ == match finished {
            Some(true) => custom_class@,
            Some(false) => "animate-pulse bg-gray-300"@,
            None => custom_class@ + " animate-pulse bg-gray-300"@,
        },
{
    match finished {
        Some(true) => owned(custom_class),
        Some(false) => owned("animate-pulse bg-gray-300"),
        None => concat2(custom_class, " animate-pulse bg-gray-300"),
    }
}

} // verus!
