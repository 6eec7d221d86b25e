//! The seed as text: URL-safe base64 with padding, broken into short lines for display.

use vstd::prelude::*;
use vstd::string::StringExecFns;
use vstd::string::StrSliceExecFns;
use base64::prelude::BASE64_URL_SAFE;
use base64::Engine;

verus! {

/// How many characters of the encoded seed go on one line.
pub const SEED_LINE_WIDTH: usize = 11;

/// The text that `BASE64_URL_SAFE` encodes `bytes` as.
pub uninterp spec fn base64_url_text(bytes: Seq<u8>) -> Seq<char>;

/// `Engine::encode` on `BASE64_URL_SAFE`: the URL-safe alphabet, with padding. The text
/// is a function of the bytes alone.
#[verifier::external_body]
fn base64_url_encode(bytes: &[u8; 32]) -> (text: String)
    ensures
        text@ == base64_url_text(bytes@),
{
    BASE64_URL_SAFE.encode(bytes)
}

/// `text` cut into pieces of `width` characters, the last one possibly shorter, with a
/// line feed between each piece and the next.
pub open spec fn wrapped(text: Seq<char>, width: nat) -> Seq<char>
    decreases text.len(),
{
    if width == 0 || text.len() <= width {
        text
    } else {
        text.subrange(0, width as int) + seq!['\n'] + wrapped(
            text.subrange(width as int, text.len() as int),
            width,
        )
    }
}

/// `text` cut into lines of `width` characters.
pub fn wrap_lines(text: &str, width: usize) -> (lines: String)
    requires
        width > 0,
    ensures
        lines@ == wrapped(text@, width as nat),
{
    let len: usize = text.unicode_len();
    let mut lines: String = String::new();
    let mut start: usize = 0;
    assert(text@.subrange(0, len as int) =~= text@);
    while len - start > width
        invariant
            width > 0,
            len == text@.len(),
            start <= len,
            lines@ + wrapped(text@.subrange(start as int, len as int), width as nat) == wrapped(
                text@,
                width as nat,
            ),
        decreases len - start,
    {
        let ghost rest = text@.subrange(start as int, len as int);
        let ghost so_far = lines@;
        lines.append(text.substring_char(start, start + width));
        lines.append("\n");
        proof {
            reveal_strlit("\n");
            assert("\n"@ =~= seq!['\n']);
            assert(rest.subrange(0, width as int) =~= text@.subrange(
                start as int,
                start + width,
            ));
            assert(rest.subrange(width as int, rest.len() as int) =~= text@.subrange(
                start + width,
                len as int,
            ));
            assert(lines@ + wrapped(text@.subrange(start + width, len as int), width as nat)
                =~= so_far + wrapped(rest, width as nat));
        }
        start = start + width;
    }
    lines.append(text.substring_char(start, len));
    lines
}

/// The seed as text: its URL-safe base64 form, with padding.
pub fn seed_text(seed: &[u8; 32]) -> (text: String)
    ensures
        text@ == base64_url_text(seed@),
{
    base64_url_encode(seed)
}

/// The seed as it is shown: its text in lines of `SEED_LINE_WIDTH` characters.
pub fn seed_formatted(seed: &[u8; 32]) -> (lines: String)
    ensures
        lines@ == wrapped(base64_url_text(seed@), SEED_LINE_WIDTH as nat),
{
    let text: String = seed_text(seed);
    wrap_lines(text.as_str(), SEED_LINE_WIDTH)
}

} // verus!
