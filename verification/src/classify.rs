//! Telling from its bytes what kind of file a download is.
//!
//! An SVG image is text, so no signature gives it away: it is known by its
//! opening tag near the start. Everything else is known by its signature.

use vstd::prelude::*;
use vstd::slice::slice_subrange;
use vstd::string::*;
use vstd::utf8::valid_utf8;
use crate::error::DownloadError;
use crate::scan::{find, occurs};

verus! {

/// The family that a file signature belongs to.
#[derive(Debug, Clone, Copy, PartialEq, Eq, Structural)]
pub enum Category {
    App,
    Archive,
    Audio,
    Book,
    Doc,
    Font,
    Image,
    Text,
    Video,
    Custom,
}

/// How many bytes from the start are searched for the tag of an SVG image.
pub const HEAD: usize = 1024;

/// The opening tag of an SVG image.
pub open spec fn svg_tag() -> Seq<u8> {
    "<svg".spec_bytes()
}

/// The part of `bytes` that is searched for the tag.
pub open spec fn head(bytes: Seq<u8>) -> Seq<u8> {
    if bytes.len() <= HEAD {
        bytes
    } else {
        bytes.take(HEAD as int)
    }
}

/// `bytes` start like an SVG image: the head reads as UTF-8 text and holds
/// the bytes of the tag. A head that is no text counts as holding no tag,
/// whatever its bytes are.
pub open spec fn is_svg(bytes: Seq<u8>) -> bool {
    valid_utf8(head(bytes)) && occurs(head(bytes), svg_tag())
}

/// The signature that `infer` finds in `bytes`: its family and the file
/// extension that goes with it, or `None` where it knows no signature there.
pub uninterp spec fn sniffed(bytes: Seq<u8>) -> Option<(Category, Seq<char>)>;

/// The extension for `bytes`, given the signature found in them.
pub open spec fn classified(bytes: Seq<u8>, signature: Option<(Category, Seq<char>)>) -> Result<
    Seq<char>,
    DownloadError,
> {
    if is_svg(bytes) {
        Ok("svg"@)
    } else {
        extension_for(signature)
    }
}

/// The extension that a signature stands for: its own, where it is that of an
/// image.
pub open spec fn extension_for(signature: Option<(Category, Seq<char>)>) -> Result<
    Seq<char>,
    DownloadError,
> {
    match signature {
        Some((Category::Image, extension)) => Ok(extension),
        _ => Err(DownloadError::Extension),
    }
}

/// What a classification says, as plain values.
pub open spec fn outcome(result: Result<String, DownloadError>) -> Result<
    Seq<char>,
    DownloadError,
> {
    match result {
        Ok(extension) => Ok(extension@),
        Err(error) => Err(error),
    }
}

/// Whether `bytes` are UTF-8 text, by `std::str::from_utf8`.
///
/// Trusted: `from_utf8` accepts a slice exactly where it is well-formed
/// UTF-8.
#[verifier::external_body]
fn is_utf8(bytes: &[u8]) -> (valid: bool)
    ensures
        valid == valid_utf8(bytes@),
{
    std::str::from_utf8(bytes).is_ok()
}

/// Looks for a signature with `infer::get` and, of the type found, reads the
/// family with `infer::Type::matcher_type` and the extension with
/// `infer::Type::extension`.
///
/// Trusted: what is found depends on the bytes alone; `sniffed` is the name
/// of that dependence, and nothing more is claimed.
#[verifier::external_body]
fn sniff(bytes: &[u8]) -> (signature: Option<(Category, String)>)
    ensures
        sniffed(bytes@) == match signature {
            Some((category, extension)) => Some((category, extension@)),
            None => None,
        },
{
    let kind = infer::get(bytes)?;
    let category = match kind.matcher_type() {
        infer::MatcherType::App => Category::App,
        infer::MatcherType::Archive => Category::Archive,
        infer::MatcherType::Audio => Category::Audio,
        infer::MatcherType::Book => Category::Book,
        infer::MatcherType::Doc => Category::Doc,
        infer::MatcherType::Font => Category::Font,
        infer::MatcherType::Image => Category::Image,
        infer::MatcherType::Text => Category::Text,
        infer::MatcherType::Video => Category::Video,
        infer::MatcherType::Custom => Category::Custom,
    };
    Some((category, kind.extension().to_owned()))
}

/// Whether `bytes` start like an SVG image.
pub fn has_svg_tag(bytes: &[u8]) -> (found: bool)
    ensures
        found == is_svg(bytes@),
{
    let end = if bytes.len() <= HEAD {
        bytes.len()
    } else {
        HEAD
    };
    let start = slice_subrange(bytes, 0, end);
    proof {
        assert(start@ =~= head(bytes@));
    }
    is_utf8(start) && find(start, "<svg".as_bytes()).is_some()
}

/// The extension that a signature stands for.
///
/// Only the signature of an image has one; no signature, or that of anything
/// else, is refused.
pub fn extension_of(signature: Option<(Category, String)>) -> (result: Result<
    String,
    DownloadError,
>)
    ensures
        outcome(result) == extension_for(
            match signature {
                Some((category, extension)) => Some((category, extension@)),
                None => None,
            },
        ),
{
    match signature {
        Some((category, extension)) => {
            if category == Category::Image {
                Ok(extension)
            } else {
                Err(DownloadError::Extension)
            }
        },
        None => Err(DownloadError::Extension),
    }
}

/// The file extension for `bytes`.
///
/// Bytes that start like an SVG image are `svg`, whatever else they hold.
/// Others get the extension of the image signature found in them; without
/// such a signature they are refused.
pub fn classify(bytes: &[u8]) -> (result: Result<String, DownloadError>)
    ensures
        outcome(result) == classified(bytes@, sniffed(bytes@)),
        is_svg(bytes@) ==> outcome(result) == Ok::<Seq<char>, DownloadError>("svg"@),
        !is_svg(bytes@) && !(sniffed(bytes@) matches Some((Category::Image, _))) ==> result
            == Err::<String, DownloadError>(DownloadError::Extension),
{
    if has_svg_tag(bytes) {
        Ok(String::from_str("svg"))
    } else {
        extension_of(sniff(bytes))
    }
}

} // verus!
