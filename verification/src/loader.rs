//! How an asset is made from the bytes of its file.

use vstd::prelude::*;
use vstd::utf8::{decode_utf8, valid_utf8};

verus! {

/// Why the bytes of a file gave no asset.
#[derive(Debug, Clone, Copy, PartialEq, Eq, Structural)]
pub enum LoadError {
    /// The bytes are not UTF-8.
    Utf8,
    /// The text could not be parsed into the asset's type.
    Parse,
    /// The decoder of the file's format refused the bytes.
    Decode,
}

/// A way to make an asset of type `T` from the bytes of its file.
pub trait Loader<T> {
    /// Whether this loader can be asked for an asset at all.
    spec fn usable() -> bool;

    /// Whether `asset` is what this loader may give for the bytes `content`.
    spec fn gives(content: Seq<u8>, asset: Result<T, LoadError>) -> bool;

    /// The asset that `content` holds, or why it holds none.
    fn load(content: Vec<u8>) -> (asset: Result<T, LoadError>)
        requires
            Self::usable(),
        ensures
            Self::gives(content@, asset),
    ;
}

/// `std::string::FromUtf8Error`, the error of `String::from_utf8`. It is
/// carried through unread.
#[verifier::external_type_specification]
#[verifier::external_body]
pub struct ExFromUtf8Error(std::string::FromUtf8Error);

/// `String::from_utf8` of std: the string that the bytes encode, and an
/// error exactly where the bytes are not UTF-8.
#[verifier::external_body]
fn string_from_utf8(content: Vec<u8>) -> (r: Result<String, std::string::FromUtf8Error>)
    ensures
        r is Ok <==> valid_utf8(content@),
        r is Ok ==> r->Ok_0@ == decode_utf8(content@),
{
    String::from_utf8(content)
}

/// The text that `content` holds, where it is UTF-8.
pub open spec fn spec_text(content: Seq<u8>) -> Result<Seq<char>, LoadError> {
    if valid_utf8(content) {
        Ok(decode_utf8(content))
    } else {
        Err(LoadError::Utf8)
    }
}

/// The view of a loaded text, beside the error that took its place.
pub open spec fn text_view(text: Result<String, LoadError>) -> Result<Seq<char>, LoadError> {
    match text {
        Ok(s) => Ok(s@),
        Err(e) => Err(e),
    }
}

/// The text that `content` holds; `LoadError::Utf8` where it is not UTF-8.
pub fn load_text(content: Vec<u8>) -> (text: Result<String, LoadError>)
    ensures
        text_view(text) == spec_text(content@),
{
    match string_from_utf8(content) {
        Ok(s) => Ok(s),
        Err(_) => Err(LoadError::Utf8),
    }
}

/// The loader of an asset type that makes its assets in a way of its own.
/// It stands where a loader has to be named and is never asked: no call of
/// its `load` is allowed.
#[derive(Debug)]
pub struct CustomLoader;

impl<T> Loader<T> for CustomLoader {
    open spec fn usable() -> bool {
        false
    }

    open spec fn gives(content: Seq<u8>, asset: Result<T, LoadError>) -> bool {
        true
    }

    fn load(content: Vec<u8>) -> (asset: Result<T, LoadError>) {
        vstd::pervasive::unreached()
    }
}

/// Loads an asset as the text of its file, which must be UTF-8.
#[derive(Debug)]
pub struct StringLoader;

impl Loader<String> for StringLoader {
    open spec fn usable() -> bool {
        true
    }

    open spec fn gives(content: Seq<u8>, asset: Result<String, LoadError>) -> bool {
        text_view(asset) == spec_text(content)
    }

    fn load(content: Vec<u8>) -> (asset: Result<String, LoadError>) {
        load_text(content)
    }
}

/// `str::parse` of std: the value that `T` reads from `text`, or `None`
/// where `T` refuses it. What comes back is for `T` to decide.
#[verifier::external_body]
fn parse_text<T: std::str::FromStr>(text: &str) -> (parsed: Option<T>) {
    text.parse::<T>().ok()
}

/// What a parsing loader gives for a text that was parsed into `parsed`:
/// the value, or `LoadError::Parse` where there is none.
pub fn parsed_asset<T>(parsed: Option<T>) -> (asset: Result<T, LoadError>)
    ensures
        asset == match parsed {
            Some(value) => Ok::<T, LoadError>(value),
            None => Err(LoadError::Parse),
        },
{
    match parsed {
        Some(value) => Ok(value),
        None => Err(LoadError::Parse),
    }
}

/// Loads an asset of a type that can be parsed from text: the file must be
/// UTF-8, and its text must parse.
#[derive(Debug)]
pub struct ParseLoader;

/// Whether `asset` is what parsing may give for the bytes `content`: an
/// asset only where they are UTF-8, `LoadError::Utf8` where they are not, and
/// otherwise `LoadError::Parse`.
pub open spec fn parse_gives<T>(content: Seq<u8>, asset: Result<T, LoadError>) -> bool {
    match asset {
        Ok(_) => valid_utf8(content),
        Err(e) => e == if valid_utf8(content) {
            LoadError::Parse
        } else {
            LoadError::Utf8
        },
    }
}

impl ParseLoader {
    /// The asset that the text of `content` parses into. This is a function
    /// of the loader and not an impl of the trait `Loader`: such an impl for
    /// every type that parses would need a bound by `FromStr`, which the
    /// verifier does not take on an impl.
    pub fn load<T: std::str::FromStr>(content: Vec<u8>) -> (asset: Result<T, LoadError>)
        ensures
            parse_gives(content@, asset),
    {
        match load_text(content) {
            Ok(text) => parsed_asset(parse_text(text.as_str())),
            Err(e) => Err(e),
        }
    }
}

} // verus!
