//! Loaders for assets that are stored in a serialization format.
//!
//! Each loader hands the bytes to the decoder of its format. What comes back
//! is decided by that decoder and by the asset's own type, so the contracts
//! here say what becomes of either outcome, not which one it is.
//!
//! Each `load` is a function of its loader and not an impl of the trait
//! `Loader`: such an impl for every type that can be decoded would need a
//! bound by a trait of `serde`, which the verifier does not take on an impl.

use vstd::prelude::*;
use vstd::utf8::valid_utf8;
use crate::loader::LoadError;

verus! {

/// `bincode::ErrorKind`, what a failed Bincode decoding is made of.
/// It is carried through unread.
#[verifier::external_type_specification]
#[verifier::external_body]
pub struct ExBincodeErrorKind(bincode::ErrorKind);

/// `serde_cbor::Error`, the error of the CBOR decoder.
/// It is carried through unread.
#[verifier::external_type_specification]
#[verifier::external_body]
pub struct ExCborError(serde_cbor::Error);

/// `serde_json::Error`, the error of the JSON decoder.
/// It is carried through unread.
#[verifier::external_type_specification]
#[verifier::external_body]
pub struct ExJsonError(serde_json::Error);

/// `ron::Error`, the error of the RON decoder.
/// It is carried through unread.
#[verifier::external_type_specification]
#[verifier::external_body]
pub struct ExRonError(ron::Error);

/// `toml::de::Error`, the error of the TOML decoder.
/// It is carried through unread.
#[verifier::external_type_specification]
#[verifier::external_body]
pub struct ExTomlError(toml::de::Error);

/// `serde_yaml::Error`, the error of the YAML decoder.
/// It is carried through unread.
#[verifier::external_type_specification]
#[verifier::external_body]
pub struct ExYamlError(serde_yaml::Error);

/// `bincode::deserialize`: the value of type `T` that the bytes hold as
/// a Bincode encoding, or the decoder's error. Nothing is claimed of the
/// outcome.
#[verifier::external_body]
fn bincode_deserialize<T: for<'de> serde::Deserialize<'de>>(content: &[u8]) -> (decoded: Result<
    T,
    Box<bincode::ErrorKind>,
>) {
    bincode::deserialize(content)
}

/// `serde_cbor::from_slice`: the value of type `T` that the bytes hold as
/// a CBOR encoding, or the decoder's error. Nothing is claimed of the
/// outcome.
#[verifier::external_body]
fn cbor_from_slice<T: for<'de> serde::Deserialize<'de>>(content: &[u8]) -> (decoded: Result<
    T,
    serde_cbor::Error,
>) {
    serde_cbor::from_slice(content)
}

/// `serde_json::from_slice`: the value of type `T` that the bytes hold as
/// JSON text, or the decoder's error. Nothing is claimed of the outcome.
#[verifier::external_body]
fn json_from_slice<T: for<'de> serde::Deserialize<'de>>(content: &[u8]) -> (decoded: Result<
    T,
    serde_json::Error,
>) {
    serde_json::from_slice(content)
}

/// `ron::de::from_bytes`: the value of type `T` that the bytes hold as
/// RON text, or the decoder's error. Nothing is claimed of the outcome.
#[verifier::external_body]
fn ron_from_bytes<T: for<'de> serde::Deserialize<'de>>(content: &[u8]) -> (decoded: Result<
    T,
    ron::Error,
>) {
    ron::de::from_bytes(content)
}

/// `toml::de::from_slice`: the value of type `T` that the bytes hold as
/// TOML text, or the decoder's error. Bytes that are not
/// UTF-8 are refused before `T` is asked; nothing else is claimed of the
/// outcome.
#[verifier::external_body]
fn toml_from_slice<T: for<'de> serde::Deserialize<'de>>(content: &[u8]) -> (decoded: Result<
    T,
    toml::de::Error,
>)
    ensures
        !valid_utf8(content@) ==> decoded is Err,
 {
    toml::de::from_slice(content)
}

/// `serde_yaml::from_slice`: the value of type `T` that the bytes hold as
/// YAML text, or the decoder's error. Nothing is claimed of the outcome.
#[verifier::external_body]
fn yaml_from_slice<T: for<'de> serde::Deserialize<'de>>(content: &[u8]) -> (decoded: Result<
    T,
    serde_yaml::Error,
>) {
    serde_yaml::from_slice(content)
}

/// What a loader gives for the outcome of its decoder: the decoded value, or
/// `LoadError::Decode` in place of the decoder's error.
pub fn decoded_asset<T, E>(decoded: Result<T, E>) -> (asset: Result<T, LoadError>)
    ensures
        match decoded {
            Ok(value) => asset == Ok::<T, LoadError>(value),
            Err(_) => asset == Err::<T, LoadError>(LoadError::Decode),
        },
{
    match decoded {
        Ok(value) => Ok(value),
        Err(_) => Err(LoadError::Decode),
    }
}

/// Loads assets from Bincode encoded files.
#[derive(Debug)]
pub struct BincodeLoader;

impl BincodeLoader {
    /// The asset that `content` holds as a Bincode encoding; `LoadError::Decode`
    /// where the decoder refuses it.
    pub fn load<T: for<'de> serde::Deserialize<'de>>(content: Vec<u8>) -> (asset: Result<
        T,
        LoadError,
    >)
        ensures
            asset is Err ==> asset->Err_0 == LoadError::Decode,
    {
        decoded_asset(bincode_deserialize(content.as_slice()))
    }
}

/// Loads assets from CBOR encoded files.
#[derive(Debug)]
pub struct CborLoader;

impl CborLoader {
    /// The asset that `content` holds as a CBOR encoding; `LoadError::Decode`
    /// where the decoder refuses it.
    pub fn load<T: for<'de> serde::Deserialize<'de>>(content: Vec<u8>) -> (asset: Result<
        T,
        LoadError,
    >)
        ensures
            asset is Err ==> asset->Err_0 == LoadError::Decode,
    {
        decoded_asset(cbor_from_slice(content.as_slice()))
    }
}

/// Loads assets from JSON files.
#[derive(Debug)]
pub struct JsonLoader;

impl JsonLoader {
    /// The asset that `content` holds as JSON text; `LoadError::Decode`
    /// where the decoder refuses it.
    pub fn load<T: for<'de> serde::Deserialize<'de>>(content: Vec<u8>) -> (asset: Result<
        T,
        LoadError,
    >)
        ensures
            asset is Err ==> asset->Err_0 == LoadError::Decode,
    {
        decoded_asset(json_from_slice(content.as_slice()))
    }
}

/// Loads assets from RON files.
#[derive(Debug)]
pub struct RonLoader;

impl RonLoader {
    /// The asset that `content` holds as RON text; `LoadError::Decode`
    /// where the decoder refuses it.
    pub fn load<T: for<'de> serde::Deserialize<'de>>(content: Vec<u8>) -> (asset: Result<
        T,
        LoadError,
    >)
        ensures
            asset is Err ==> asset->Err_0 == LoadError::Decode,
    {
        decoded_asset(ron_from_bytes(content.as_slice()))
    }
}

/// Loads assets from TOML files.
#[derive(Debug)]
pub struct TomlLoader;

impl TomlLoader {
    /// The asset that `content` holds as TOML text; `LoadError::Decode`
    /// where the decoder refuses it. Bytes that are not UTF-8 are always
    /// refused.
    pub fn load<T: for<'de> serde::Deserialize<'de>>(content: Vec<u8>) -> (asset: Result<
        T,
        LoadError,
    >)
        ensures
            asset is Err ==> asset->Err_0 == LoadError::Decode,
            !valid_utf8(content@) ==> asset is Err,
    {
        decoded_asset(toml_from_slice(content.as_slice()))
    }
}

/// Loads assets from YAML files.
#[derive(Debug)]
pub struct YamlLoader;

impl YamlLoader {
    /// The asset that `content` holds as YAML text; `LoadError::Decode`
    /// where the decoder refuses it.
    pub fn load<T: for<'de> serde::Deserialize<'de>>(content: Vec<u8>) -> (asset: Result<
        T,
        LoadError,
    >)
        ensures
            asset is Err ==> asset->Err_0 == LoadError::Decode,
    {
        decoded_asset(yaml_from_slice(content.as_slice()))
    }
}

} // verus!
