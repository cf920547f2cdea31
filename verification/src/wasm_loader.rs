//! Which sources the wasm component loader takes, and what it loads from
//! each: a `.wasm` file by path, or in-memory bytes that begin with the
//! wasm magic number. Instantiating the component is the wasm runtime's.
use vstd::prelude::*;
use vstd::string::*;

use crate::loader_source::{
    bytes_from_source, open_payload_of, path_bytes_of, path_from_source, url_from_source,
    LoaderSource, PayloadMismatch, SourceDatum,
};
use crate::native_loader::{file_extension, path_extension};
use crate::symbol::plain_symbol;
use crate::text::{concat2, owned, str_eq, string_of};

verus! {

broadcast use vstd::string::group_string_axioms;

/// The capability a wasm component load requires: `loader.wasm`.
pub fn wasm_load_capability() -> (r: String)
    ensures
        r@ == "loader.wasm"@,
{
    owned("loader.wasm")
}

/// The wasm magic number: a NUL byte, then `asm`.
pub open spec fn wasm_magic() -> Seq<u8> {
    seq![0u8, 97u8, 115u8, 109u8]
}

/// A path's bytes read one character per byte; the path separator and
/// the extension dot are single bytes, so file names and extensions read
/// the same.
pub open spec fn byte_chars(b: Seq<u8>) -> Seq<char> {
    b.map_values(|x: u8| x as char)
}

fn chars_of_bytes(b: &Vec<u8>) -> (r: String)
    ensures
        r@ == byte_chars(b@),
{
    let mut v: Vec<char> = Vec::new();
    let mut i: usize = 0;
    while i < b.len()
        invariant
            i <= b.len(),
            v@ == byte_chars(b@).take(i as int),
        decreases b.len() - i,
    {
        v.push(b[i] as char);
        i = i + 1;
        assert(v@ =~= byte_chars(b@).take(i as int));
    }
    assert(byte_chars(b@).take(b.len() as int) =~= byte_chars(b@));
    string_of(&v)
}

/// Whether a path, by its bytes, names a `.wasm` file.
pub open spec fn is_wasm_path(b: Seq<u8>) -> bool {
    path_extension(byte_chars(b)) == Some("wasm"@)
}

/// Whether bytes begin with the wasm magic number.
pub open spec fn has_wasm_magic(b: Seq<u8>) -> bool {
    b.len() >= 4 && b.take(4) == wasm_magic()
}

/// Whether the wasm loader takes a source: a path source naming a `.wasm`
/// file, or else a bytes source whose bytes begin with the magic number.
pub open spec fn wasm_takes(s: LoaderSource) -> bool {
    match open_payload_of(s, plain_symbol("path"@)) {
        Some(p) if path_bytes_of(p) is Ok => is_wasm_path(path_bytes_of(p)->Ok_0),
        _ => match open_payload_of(s, plain_symbol("bytes"@)) {
            Some(SourceDatum::Bytes(b)) => has_wasm_magic(b@),
            _ => false,
        },
    }
}

/// What the wasm loader loads a component from.
#[derive(Clone, Debug, PartialEq, Eq)]
pub enum WasmArtifact {
    /// A component file, by its path's bytes.
    File(Vec<u8>),
    /// In-memory component bytes.
    Bytes(Vec<u8>),
}

/// Why the wasm loader cannot load a source.
#[derive(Clone, Debug, PartialEq, Eq)]
pub enum WasmLoadError {
    /// A path, bytes or URL source whose payload is of the wrong kind.
    Payload(PayloadMismatch),
    /// A source the loader does not load.
    Unsupported(String),
}

/// Loader for wasm component libraries.
pub struct WasmLoader;

impl WasmLoader {
    /// Whether the loader takes a source.
    pub fn can_load(source: &LoaderSource) -> (r: bool)
        ensures
            r == wasm_takes(*source),
    {
        match path_from_source(source) {
            Ok(Some(path)) => {
                let text = chars_of_bytes(&path);
                return match file_extension(text.as_str()) {
                    Some(e) => str_eq(e.as_str(), "wasm"),
                    None => false,
                };
            },
            _ => {},
        }
        match bytes_from_source(source) {
            Ok(Some(bytes)) => {
                if bytes.len() < 4 {
                    assert(!has_wasm_magic(bytes@));
                    return false;
                }
                let ok = bytes[0] == 0 && bytes[1] == 97 && bytes[2] == 115 && bytes[3] == 109;
                assert(ok == (bytes@.take(4) =~= wasm_magic()));
                ok
            },
            _ => false,
        }
    }

    /// What the loader loads from a source: a path source's file, else a
    /// bytes source's bytes; a URL source, or any other, is refused.
    pub fn load_artifact(source: &LoaderSource) -> (r: Result<WasmArtifact, WasmLoadError>)
        ensures
            match open_payload_of(*source, plain_symbol("path"@)) {
                Some(p) => match path_bytes_of(p) {
                    Ok(b) => r matches Ok(WasmArtifact::File(v)) && v@ == b,
                    Err((e, f)) => r matches Err(WasmLoadError::Payload(m)) && m.expected@ == e
                        && m.found@ == f,
                },
                None => match open_payload_of(*source, plain_symbol("bytes"@)) {
                    Some(SourceDatum::Bytes(b)) => r matches Ok(WasmArtifact::Bytes(v)) && v@ == b@,
                    Some(_) => r matches Err(WasmLoadError::Payload(_)),
                    None => match open_payload_of(*source, plain_symbol("url"@)) {
                        Some(SourceDatum::Str(u)) => r matches Err(WasmLoadError::Unsupported(m))
                            && m@ == "url loading is not implemented for wasm source "@ + u@,
                        Some(_) => r matches Err(WasmLoadError::Payload(_)),
                        None => r matches Err(WasmLoadError::Unsupported(m)) && m@
                            == "wasm loader received unsupported source"@,
                    },
                },
            },
    {
        match path_from_source(source) {
            Err(e) => return Err(WasmLoadError::Payload(e)),
            Ok(Some(path)) => return Ok(WasmArtifact::File(path)),
            Ok(None) => {},
        }
        match bytes_from_source(source) {
            Err(e) => return Err(WasmLoadError::Payload(e)),
            Ok(Some(bytes)) => return Ok(WasmArtifact::Bytes(bytes)),
            Ok(None) => {},
        }
        match url_from_source(source) {
            Err(e) => Err(WasmLoadError::Payload(e)),
            Ok(Some(url)) => Err(
                WasmLoadError::Unsupported(concat2("url loading is not implemented for wasm source ", url.as_str())),
            ),
            Ok(None) => Err(WasmLoadError::Unsupported(owned("wasm loader received unsupported source"))),
        }
    }
}

} // verus!
