//! The parsers of the linked files. Each is the work of another crate;
//! what it returns is named here and believed, not proved.

use crate::block_strings::holds_block_cut_inside;
use crate::type_names::holds_unsafe_type_name;
use vstd::prelude::*;
use vstd::string::StringSliceAdditionalSpecFns;
use vstd::utf8::{decode_utf8, valid_utf8};

verus! {

/// The words with which `String::from_utf8` refuses bytes that are not
/// UTF-8.
pub uninterp spec fn utf8_error(bytes: Seq<u8>) -> Seq<char>;

/// The error of `graphql_parser::parse_schema` on a text, in words;
/// nothing where the text is a schema.
pub uninterp spec fn schema_parse_error(text: Seq<char>) -> Option<Seq<char>>;

/// The error of `ethabi::Contract::load` on a file, in words; nothing
/// where the file is a contract ABI.
pub uninterp spec fn abi_parse_error(file: Seq<u8>) -> Option<Seq<char>>;

/// What `wasmparser::Parser::parse_all` finds in a module: the names of the
/// imports in the order of the import section, as far as the module could
/// be read, and the parser's first error in words, if it met one.
pub uninterp spec fn wasm_import_scan(module: Seq<u8>) -> (Seq<Seq<char>>, Option<Seq<char>>);

/// Calls `String::from_utf8`. It succeeds on exactly the byte sequences
/// that are UTF-8 and then gives the text they encode; its error is handed
/// on by its `Display`.
#[verifier::external_body]
pub(crate) fn string_from_utf8(bytes: Vec<u8>) -> (r: Result<String, String>)
    ensures
        match r {
            Ok(text) => valid_utf8(bytes@) && text@ == decode_utf8(bytes@),
            Err(cause) => !valid_utf8(bytes@) && cause@ == utf8_error(bytes@),
        },
{
    String::from_utf8(bytes).map_err(|e| e.to_string())
}

/// Calls `graphql_parser::parse_schema` and drops the document. The
/// parser's error is handed on by its `Display`. The parser cuts the lines
/// of a block string at their common indent, counted in bytes, and stops
/// the program where that falls inside a character, so texts with such a
/// block string are left out.
#[verifier::external_body]
pub(crate) fn parse_schema(text: &str) -> (r: Option<String>)
    requires
        !holds_block_cut_inside(text.spec_bytes()),
    ensures
        r.deep_view() == schema_parse_error(text@),
{
    graphql_parser::parse_schema::<&str>(text).err().map(|e| e.to_string())
}

/// Calls `ethabi::Contract::load` and drops the contract. The loader's
/// error is handed on by its `Display`. The loader reads a type name by
/// positions counted in characters, peels array suffixes and tuples by
/// calling itself, and stops the program on a closing bracket without its
/// opening one, on a character outside ASCII at the wrong place, and on
/// nesting too deep for the stack. It reads no other string in that way.
/// Which string of the file is a type name only the loader knows, so files
/// are left out in which a string that ends in a closing bracket could
/// lead there.
#[verifier::external_body]
pub(crate) fn load_abi(file: &[u8]) -> (r: Option<String>)
    requires
        !holds_unsafe_type_name(file@),
    ensures
        r.deep_view() == abi_parse_error(file@),
{
    ethabi::Contract::load(file).err().map(|e| e.to_string())
}

/// Walks `wasmparser::Parser::new(0).parse_all` over the module and, in
/// each import section, `into_imports`; collects the imports' names until
/// the end or the parser's first error, which is handed on by its `Display`.
#[verifier::external_body]
pub(crate) fn scan_imports(module: &[u8]) -> (r: (Vec<String>, Option<String>))
    ensures
        r.deep_view() == wasm_import_scan(module@),
{
    let mut names = Vec::new();
    for payload in wasmparser::Parser::new(0).parse_all(module) {
        match payload {
            Ok(wasmparser::Payload::ImportSection(section)) => for import in section.into_imports() {
                match import {
                    Ok(import) => names.push(import.name.to_string()),
                    Err(e) => return (names, Some(e.to_string())),
                }
            },
            Ok(_) => {},
            Err(e) => return (names, Some(e.to_string())),
        }
    }
    (names, None)
}

} // verus!
