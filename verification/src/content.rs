//! Content of package files and scripts.
//!
//! [`Content`] holds the bytes of a file or script. The bytes can be read
//! any number of times, which is what writing the same package in several
//! formats needs.
use vstd::prelude::*;
use vstd::utf8::{decode_utf8, encode_utf8, valid_utf8};
use vstd::slice::slice_to_vec;

use crate::stdio::{invalid_data_error, string_from_utf8};

verus! {

/// How the content was given: as bytes or as text.
pub enum ContentData {
    /// Raw bytes.
    Bytes(Vec<u8>),
    /// Text, whose bytes are its UTF-8 encoding.
    Text(String),
}

/// The content of a package file or script.
pub struct Content {
    pub data: ContentData,
}

impl View for Content {
    type V = Seq<u8>;

    open spec fn view(&self) -> Seq<u8> {
        match self.data {
            ContentData::Bytes(v) => v@,
            ContentData::Text(s) => encode_utf8(s@),
        }
    }
}

impl Content {
    /// Wrap the given bytes as [`Content`].
    pub fn new(bytes: Vec<u8>) -> (res: Content)
        ensures
            res@ == bytes@,
    {
        Content { data: ContentData::Bytes(bytes) }
    }

    /// All bytes of this content.
    pub fn read_all(&self) -> (res: Vec<u8>)
        ensures
            res@ == self@,
    {
        match &self.data {
            ContentData::Bytes(v) => slice_to_vec(v.as_slice()),
            ContentData::Text(s) => slice_to_vec(s.as_str().as_bytes()),
        }
    }

    /// This content as a UTF-8 string; an `InvalidData` error where the
    /// bytes are not UTF-8.
    pub fn read_string(&self) -> (res: Result<String, std::io::Error>)
        ensures
            res is Ok <==> valid_utf8(self@),
            res matches Ok(s) ==> s@ == decode_utf8(self@),
    {
        match string_from_utf8(self.read_all()) {
            Ok(s) => Ok(s),
            Err(e) => Err(invalid_data_error(e)),
        }
    }
}

impl From<Vec<u8>> for Content {
    fn from(v: Vec<u8>) -> (res: Content) {
        Content { data: ContentData::Bytes(v) }
    }
}

impl vstd::std_specs::convert::FromSpecImpl<Vec<u8>> for Content {
    open spec fn obeys_from_spec() -> bool {
        true
    }

    open spec fn from_spec(v: Vec<u8>) -> Content {
        Content { data: ContentData::Bytes(v) }
    }
}

impl From<String> for Content {
    fn from(s: String) -> (res: Content) {
        Content { data: ContentData::Text(s) }
    }
}

impl vstd::std_specs::convert::FromSpecImpl<String> for Content {
    open spec fn obeys_from_spec() -> bool {
        true
    }

    open spec fn from_spec(s: String) -> Content {
        Content { data: ContentData::Text(s) }
    }
}

} // verus!
