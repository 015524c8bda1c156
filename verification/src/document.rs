//! The manifest file: a manifest written out as one compact JSON object
//! with the fields `name`, `base_dir` and `files`, each file an object with
//! the fields `path` and `category`.
//!
//! Quoting a text as a JSON string is left to `serde_json`; putting the
//! document together around the quoted texts is done here.

use vstd::prelude::*;
use crate::error::PackError;
use crate::manifest::{Manifest, ManifestView, RecordView};
use crate::path::slash_join;
use crate::text::{join_strings, join_with, strings_view};

verus! {

#[verifier::external_type_specification]
#[verifier::external_body]
pub struct ExJsonError(serde_json::Error);

/// The JSON string literal that stands for a text: the text between double
/// quotes, with whatever JSON wants escaped inside.
pub uninterp spec fn json_string(text: Seq<char>) -> Seq<char>;

/// Calls `serde_json::to_string` on a string slice. Trusted: the call
/// succeeds, and what it returns is the JSON string literal of the text, a
/// function of the text alone. It succeeds because serializing a string
/// slice fails only where the writer fails, and the writer here is a byte
/// vector in memory, which takes every write.
#[verifier::external_body]
fn quote(text: &str) -> (r: Result<String, serde_json::Error>)
    ensures
        r is Ok,
        r matches Ok(quoted) ==> quoted@ == json_string(text@),
{
    serde_json::to_string(text)
}

/// Calls `to_string` on a `serde_json::Error`, which renders it through its
/// `Display` impl. Trusted: nothing is claimed of the text.
#[verifier::external_body]
fn error_text(e: &serde_json::Error) -> (r: String) {
    e.to_string()
}

/// The object for one file, around its two quoted fields.
pub open spec fn record_document(path_json: Seq<char>, category_json: Seq<char>) -> Seq<char> {
    "{\"path\":"@ + path_json + ",\"category\":"@ + category_json + "}"@
}

/// The whole document, around its two quoted fields and the objects of its
/// files.
pub open spec fn manifest_document(
    name_json: Seq<char>,
    base_json: Seq<char>,
    records: Seq<Seq<char>>,
) -> Seq<char> {
    "{\"name\":"@ + name_json + ",\"base_dir\":"@ + base_json + ",\"files\":["@ + join_with(
        records,
        ","@,
    ) + "]}"@
}

/// The object of one record: its path with `/` between the components, and
/// the folder name of its category.
pub open spec fn record_json(record: RecordView) -> Seq<char> {
    record_document(
        json_string(slash_join(record.path)),
        json_string(record.category.name_spec()),
    )
}

/// The document of a manifest. The files come in manifest order.
pub open spec fn manifest_json(manifest: ManifestView) -> Seq<char> {
    manifest_document(
        json_string(manifest.name),
        json_string(slash_join(manifest.base_dir)),
        Seq::new(manifest.files.len(), |i: int| record_json(manifest.files[i])),
    )
}

/// Puts the object of one file together from its quoted fields.
pub fn assemble_record(path_json: &str, category_json: &str) -> (r: String)
    ensures
        r@ == record_document(path_json@, category_json@),
{
    String::from_str("{\"path\":").concat(path_json).concat(",\"category\":").concat(
        category_json,
    ).concat("}")
}

/// Puts the document together from its quoted fields and the objects of
/// its files, which are separated by commas.
pub fn assemble_manifest(name_json: &str, base_json: &str, records: &Vec<String>) -> (r: String)
    ensures
        r@ == manifest_document(name_json@, base_json@, strings_view(records@)),
{
    let files = join_strings(records, ",");
    String::from_str("{\"name\":").concat(name_json).concat(",\"base_dir\":").concat(
        base_json,
    ).concat(",\"files\":[").concat(files.as_str()).concat("]}")
}

/// Quotes a text. The outside call hands back a `Result`; an error, which
/// a string slice never gives, would come out as an i/o error that carries
/// its message.
fn quoted(text: &str) -> (r: Result<String, PackError>)
    ensures
        r matches Ok(q) && q@ == json_string(text@),
{
    match quote(text) {
        Ok(q) => Ok(q),
        Err(e) => Err(PackError::Io(error_text(&e))),
    }
}

impl Manifest {
    /// The manifest file's contents: always the document of this manifest.
    pub fn to_json(&self) -> (r: Result<String, PackError>)
        ensures
            r matches Ok(doc) && doc@ == manifest_json(self@),
    {
        let name_json = quoted(self.name.as_str())?;
        let base_json = quoted(self.base_dir.to_slash_string().as_str())?;
        let mut records: Vec<String> = Vec::new();
        let mut i: usize = 0;
        while i < self.files.len()
            invariant
                i <= self.files@.len(),
                records@.len() == i,
                forall|j: int| 0 <= j < i ==> (#[trigger] records@[j])@ == record_json(self@.files[j]),
            decreases self.files@.len() - i,
        {
            let record = &self.files[i];
            let path_json = quoted(record.path.to_slash_string().as_str())?;
            let category_json = quoted(record.category.name())?;
            records.push(assemble_record(path_json.as_str(), category_json.as_str()));
            i += 1;
        }
        assert(strings_view(records@) =~= Seq::new(
            self@.files.len(),
            |i: int| record_json(self@.files[i]),
        ));
        Ok(assemble_manifest(name_json.as_str(), base_json.as_str(), &records))
    }
}

} // verus!
