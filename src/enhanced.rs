use vstd::prelude::*;
use vstd::string::StringSliceAdditionalSpecFns;
use std::collections::HashMap;
use crate::byte_util::{contains, ends_with, str_contains, str_ends_with};

verus! {

/// The failures of document-level operations.
#[derive(Debug, Clone, Copy, PartialEq, Eq, Structural)]
pub enum EnhancedError {
    /// The named PDF file does not exist.
    FileNotFound,
    /// An argument breaks the operation's rules.
    InvalidParameter,
    /// The requested item is not in the document.
    NotFound,
    /// The operation is not implemented.
    NotImplemented,
}

/// Relies on std::path::Path::exists: whether a file is at the path now.
#[verifier::external_body]
pub(crate) fn path_exists(path: &str) -> (r: bool) {
    std::path::Path::new(path).exists()
}

/// What Unicode lowercasing makes of a text.
pub uninterp spec fn lower_of(s: Seq<char>) -> Seq<char>;

/// Relies on str::to_lowercase: the result depends on the characters alone.
#[verifier::external_body]
fn lowercase(s: &str) -> (r: String)
    ensures
        r@ == lower_of(s@),
{
    s.to_lowercase()
}

/// The version of the document-level features.
pub const VERSION: &'static str = "0.1.0";

/// Whether enhanced features are available: always.
pub fn is_available() -> (r: bool)
    ensures
        r,
{
    true
}

/// A file to embed in a PDF.
#[derive(Debug, Clone)]
pub struct Attachment {
    /// file name
    pub filename: String,
    /// content
    pub data: Vec<u8>,
    /// MIME type
    pub mime_type: Option<String>,
    /// description
    pub description: Option<String>,
}

/// The MIME type for a lowercased file name, by its extension.
pub open spec fn spec_mime_for(name: Seq<u8>) -> Seq<char> {
    if ends_with(name, ".pdf".spec_bytes()) {
        "application/pdf"@
    } else if ends_with(name, ".txt".spec_bytes()) {
        "text/plain"@
    } else if ends_with(name, ".png".spec_bytes()) {
        "image/png"@
    } else if ends_with(name, ".jpg".spec_bytes()) || ends_with(name, ".jpeg".spec_bytes()) {
        "image/jpeg"@
    } else if ends_with(name, ".zip".spec_bytes()) {
        "application/zip"@
    } else if ends_with(name, ".json".spec_bytes()) {
        "application/json"@
    } else if ends_with(name, ".xml".spec_bytes()) {
        "application/xml"@
    } else {
        "application/octet-stream"@
    }
}

/// The MIME type for an already lowercased file name, by its extension;
/// `application/octet-stream` for any other.
pub fn mime_type_for_lowercase(name: &str) -> (r: String)
    ensures
        r@ == spec_mime_for(name.spec_bytes()),
{
    let t = if str_ends_with(name, ".pdf") {
        "application/pdf"
    } else if str_ends_with(name, ".txt") {
        "text/plain"
    } else if str_ends_with(name, ".png") {
        "image/png"
    } else if str_ends_with(name, ".jpg") || str_ends_with(name, ".jpeg") {
        "image/jpeg"
    } else if str_ends_with(name, ".zip") {
        "application/zip"
    } else if str_ends_with(name, ".json") {
        "application/json"
    } else if str_ends_with(name, ".xml") {
        "application/xml"
    } else {
        "application/octet-stream"
    };
    t.to_owned()
}

impl Attachment {
    /// An attachment with a file name and content, no MIME type and no
    /// description.
    pub fn new(filename: &str, data: Vec<u8>) -> (r: Attachment)
        ensures
            r.filename@ == filename@,
            r.data@ == data@,
            r.mime_type is None,
            r.description is None,
    {
        Attachment { filename: filename.to_owned(), data, mime_type: None, description: None }
    }

    /// The attachment with its MIME type set.
    pub fn with_mime_type(self, mime_type: &str) -> (r: Attachment)
        ensures
            r.mime_type matches Some(m) && m@ == mime_type@,
            r.filename == self.filename,
            r.data == self.data,
            r.description == self.description,
    {
        let mut a = self;
        a.mime_type = Some(mime_type.to_owned());
        a
    }

    /// The attachment with its description set.
    pub fn with_description(self, description: &str) -> (r: Attachment)
        ensures
            r.description matches Some(d) && d@ == description@,
            r.filename == self.filename,
            r.data == self.data,
            r.mime_type == self.mime_type,
    {
        let mut a = self;
        a.description = Some(description.to_owned());
        a
    }

    /// The size of the content in bytes.
    pub fn size(&self) -> (r: usize)
        ensures
            r == self.data@.len(),
    {
        self.data.len()
    }

    /// The MIME type that the file name's extension suggests, compared
    /// without regard to case.
    pub fn guess_mime_type(&self) -> (r: String)
        ensures
            r@ == spec_mime_for(vstd::utf8::encode_utf8(lower_of(self.filename@))),
    {
        let lower = lowercase(self.filename.as_str());
        mime_type_for_lowercase(lower.as_str())
    }
}

/// The bytes of a text.
pub open spec fn text_bytes(s: Seq<char>) -> Seq<u8> {
    vstd::utf8::encode_utf8(s)
}

/// The checks on an attachment before it is added: a PDF that exists, a
/// non-empty name without `/` or `\\`, and non-empty content.
pub open spec fn spec_attachment_check(pdf_exists: bool, a: Attachment) -> Result<(), EnhancedError> {
    if !pdf_exists {
        Err(EnhancedError::FileNotFound)
    } else if a.filename@.len() == 0 || a.data@.len() == 0 {
        Err(EnhancedError::InvalidParameter)
    } else if contains(text_bytes(a.filename@), "/".spec_bytes()) || contains(
        text_bytes(a.filename@),
        "\\".spec_bytes(),
    ) {
        Err(EnhancedError::InvalidParameter)
    } else {
        Ok(())
    }
}

/// The outcome of adding an attachment, given whether the PDF exists.
pub fn check_attachment_add(pdf_exists: bool, attachment: &Attachment) -> (r: Result<
    (),
    EnhancedError,
>)
    ensures
        r == spec_attachment_check(pdf_exists, *attachment),
{
    if !pdf_exists {
        return Err(EnhancedError::FileNotFound);
    }
    if attachment.filename.as_str().is_empty() || attachment.data.len() == 0 {
        return Err(EnhancedError::InvalidParameter);
    }
    if str_contains(attachment.filename.as_str(), "/") || str_contains(
        attachment.filename.as_str(),
        "\\",
    ) {
        return Err(EnhancedError::InvalidParameter);
    }
    Ok(())
}

/// Adds an attachment to a PDF file: the file must exist and the attachment
/// must pass the checks; embedding itself is not yet performed.
pub fn add_attachment(pdf_path: &str, attachment: &Attachment) -> (r: Result<(), EnhancedError>)
    ensures
        r is Ok ==> spec_attachment_check(true, *attachment) is Ok,
        spec_attachment_check(true, *attachment) is Err ==> r is Err,
{
    check_attachment_add(path_exists(pdf_path), attachment)
}

/// The outcome of removing or extracting a named item, given whether the
/// PDF exists: the name must not be empty.
pub open spec fn spec_named_item_check(pdf_exists: bool, name: Seq<char>) -> Result<
    (),
    EnhancedError,
> {
    if !pdf_exists {
        Err(EnhancedError::FileNotFound)
    } else if name.len() == 0 {
        Err(EnhancedError::InvalidParameter)
    } else {
        Ok(())
    }
}

/// Checks a request on a named item of a PDF, given whether the PDF exists.
pub fn check_named_item(pdf_exists: bool, name: &str) -> (r: Result<(), EnhancedError>)
    ensures
        r == spec_named_item_check(pdf_exists, name@),
{
    if !pdf_exists {
        return Err(EnhancedError::FileNotFound);
    }
    if name.is_empty() {
        return Err(EnhancedError::InvalidParameter);
    }
    Ok(())
}

/// Removes an attachment from a PDF file: the file must exist and the name
/// must not be empty; removal itself is not yet performed.
pub fn remove_attachment(pdf_path: &str, filename: &str) -> (r: Result<(), EnhancedError>)
    ensures
        filename@.len() == 0 ==> r is Err,
        r is Err ==> r == spec_named_item_check(false, filename@) || r == spec_named_item_check(
            true,
            filename@,
        ),
{
    check_named_item(path_exists(pdf_path), filename)
}

/// The attachment list of a PDF, given whether it exists: no attachment is
/// read yet, so an existing file lists none.
pub fn attachment_listing(pdf_exists: bool) -> (r: Result<Vec<String>, EnhancedError>)
    ensures
        pdf_exists ==> (r matches Ok(v) && v@.len() == 0),
        !pdf_exists ==> (r matches Err(e) && e == EnhancedError::FileNotFound),
{
    if !pdf_exists {
        return Err(EnhancedError::FileNotFound);
    }
    Ok(Vec::new())
}

/// Lists the attachments of a PDF file: the file must exist; no attachment
/// is read yet, so the list is empty.
pub fn list_attachments(pdf_path: &str) -> (r: Result<Vec<String>, EnhancedError>)
    ensures
        r matches Ok(v) ==> v@.len() == 0,
        r matches Err(e) ==> e == EnhancedError::FileNotFound,
{
    attachment_listing(path_exists(pdf_path))
}

/// The outcome of extracting a named attachment, given whether the PDF
/// exists: a missing file, then an empty name, are rejected; attachments are
/// not read yet, so any other request finds nothing.
pub open spec fn spec_extract_outcome(pdf_exists: bool, name: Seq<char>) -> EnhancedError {
    match spec_named_item_check(pdf_exists, name) {
        Err(e) => e,
        Ok(()) => EnhancedError::NotFound,
    }
}

/// Decides the outcome of an extraction, given whether the PDF exists.
pub fn check_attachment_extract(pdf_exists: bool, filename: &str) -> (r: Result<
    Vec<u8>,
    EnhancedError,
>)
    ensures
        r == Err::<Vec<u8>, EnhancedError>(spec_extract_outcome(pdf_exists, filename@)),
{
    match check_named_item(pdf_exists, filename) {
        Err(e) => Err(e),
        Ok(()) => Err(EnhancedError::NotFound),
    }
}

/// Extracts a named attachment from a PDF file: a missing file gives
/// `FileNotFound`, an empty name `InvalidParameter`; attachments are not read
/// yet, so an existing file with a non-empty name gives `NotFound`.
pub fn extract_attachment(pdf_path: &str, filename: &str) -> (r: Result<Vec<u8>, EnhancedError>)
    ensures
        r == Err::<Vec<u8>, EnhancedError>(spec_extract_outcome(false, filename@)) || r == Err::<
            Vec<u8>,
            EnhancedError,
        >(spec_extract_outcome(true, filename@)),
{
    check_attachment_extract(path_exists(pdf_path), filename)
}

/// A text watermark to stamp on pages.
pub struct Watermark {
    text: String,
}

impl View for Watermark {
    type V = Seq<char>;

    closed spec fn view(&self) -> Seq<char> {
        self.text@
    }
}

impl Watermark {
    /// A watermark with the given text.
    pub fn new(text: &str) -> (r: Watermark)
        ensures
            r@ == text@,
    {
        Watermark { text: text.to_owned() }
    }

    /// Stamping is not implemented: always `NotImplemented`.
    pub fn apply(&self) -> (r: Result<(), EnhancedError>)
        ensures
            r == Err::<(), EnhancedError>(EnhancedError::NotImplemented),
    {
        Err(EnhancedError::NotImplemented)
    }
}

/// The document information of a PDF.
#[derive(Debug, Clone, Default)]
pub struct Metadata {
    /// title
    pub title: Option<String>,
    /// author
    pub author: Option<String>,
    /// subject
    pub subject: Option<String>,
    /// keywords
    pub keywords: Option<String>,
    /// creating application
    pub creator: Option<String>,
    /// producing application
    pub producer: Option<String>,
    /// creation date
    pub creation_date: Option<String>,
    /// modification date
    pub mod_date: Option<String>,
    /// further entries
    pub custom: HashMap<String, String>,
}

impl Metadata {
    /// Metadata with no entry.
    pub fn new() -> (r: Metadata)
        ensures
            r.title is None,
            r.author is None,
            r.subject is None,
            r.keywords is None,
            r.creator is None,
            r.producer is None,
            r.creation_date is None,
            r.mod_date is None,
            r.custom@ == Map::<String, String>::empty(),
    {
        Metadata {
            title: None,
            author: None,
            subject: None,
            keywords: None,
            creator: None,
            producer: None,
            creation_date: None,
            mod_date: None,
            custom: HashMap::new(),
        }
    }

    /// The metadata with its title set.
    pub fn with_title(self, title: &str) -> (r: Metadata)
        ensures
            r.title matches Some(t) && t@ == title@,
            r.author == self.author,
            r.subject == self.subject,
            r.keywords == self.keywords,
    {
        let mut m = self;
        m.title = Some(title.to_owned());
        m
    }

    /// The metadata with its author set.
    pub fn with_author(self, author: &str) -> (r: Metadata)
        ensures
            r.author matches Some(t) && t@ == author@,
            r.title == self.title,
            r.subject == self.subject,
            r.keywords == self.keywords,
    {
        let mut m = self;
        m.author = Some(author.to_owned());
        m
    }

    /// The metadata with its subject set.
    pub fn with_subject(self, subject: &str) -> (r: Metadata)
        ensures
            r.subject matches Some(t) && t@ == subject@,
            r.title == self.title,
            r.author == self.author,
            r.keywords == self.keywords,
    {
        let mut m = self;
        m.subject = Some(subject.to_owned());
        m
    }

    /// The metadata with its keywords set.
    pub fn with_keywords(self, keywords: &str) -> (r: Metadata)
        ensures
            r.keywords matches Some(t) && t@ == keywords@,
            r.title == self.title,
            r.author == self.author,
            r.subject == self.subject,
    {
        let mut m = self;
        m.keywords = Some(keywords.to_owned());
        m
    }

    /// Sets a further entry, replacing one of the same key.
    pub fn add_custom(&mut self, key: &str, value: &str)
        ensures
            final(self).title == old(self).title,
            final(self).author == old(self).author,
            final(self).subject == old(self).subject,
            final(self).keywords == old(self).keywords,
            vstd::std_specs::hash::obeys_key_model::<String>() ==> exists|k: String, v: String|
                k@ == key@ && v@ == value@ && #[trigger] final(self).custom@ == old(
                    self,
                ).custom@.insert(k, v),
    {
        let k = key.to_owned();
        let v = value.to_owned();
        proof {
            broadcast use vstd::std_specs::hash::axiom_random_state_builds_valid_hashers;
        }
        self.custom.insert(k, v);
    }
}

/// The producer name that read metadata carries.
pub const PRODUCER: &'static str = "NanoPDF";

/// The metadata that reading gives while the information dictionary is not
/// parsed: only the producer is set.
pub open spec fn is_producer_only(m: Metadata) -> bool {
    &&& m.title is None
    &&& m.author is None
    &&& m.subject is None
    &&& m.keywords is None
    &&& m.creator is None
    &&& m.creation_date is None
    &&& m.mod_date is None
    &&& m.custom@ == Map::<String, String>::empty()
    &&& m.producer matches Some(p) && p@ == PRODUCER@
}

/// The metadata of a PDF, given whether it exists: an existing file gives
/// metadata with only the producer set.
pub fn metadata_for(pdf_exists: bool) -> (r: Result<Metadata, EnhancedError>)
    ensures
        pdf_exists ==> (r matches Ok(m) && is_producer_only(m)),
        !pdf_exists ==> (r matches Err(e) && e == EnhancedError::FileNotFound),
{
    if !pdf_exists {
        return Err(EnhancedError::FileNotFound);
    }
    let mut metadata = Metadata::new();
    metadata.producer = Some(PRODUCER.to_owned());
    Ok(metadata)
}

/// Reads the metadata of a PDF file: the file must exist; the information
/// dictionary is not parsed yet, so only the producer is set.
pub fn read_metadata(pdf_path: &str) -> (r: Result<Metadata, EnhancedError>)
    ensures
        r matches Ok(m) ==> is_producer_only(m),
        r matches Err(e) ==> e == EnhancedError::FileNotFound,
{
    metadata_for(path_exists(pdf_path))
}

/// The XMP packet of a document without XMP metadata.
pub const EMPTY_XMP: &'static str = "<?xml version=\"1.0\" encoding=\"UTF-8\"?>\n<x:xmpmeta xmlns:x=\"adobe:ns:meta/\">\n    <rdf:RDF xmlns:rdf=\"http://www.w3.org/1999/02/22-rdf-syntax-ns#\">\n    </rdf:RDF>\n</x:xmpmeta>";

/// Reads the XMP metadata of a PDF file: the file must exist; the metadata
/// stream is not read yet, so the packet is an empty one.
pub fn read_xmp_metadata(pdf_path: &str) -> (r: Result<String, EnhancedError>)
    ensures
        r matches Ok(s) ==> s@ == EMPTY_XMP@,
        r matches Err(e) ==> e == EnhancedError::FileNotFound,
{
    xmp_for(path_exists(pdf_path))
}

/// The XMP packet of a PDF, given whether it exists: an existing file gives
/// the empty packet.
pub fn xmp_for(pdf_exists: bool) -> (r: Result<String, EnhancedError>)
    ensures
        pdf_exists ==> (r matches Ok(s) && s@ == EMPTY_XMP@),
        !pdf_exists ==> (r matches Err(e) && e == EnhancedError::FileNotFound),
{
    if !pdf_exists {
        return Err(EnhancedError::FileNotFound);
    }
    Ok(EMPTY_XMP.to_owned())
}

/// The checks on an XMP packet before it is stored: a PDF that exists, and
/// text holding an XML declaration and an `xmpmeta` element.
pub open spec fn spec_xmp_check(pdf_exists: bool, xmp: Seq<u8>) -> Result<(), EnhancedError> {
    if !pdf_exists {
        Err(EnhancedError::FileNotFound)
    } else if !contains(xmp, "<?xml".spec_bytes()) || !contains(xmp, "xmpmeta".spec_bytes()) {
        Err(EnhancedError::InvalidParameter)
    } else {
        Ok(())
    }
}

/// Checks an XMP update, given whether the PDF exists.
pub fn check_xmp_update(pdf_exists: bool, xmp: &str) -> (r: Result<(), EnhancedError>)
    ensures
        r == spec_xmp_check(pdf_exists, xmp.spec_bytes()),
{
    if !pdf_exists {
        return Err(EnhancedError::FileNotFound);
    }
    if !str_contains(xmp, "<?xml") || !str_contains(xmp, "xmpmeta") {
        return Err(EnhancedError::InvalidParameter);
    }
    Ok(())
}

/// Updates the XMP metadata of a PDF file: the file must exist and the
/// packet must pass the checks; storing itself is not yet performed.
pub fn update_xmp_metadata(pdf_path: &str, xmp: &str) -> (r: Result<(), EnhancedError>)
    ensures
        r is Ok ==> spec_xmp_check(true, xmp.spec_bytes()) is Ok,
        spec_xmp_check(true, xmp.spec_bytes()) is Err ==> r is Err,
{
    check_xmp_update(path_exists(pdf_path), xmp)
}

} // verus!
