use vstd::prelude::*;
use vstd::string::StringExecFns;
use vstd::string::StringSliceAdditionalSpecFns;
use vstd::utf8::valid_utf8;

verus! {

/// A PDF name object, held without its leading slash.
#[derive(Debug, Clone, PartialEq, Eq, Hash)]
pub struct Name(pub String);

impl Name {
    /// A name with the given characters.
    pub fn new(s: &str) -> (r: Name)
        ensures
            r.0@ == s@,
    {
        Name(s.to_owned())
    }

    /// The name as PDF writes it: a slash, then the characters.
    pub fn to_string(&self) -> (r: String)
        ensures
            r@ == "/"@ + self.0@,
    {
        let mut r = String::from_str("/");
        r.append(self.0.as_str());
        r
    }
}

/// A PDF string object: bytes, not necessarily text.
#[derive(Debug, Clone)]
pub struct PdfString(Vec<u8>);

/// Relies on std::str::from_utf8: it succeeds exactly on valid UTF-8, and
/// the text then has the same bytes.
#[verifier::external_body]
fn utf8_text(b: &[u8]) -> (r: Option<&str>)
    ensures
        r is Some <==> valid_utf8(b@),
        r matches Some(s) ==> s.spec_bytes() == b@,
{
    std::str::from_utf8(b).ok()
}

impl View for PdfString {
    type V = Seq<u8>;

    closed spec fn view(&self) -> Seq<u8> {
        self.0@
    }
}

impl PdfString {
    /// A string object holding the bytes.
    pub fn new(data: Vec<u8>) -> (r: PdfString)
        ensures
            r@ == data@,
    {
        PdfString(data)
    }

    /// The bytes of the string.
    pub fn as_bytes(&self) -> (r: &[u8])
        ensures
            r@ == self@,
    {
        self.0.as_slice()
    }

    /// The string as text, where its bytes are valid UTF-8.
    pub fn as_str(&self) -> (r: Option<&str>)
        ensures
            r is Some <==> valid_utf8(self@),
            r matches Some(s) ==> s.spec_bytes() == self@,
    {
        utf8_text(self.0.as_slice())
    }
}

/// A reference to an indirect object: its number and generation.
#[derive(Debug, Clone, Copy, PartialEq, Eq, Hash, Structural)]
pub struct ObjRef {
    /// the object number
    pub num: i32,
    /// the generation number
    pub generation: i32,
}

impl ObjRef {
    /// The reference to object `num` of generation `generation`.
    pub fn new(num: i32, generation: i32) -> (r: ObjRef)
        ensures
            r.num == num,
            r.generation == generation,
    {
        ObjRef { num, generation }
    }
}

} // verus!
