//! Stream filters of PDF: the codecs named by a stream's `/Filter` entry,
//! their row predictors, and the composition of several filters into a chain.
//!
//! Around them stand the small value types of a PDF toolkit: object names,
//! strings and references, in-memory streams, archives held in memory,
//! outlines, attachments, metadata and an error context.

pub mod error;
pub mod filter_type;
pub mod ascii_hex;
pub mod run_length;
pub mod ascii85;
pub mod params;
pub mod predictor;
pub mod codec_lib;
pub mod codecs;
pub mod ccitt;
pub mod chain;
pub mod object;
pub mod stream;
pub mod byte_util;
pub mod enhanced;
pub mod ffi;
pub mod bookmarks;
pub mod archive;

pub use error::FilterError;
pub use filter_type::FilterType;
pub use ascii_hex::{decode_ascii_hex, encode_ascii_hex};
pub use run_length::{decode_run_length, encode_run_length};
pub use ascii85::{decode_ascii85, encode_ascii85};
pub use params::{
    CCITTFaxDecodeParams, DCTDecodeParams, FlateDecodeParams, JBIG2DecodeParams, LZWDecodeParams,
};
pub use predictor::{
    apply_png_predictor_decode, apply_predictor_decode, apply_tiff_predictor_decode,
    decode_png_filter,
};
pub use codecs::{
    decode_dct, decode_flate, decode_jbig2, decode_jpx, decode_lzw, encode_dct, encode_flate,
    encode_lzw,
};
pub use ccitt::{decode_ccitt_fax, BitReader};
pub use chain::FilterChain;
pub use object::{Name, ObjRef, PdfString};
pub use stream::{Stream, StreamError};
pub use enhanced::{
    add_attachment, extract_attachment, is_available, list_attachments, read_metadata,
    read_xmp_metadata, remove_attachment, update_xmp_metadata, Attachment, EnhancedError, Metadata,
    Watermark, VERSION,
};
pub use bookmarks::{add_bookmark, create_hierarchy, get_bookmarks, remove_bookmark, Bookmark};
pub use ffi::Context;
pub use archive::{Archive, ArchiveEntry, ArchiveError, ArchiveFormat};
