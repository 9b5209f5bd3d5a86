use vstd::prelude::*;

verus! {

/// Compression method codes used by the body streams.
///
/// A positive code names the encoding applied on the way out, a negative code
/// names an encoding the data already carries and that is passed through.
pub struct Consts;

impl Consts {
    pub const COMPRESS_METHOD_ORIGIN_BROTLI: i8 = -3;
    pub const COMPRESS_METHOD_ORIGIN_DEFLATE: i8 = -2;
    pub const COMPRESS_METHOD_ORIGIN_GZIP: i8 = -1;
    pub const COMPRESS_METHOD_NONE: i8 = 0;
    pub const COMPRESS_METHOD_GZIP: i8 = 1;
    pub const COMPRESS_METHOD_DEFLATE: i8 = 2;
    pub const COMPRESS_METHOD_BROTLI: i8 = 3;
}

} // verus!
