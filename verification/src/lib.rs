//! Function-pattern layout and alphanumeric segment encoding for QR symbols.
//!
//! [`qr_mask`] lays out the finder, timing and alignment patterns of a symbol
//! of any of the forty versions and marks every module that data must leave
//! alone; `layout` says, module by module, what both grids hold.
//! [`QrSegment::encode_alphanumeric`] packs a text over the 45-character
//! alphabet into mode indicator, character count, data, terminator and
//! padding. Bits are kept in `bitvec` buffers, whose behaviour `bits` takes
//! on trust; everything else is proved.

pub mod alignment;
pub mod bits;
pub mod grid;
pub mod layout;
pub mod matrix;
pub mod render;
pub mod segment;
pub mod version;

pub use grid::QrRaw;
pub use matrix::qr_mask;
pub use segment::EncodeQrSegmentError;
pub use segment::QrSegment;
pub use segment::QrSegmentMode;
pub use version::ParseQrVersionError;
pub use version::QrVersion;
