//! An SSZ progressive list: a list with no capacity bound whose wire format is
//! that of a plain list, together with its SSZ and SCALE codecs and the parts
//! of its merkleization that do not depend on the progressive hasher itself.

pub mod le;
pub mod list;
pub mod merkle;
pub mod scale_codec;
pub mod ssz_codec;

pub use list::ProgressiveList;
