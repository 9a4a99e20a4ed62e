//! srx: a lossless byte compressor. A symbol-ranking primary model
//! remembers, for each order-3 context, the three bytes most recently seen
//! after it; its decisions are coded bit by bit by a binary range coder
//! under adaptive predictors of a secondary model.
//!
//! `encode` and `decode` work on whole streams in memory. The stages they
//! are built from (`PrimaryContextEncoder`, `SecondaryContextEncoder`,
//! `CombinedContextDecoder`) and the bounded `pipe` between stages let a
//! caller run compression as a pipeline of threads.
pub mod bit;
pub mod bridged;
pub mod buffer;
pub mod byte;
pub mod codec;
pub mod coder;
pub mod decoder;
pub mod encoder;
pub mod error;
pub mod history;
pub mod history_state;
pub mod io;
pub mod message;
pub mod model;
pub mod pipe;
pub mod primary;
pub mod round_trip;
pub mod secondary;
pub mod secondary_state;

pub use crate::bit::Bit;
pub use crate::bridged::{BridgedContextInfo, SECONDARY_CONTEXT_SIZE};
pub use crate::buffer::Buffer;
pub use crate::byte::Byte;
pub use crate::codec::{check_header, decode, encode, header_bytes};
pub use crate::coder::{BitDecoder, BitEncoder};
pub use crate::decoder::CombinedContextDecoder;
pub use crate::encoder::{PrimaryContextEncoder, SecondaryContextEncoder};
pub use crate::error::{AnyError, AnyResult};
pub use crate::history::ByteHistory;
pub use crate::history_state::{ByteMatched, HistoryState, HistoryStateTable};
pub use crate::io::{Closable, Reader, Writer};
pub use crate::message::{Message, PackedMessage};
pub use crate::pipe::{pipe, PipedReader, PipedWriter};
pub use crate::primary::{PrimaryContext, PRIMARY_CONTEXT_SIZE};
pub use crate::secondary::{BitState, SecondaryContext};
pub use crate::secondary_state::{SecondaryStateTable, StateInfo};
