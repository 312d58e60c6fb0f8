//! Values carried in a single machine word.
//!
//! A [`Pointer`] backend says how a value becomes a word and comes back.
//! Backends compose: a tag goes into the low bits that alignment leaves
//! clear, and a two-variant type is told apart by a bit pattern that its
//! present variant never produces. [`compact::Compact`] keeps a value as its
//! word; [`shy_atomic::ShyAtomic`] lets threads exchange such words.

pub mod align;
pub mod bits;
pub mod compact;
pub mod maybe_owned;
pub mod niche;
pub mod num;
pub mod pointer;
pub mod predicate;
pub mod scalar;
pub mod shy_atomic;
pub mod tag;

pub use crate::align::max;
pub use crate::align::min;
pub use crate::bits::Bits;
pub use crate::bits::FitsInUsize;
pub use crate::bits::FreeBits;
pub use crate::maybe_owned::MaybeOwned;
pub use crate::niche::NestOption;
pub use crate::num::CanFitNum;
pub use crate::num::Num;
pub use crate::pointer::CloneInPlace;
pub use crate::pointer::NonNull;
pub use crate::pointer::Pointer;
pub use crate::predicate::AlignedTo;
pub use crate::predicate::Eval;
pub use crate::predicate::VerifyAlignment;
pub use crate::scalar::Null;
