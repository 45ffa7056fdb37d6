//! A minimal virtual-terminal rendering library.
//!
//! The library keeps an in-memory model of a character terminal
//! ([`State`]), computes the operations that turn one frame into the
//! next ([`spill`]), encodes those operations as ANSI escape bytes
//! ([`code`]), and decodes raw keyboard bytes into key events
//! ([`Key`], [`Decoder`]).

pub mod grid;
pub mod ops;
pub mod diff;
pub mod encode;
pub mod input;

pub use grid::ScreenView;
pub use grid::State;
pub use ops::Op;
pub use ops::apply;
pub use diff::spill;
pub use encode::code;
pub use input::Decoder;
pub use input::Key;
