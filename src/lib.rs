pub mod board;
pub mod codec;
pub mod game;
pub mod movegen;
pub mod pieces;
pub mod play;
pub mod policy;
pub mod uniqueness;

pub use pieces::{Direction, MortalPiece, Piece, PlayerID};
pub use codec::{DecodeError, Move};
pub use game::Ginseng;
pub use play::GinsengIterator;
pub use policy::GinsengNet;
