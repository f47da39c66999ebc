//! Rules engine of a grid-based mine-detection puzzle.
//!
//! The crate generates a consistent minefield, tracks which cells are covered,
//! flagged or revealed, and enforces the reveal propagation and the win and
//! loss rules. Every executable function carries a contract that is proved
//! against a mathematical model of the board.

pub mod assets;
pub mod board;
pub mod cell_set;
pub mod components;
pub mod coordinates;
pub mod error;
pub mod flood;
pub mod grid;
pub mod laws;
pub mod options;
pub mod outcome;
pub mod plane;
pub mod random;
pub mod session;
pub mod state;
pub mod text;
pub mod tile;

pub use board::{create_board, Board};
pub use cell_set::CellSet;
pub use components::{Bomb, BombNeighbor, Uncover, Uncovering};
pub use coordinates::Coordinates;
pub use error::BoardError;
pub use grid::{Grid, GridView};
pub use options::BoardOptions;
pub use outcome::{FlagOutcome, RevealOutcome};
pub use random::RandomSource;
pub use session::{AppState, ButtonAction, ReloadEvent, StateChange, StateEvent, Transition};
pub use state::{BoardView, Move};
pub use tile::Tile;
