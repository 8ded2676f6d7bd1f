use vstd::prelude::*;

verus! {

/// What can go wrong when a move is applied or an option is read.
#[derive(Debug, PartialEq, Eq)]
pub enum GameError {
    /// The square `(row, column)` is off the board or already taken.
    InvalidMove(usize, usize),
    /// A mode or a mark was not one of the accepted words.
    InvalidInput(String),
}

impl GameError {
    /// The text shown to the player for this error.
    pub open spec fn message_spec(self) -> Seq<char> {
        match self {
            GameError::InvalidMove(_, _) => "Invalid move"@,
            GameError::InvalidInput(s) => s@,
        }
    }

    pub fn message(&self) -> (r: String)
        ensures
            r@ == self.message_spec(),
    {
        match self {
            GameError::InvalidMove(_, _) => String::from_str("Invalid move"),
            GameError::InvalidInput(s) => s.clone(),
        }
    }
}

} // verus!
