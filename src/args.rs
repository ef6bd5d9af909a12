use vstd::prelude::*;

verus! {

/// One invocation: what to do, and whether to keep quiet about failure.
pub struct Args {
    /// Print no error message, while still failing with a non-zero exit status.
    pub quiet: bool,
    pub action: Action,
}

/// The operations on the store.
pub enum Action {
    /// Print the selected fields of a register (all set fields if none is
    /// selected), or the values of a list register.
    Get {
        section: String,
        register: String,
        /// Separate the printed values with a null byte instead of newlines.
        null: bool,
        path: bool,
        line: bool,
        column: bool,
        extra: bool,
    },
    /// Set some fields of a register, keeping the others.
    Update {
        section: String,
        register: String,
        path: Option<String>,
        line: Option<i32>,
        column: Option<i32>,
        extra: Option<String>,
    },
    /// Replace all the values of a register with some other ones.
    Replace { section: String, register: String, values: Vec<String> },
    /// Remove a register, or with no register a whole section.
    Clear { section: String, register: Option<String> },
}

} // verus!
