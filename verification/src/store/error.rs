//! Failures of the agent-memory store.
use vstd::prelude::*;

use crate::text::push_str;

verus! {

/// Failure of a store operation.
#[derive(Debug)]
pub enum StoreError {
    Db(String),
    Serialization(String),
    LockPoisoned,
    Other(String),
}

impl StoreError {
    /// The error's message.
    pub open spec fn spec_message(&self) -> Seq<char> {
        match self {
            StoreError::Db(m) => "database error: "@ + m@,
            StoreError::Serialization(m) => "serialization error: "@ + m@,
            StoreError::LockPoisoned => "lock poisoned"@,
            StoreError::Other(m) => m@,
        }
    }

    /// The error's message.
    pub fn message(&self) -> (r: String)
        ensures
            r@ == self.spec_message(),
    {
        match self {
            StoreError::Db(m) => {
                let mut s = "database error: ".to_owned();
                push_str(&mut s, m.as_str());
                s
            },
            StoreError::Serialization(m) => {
                let mut s = "serialization error: ".to_owned();
                push_str(&mut s, m.as_str());
                s
            },
            StoreError::LockPoisoned => "lock poisoned".to_owned(),
            StoreError::Other(m) => m.clone(),
        }
    }
}

} // verus!
