//! The rules of the subscriber store that do not need the database itself.

use vstd::prelude::*;

verus! {

/// The one error of the subscriber store: whatever went wrong, callers learn
/// only that the database failed.
#[derive(Clone, Copy, Debug, PartialEq, Eq, Structural)]
pub struct DBErr;

impl DBErr {
    /// The text that stands for this error in logs and replies.
    pub open spec fn message_text(&self) -> Seq<char> {
        "Database Error"@
    }

    /// The text that stands for this error in logs and replies.
    pub fn to_text(&self) -> (text: String)
        ensures
            text@ == self.message_text(),
    {
        String::from_str("Database Error")
    }
}

/// Whether a channel is subscribed, from the answer to the count query.
/// `count` is the first column of the first row, or `None` where the answer
/// had no row. A channel is stored at most once, so any count but `0` and
/// `1` is an error of the store.
pub open spec fn exists_from_count_spec(count: Option<i64>) -> Result<bool, DBErr> {
    match count {
        Some(1) => Ok(true),
        Some(0) => Ok(false),
        _ => Err(DBErr),
    }
}

/// Decides what the answer to the count query means.
pub fn exists_from_count(count: Option<i64>) -> (r: Result<bool, DBErr>)
    ensures
        r == exists_from_count_spec(count),
{
    match count {
        Some(n) => {
            if n == 1 {
                Ok(true)
            } else if n == 0 {
                Ok(false)
            } else {
                Err(DBErr)
            }
        },
        None => Err(DBErr),
    }
}

} // verus!
