//! Files on the forge: what a lookup of a path comes to.
use vstd::prelude::*;

verus! {

/// A file on the forge: its text and the hash of its content.
pub struct Content {
    pub text: String,
    pub sha: Option<String>,
}

/// A failed call to the forge.
pub enum ForgeError {
    /// The forge answered with this HTTP status.
    Status { code: u16 },
    /// The forge could not be reached, or its answer could not be read.
    Transport,
    /// A file lookup listed more than one entry.
    NotAFile { entries: usize },
}

/// The status with which the forge says that a path does not exist.
pub const NOT_FOUND: u16 = 404;

/// What a lookup of one file path comes to: nothing where the forge lists
/// no entry or answers "not found", the entry where it lists one, and an
/// error where it lists several or fails otherwise.
pub fn get_file_content(listing: Result<Vec<Content>, ForgeError>) -> (r: Result<Option<Content>, ForgeError>)
    ensures
        listing matches Ok(items) ==> {
            &&& items@.len() == 0 ==> (r matches Ok(None))
            &&& items@.len() == 1 ==> r == Ok::<Option<Content>, ForgeError>(Some(items@[0]))
            &&& items@.len() > 1 ==> (r matches Err(ForgeError::NotAFile { entries }) && entries
                == items@.len())
        },
        listing matches Err(e) ==> {
            &&& (e matches ForgeError::Status { code } && code == NOT_FOUND) ==> (r matches Ok(None))
            &&& !(e matches ForgeError::Status { code } && code == NOT_FOUND) ==> r == Err::<
                Option<Content>,
                ForgeError,
            >(e)
        },
{
    match listing {
        Ok(mut items) => {
            let n = items.len();
            if n == 0 {
                Ok(None)
            } else if n == 1 {
                let item = items.pop();
                match item {
                    Some(c) => Ok(Some(c)),
                    None => Ok(None),
                }
            } else {
                Err(ForgeError::NotAFile { entries: n })
            }
        },
        Err(ForgeError::Status { code }) => {
            if code == NOT_FOUND {
                Ok(None)
            } else {
                Err(ForgeError::Status { code })
            }
        },
        Err(e) => Err(e),
    }
}

} // verus!
