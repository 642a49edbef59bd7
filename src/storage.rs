//! Where a downloaded photo is stored: `<id>.<extension>` in the storage folder.
use vstd::prelude::*;

use crate::acquire::Outcome;
use crate::params::{extension_of, Format};

verus! {

/// The file name of a photo stored in a format.
pub open spec fn file_name_of(id: Seq<char>, format: Format) -> Seq<char> {
    id + "."@ + extension_of(format)
}

/// The file name of the photo with this id, in this format.
pub fn file_name(id: &str, format: Format) -> (r: String)
    ensures
        r@ == file_name_of(id@, format),
{
    String::from_str(id).concat(".").concat(format.extension())
}

impl Outcome {
    /// The file name to store a downloaded photo under; none for a failed
    /// download, which leaves nothing to store.
    pub fn storage_name(&self, format: Format) -> (r: Option<String>)
        ensures
            match self.result {
                Ok(_) => r matches Some(name) && name@ == file_name_of(self.photo@.id, format),
                Err(_) => r is None,
            },
    {
        match &self.result {
            Ok(_) => Some(file_name(self.photo.id(), format)),
            Err(_) => None,
        }
    }
}

} // verus!
