//! Text from PDF documents.

use vstd::prelude::*;

verus! {

/// The text of the PDF document at `path`. No reader for the format is at
/// hand, so there is never a text: such documents stay out of the index.
pub fn read_all_pdf_text(path: &str) -> (text: Option<String>)
    ensures
        text is None,
{
    let _ = path;
    None
}

} // verus!
