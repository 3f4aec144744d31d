//! The text corpus that layouts are evaluated on.
use vstd::prelude::*;

use crate::errors::CorpusErr;

verus! {

/// Accepts the loaded corpus entries as the corpus; a corpus without entries
/// is refused.
pub fn initialize_corpus(entries: Vec<String>) -> (corpus: Result<Vec<String>, CorpusErr>)
    ensures
        entries@.len() == 0 <==> corpus is Err,
        corpus matches Err(e) ==> e is EmptyCorpus,
        corpus matches Ok(c) ==> c@ == entries@,
{
    if entries.len() == 0 {
        return Err(CorpusErr::EmptyCorpus);
    }
    Ok(entries)
}

} // verus!
