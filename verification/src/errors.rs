//! Errors of loading the text corpus.
use vstd::prelude::*;

verus! {

#[verifier::external_type_specification]
#[verifier::external_body]
pub struct ExIoError(std::io::Error);

/// Why the corpus could not be loaded.
#[derive(Debug)]
pub enum CorpusErr {
    /// No corpus files were found.
    EmptyCorpus,
    /// Reading the corpus failed.
    Io(std::io::Error),
}

impl CorpusErr {
    /// A short description of the error, without the details of an IO error.
    pub fn description(&self) -> (msg: &'static str)
        ensures
            self is EmptyCorpus ==> msg@ == "corpus is empty"@,
            self is Io ==> msg@ == "IO error"@,
    {
        match self {
            CorpusErr::EmptyCorpus => "corpus is empty",
            CorpusErr::Io(_) => "IO error",
        }
    }
}

impl From<std::io::Error> for CorpusErr {
    fn from(error: std::io::Error) -> (err: Self) {
        CorpusErr::Io(error)
    }
}

impl vstd::std_specs::convert::FromSpecImpl<std::io::Error> for CorpusErr {
    open spec fn obeys_from_spec() -> bool {
        true
    }

    open spec fn from_spec(v: std::io::Error) -> Self {
        CorpusErr::Io(v)
    }
}

} // verus!
