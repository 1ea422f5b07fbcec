use vstd::prelude::*;

verus! {

/// Errors that the library reports. Paths are held as text.
#[derive(Debug, Clone)]
pub enum StatlineError {
    InputNotFound(String),
    InputNotAFile(String),
    UnsupportedFormat(String),
    EmptyDataset,
    Message(String),
}

/// The message shown for an error.
pub open spec fn error_message(e: StatlineError) -> Seq<char> {
    match e {
        StatlineError::InputNotFound(p) => "Input path does not exist: "@ + p@,
        StatlineError::InputNotAFile(p) => "Input path is not a file: "@ + p@,
        StatlineError::UnsupportedFormat(p) => "Unsupported input format for file: "@ + p@,
        StatlineError::EmptyDataset => "Dataset is empty after loading"@,
        StatlineError::Message(m) => m@,
    }
}

impl StatlineError {
    /// The message shown for this error.
    pub fn message(&self) -> (res: String)
        ensures
            res@ == error_message(*self),
    {
        match self {
            StatlineError::InputNotFound(p) => {
                let mut s = crate::text::text_of("Input path does not exist: ");
                crate::text::push_str(&mut s, p.as_str());
                s
            },
            StatlineError::InputNotAFile(p) => {
                let mut s = crate::text::text_of("Input path is not a file: ");
                crate::text::push_str(&mut s, p.as_str());
                s
            },
            StatlineError::UnsupportedFormat(p) => {
                let mut s = crate::text::text_of("Unsupported input format for file: ");
                crate::text::push_str(&mut s, p.as_str());
                s
            },
            StatlineError::EmptyDataset => crate::text::text_of("Dataset is empty after loading"),
            StatlineError::Message(m) => crate::text::text_of(m.as_str()),
        }
    }
}

} // verus!
