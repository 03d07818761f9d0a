//! The form in which the report is printed.

use vstd::prelude::*;
use crate::text::same_text;
use crate::workspace_dependency::{Error, ErrorView};

verus! {

/// The form of the report.
#[derive(Debug, Clone, Copy, PartialEq, Eq)]
pub enum OutputFormat {
    /// For a reader.
    Text,
    /// One JSON document.
    JSON,
}

impl Default for OutputFormat {
    fn default() -> (r: Self)
        ensures
            r == OutputFormat::Text,
    {
        OutputFormat::Text
    }
}

/// A text with its letters in lower case, as `str::to_lowercase` gives it.
pub uninterp spec fn lowercase(text: Seq<char>) -> Seq<char>;

/// Calls `str::to_lowercase`, whose result [`lowercase`] names.
#[verifier::external_body]
fn to_lowercase(text: &str) -> (r: String)
    ensures
        r@ == lowercase(text@),
{
    text.to_lowercase()
}

/// The format that a name in lower case stands for.
pub open spec fn format_named(lower: Seq<char>) -> Result<OutputFormat, ErrorView> {
    if lower == "text"@ {
        Ok(OutputFormat::Text)
    } else if lower == "json"@ {
        Ok(OutputFormat::JSON)
    } else {
        Err(ErrorView::InvalidOutputFormat(lower))
    }
}

impl OutputFormat {
    /// The format that `lower`, a name in lower case, stands for.
    pub fn from_lowercase(lower: &str) -> (r: Result<OutputFormat, Error>)
        ensures
            match format_named(lower@) {
                Ok(format) => r == Ok::<OutputFormat, Error>(format),
                Err(e) => r matches Err(x) && x@ == e,
            },
    {
        if same_text(lower, "text") {
            Ok(OutputFormat::Text)
        } else if same_text(lower, "json") {
            Ok(OutputFormat::JSON)
        } else {
            Err(Error::InvalidOutputFormat(lower.to_owned()))
        }
    }

    /// The format that `name` stands for, whatever the case of its letters.
    pub fn from_str(name: &str) -> (r: Result<OutputFormat, Error>)
        ensures
            match format_named(lowercase(name@)) {
                Ok(format) => r == Ok::<OutputFormat, Error>(format),
                Err(e) => r matches Err(x) && x@ == e,
            },
    {
        let lower = to_lowercase(name);
        OutputFormat::from_lowercase(lower.as_str())
    }
}

} // verus!
