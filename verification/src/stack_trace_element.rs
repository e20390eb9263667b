//! One line of a stack trace.
use vstd::prelude::*;
use vstd::string::StringExecFns;
use crate::text::{decimal_digits, decimal_text};

verus! {

/// The place in the source at which a frame stood when an exception was
/// thrown.
pub struct StackTraceElement {
    pub declaring_class: String,
    pub method_name: String,
    pub file_name: Option<String>,
    pub line_number: u16,
}

impl StackTraceElement {
    /// The line as it is printed: a tab, the class and the method with a
    /// dot between them, and in brackets the source file and the line.
    pub open spec fn line(&self) -> Seq<char> {
        "\t"@ + self.declaring_class@ + "."@ + self.method_name@ + "("@ + (match self.file_name {
            Some(name) => name@,
            None => "<unknown source>"@,
        }) + ":"@ + decimal_digits(self.line_number as nat) + ")"@
    }

    /// The line as it is printed.
    pub fn describe(&self) -> (r: String)
        ensures
            r@ == self.line(),
    {
        let mut text = "\t".to_owned();
        text.append(self.declaring_class.as_str());
        text.append(".");
        text.append(self.method_name.as_str());
        text.append("(");
        match &self.file_name {
            Some(name) => text.append(name.as_str()),
            None => text.append("<unknown source>"),
        }
        text.append(":");
        let number = decimal_text(self.line_number as u64);
        text.append(number.as_str());
        text.append(")");
        text
    }
}

} // verus!
