use vstd::prelude::*;
use vstd::string::StringExecFns;

verus! {

/// The failures a dispatch or an interactive step can surface.
///
/// Each variant records where the failure arose: the argument parser, the
/// line tokenizer, the dispatch table, or a custom handler.
#[derive(Debug, Clone)]
pub enum Error {
    /// The argument parser rejected the tokens; carries its rendered message.
    ArgParse(String),
    /// The line tokenizer rejected the raw line; carries its message.
    Tokenize(String),
    /// A resolved child name was absent from the child mapping.
    UnknownSubcommand(String),
    /// A custom handler failed; carries its message.
    Handler(String),
}

impl Error {
    /// What `message` returns for each variant.
    pub open spec fn spec_message(&self) -> Seq<char> {
        match self {
            Error::ArgParse(s) => s@,
            Error::Tokenize(s) => "parse error: `"@ + s@ + "`"@,
            Error::UnknownSubcommand(s) => "no subcommand handler for `"@ + s@ + "`"@,
            Error::Handler(s) => s@,
        }
    }

    /// Render the error as a single printable line.
    pub fn message(&self) -> (r: String)
        ensures
            r@ == self.spec_message(),
    {
        match self {
            Error::ArgParse(s) => s.clone(),
            Error::Tokenize(s) => {
                let mut r: String = "parse error: `".to_owned();
                r.append(s.as_str());
                r.append("`");
                r
            },
            Error::UnknownSubcommand(s) => {
                let mut r: String = "no subcommand handler for `".to_owned();
                r.append(s.as_str());
                r.append("`");
                r
            },
            Error::Handler(s) => s.clone(),
        }
    }
}

} // verus!
