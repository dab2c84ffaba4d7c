//! The diagnostics that a failed transformation reports.

use vstd::prelude::*;

verus! {

/// One diagnostic, carrying the offending name, token text, or a message.
#[derive(Debug)]
pub enum Diagnostic {
    /// The target is not a record with named fields (an enum, for example).
    UnsupportedShape,
    /// An option name is unrecognized in its context, or its argument has
    /// the wrong shape for that name.
    UnsupportedArgument(String),
    /// Mutually exclusive field options co-occur.
    ConflictingOptions(String),
    /// A rename or transform is requested on a field with no identifier.
    MissingIdentifier,
    /// A literal argument cannot be decoded as text.
    MalformedLiteral(String),
    /// An annotation payload does not follow the options grammar; carries
    /// the text of the offending token.
    SyntaxError(String),
}

/// Mathematical model of [`Diagnostic`].
pub enum DiagnosticV {
    UnsupportedShape,
    UnsupportedArgument(Seq<char>),
    ConflictingOptions(Seq<char>),
    MissingIdentifier,
    MalformedLiteral(Seq<char>),
    SyntaxError(Seq<char>),
}

impl View for Diagnostic {
    type V = DiagnosticV;

    open spec fn view(&self) -> DiagnosticV {
        match self {
            Diagnostic::UnsupportedShape => DiagnosticV::UnsupportedShape,
            Diagnostic::UnsupportedArgument(s) => DiagnosticV::UnsupportedArgument(s@),
            Diagnostic::ConflictingOptions(s) => DiagnosticV::ConflictingOptions(s@),
            Diagnostic::MissingIdentifier => DiagnosticV::MissingIdentifier,
            Diagnostic::MalformedLiteral(s) => DiagnosticV::MalformedLiteral(s@),
            Diagnostic::SyntaxError(s) => DiagnosticV::SyntaxError(s@),
        }
    }
}

impl DeepView for Diagnostic {
    type V = DiagnosticV;

    open spec fn deep_view(&self) -> DiagnosticV {
        self.view()
    }
}

impl Diagnostic {
    /// A short message describing this diagnostic.
    pub fn message(&self) -> (r: String)
        ensures
            r@ == self.spec_message(),
    {
        let mut out = String::new();
        match self {
            Diagnostic::UnsupportedShape => {
                out.append("only structs with named fields are supported");
            },
            Diagnostic::UnsupportedArgument(s) => {
                out.append("unsupported argument: ");
                out.append(s.as_str());
            },
            Diagnostic::ConflictingOptions(s) => {
                out.append(s.as_str());
            },
            Diagnostic::MissingIdentifier => {
                out.append("cannot use rename on an unnamed field");
            },
            Diagnostic::MalformedLiteral(s) => {
                out.append("invalid literal, could not decode as utf-8: ");
                out.append(s.as_str());
            },
            Diagnostic::SyntaxError(s) => {
                out.append("unexpected token: ");
                out.append(s.as_str());
            },
        }
        proof {
            assert(out@ =~= self.spec_message());
        }
        out
    }

    /// The message that [`Diagnostic::message`] yields.
    pub open spec fn spec_message(&self) -> Seq<char> {
        match self@ {
            DiagnosticV::UnsupportedShape => "only structs with named fields are supported"@,
            DiagnosticV::UnsupportedArgument(s) => "unsupported argument: "@ + s,
            DiagnosticV::ConflictingOptions(s) => s,
            DiagnosticV::MissingIdentifier => "cannot use rename on an unnamed field"@,
            DiagnosticV::MalformedLiteral(s) => "invalid literal, could not decode as utf-8: "@ + s,
            DiagnosticV::SyntaxError(s) => "unexpected token: "@ + s,
        }
    }
}

} // verus!
