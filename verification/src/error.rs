use vstd::prelude::*;

verus! {

/// The failure taxonomy shared by every fallible operation of the
/// library. The carried `String` is a human-readable breadcrumb trail:
/// the leaf cause's label, prefixed by one context frame per enclosing
/// processing step (which field, seed index or variant was being
/// handled) as the error unwinds. Contracts constrain the variant,
/// never the text.
#[derive(Debug, Clone)]
pub enum ToolboxIdlError {
    /// A malformed input document or path string.
    Parse(String),
    /// An unknown typedef, generic symbol, account, field or variant name.
    Lookup(String),
    /// A path addressed a leaf as if it had children, or vice versa.
    TypeMismatch(String),
    /// Insufficient generic arguments or a wrong field count.
    Arity(String),
    /// No address-resolution rule applied to an account.
    UnresolvableAddress(String),
    /// Insufficient bytes on decode, a discriminator mismatch, or an
    /// out-of-range numeric literal.
    Codec(String),
}

impl ToolboxIdlError {
    /// The context label carried by this error.
    pub fn message(&self) -> (r: String)
        ensures
            match self {
                ToolboxIdlError::Parse(m) => r@ == m@,
                ToolboxIdlError::Lookup(m) => r@ == m@,
                ToolboxIdlError::TypeMismatch(m) => r@ == m@,
                ToolboxIdlError::Arity(m) => r@ == m@,
                ToolboxIdlError::UnresolvableAddress(m) => r@ == m@,
                ToolboxIdlError::Codec(m) => r@ == m@,
            },
    {
        match self {
            ToolboxIdlError::Parse(m) => m.clone(),
            ToolboxIdlError::Lookup(m) => m.clone(),
            ToolboxIdlError::TypeMismatch(m) => m.clone(),
            ToolboxIdlError::Arity(m) => m.clone(),
            ToolboxIdlError::UnresolvableAddress(m) => m.clone(),
            ToolboxIdlError::Codec(m) => m.clone(),
        }
    }
}

impl ToolboxIdlError {
    /// Prepends one context frame to the breadcrumb trail, keeping the
    /// error's class.
    pub fn wrap(self, label: &str) -> (r: ToolboxIdlError)
        ensures
            match self {
                ToolboxIdlError::Parse(_) => r is Parse,
                ToolboxIdlError::Lookup(_) => r is Lookup,
                ToolboxIdlError::TypeMismatch(_) => r is TypeMismatch,
                ToolboxIdlError::Arity(_) => r is Arity,
                ToolboxIdlError::UnresolvableAddress(_) => r is UnresolvableAddress,
                ToolboxIdlError::Codec(_) => r is Codec,
            },
    {
        let message = String::from_str(label).concat(": ").concat(self.message().as_str());
        match self {
            ToolboxIdlError::Parse(_) => ToolboxIdlError::Parse(message),
            ToolboxIdlError::Lookup(_) => ToolboxIdlError::Lookup(message),
            ToolboxIdlError::TypeMismatch(_) => ToolboxIdlError::TypeMismatch(message),
            ToolboxIdlError::Arity(_) => ToolboxIdlError::Arity(message),
            ToolboxIdlError::UnresolvableAddress(_) => ToolboxIdlError::UnresolvableAddress(
                message,
            ),
            ToolboxIdlError::Codec(_) => ToolboxIdlError::Codec(message),
        }
    }
}

} // verus!
