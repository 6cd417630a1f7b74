//! Errors reported by the library.

use vstd::prelude::*;

verus! {

/// A rejected configuration value.
#[derive(Debug, Clone, PartialEq, Eq)]
pub struct ConfigError {
    message: String,
}

/// Result of validating a configuration value.
pub type ConfigResult<T> = Result<T, ConfigError>;

impl View for ConfigError {
    type V = Seq<char>;

    closed spec fn view(&self) -> Seq<char> {
        self.message@
    }
}

impl ConfigError {
    /// Creates an error that carries `message`.
    pub fn new(message: &str) -> (error: Self)
        ensures
            error@ == message@,
    {
        ConfigError { message: message.to_owned() }
    }

    /// The human-readable message.
    pub fn message(&self) -> (message: &str)
        ensures
            message@ == self@,
    {
        self.message.as_str()
    }
}

/// A failed database operation.
#[derive(Debug, Clone, PartialEq, Eq)]
pub enum HelixDbError {
    /// A query could not be executed as written.
    Query(String),
    /// A configuration or persisted value is not acceptable.
    Config(String),
    /// Persisted state contradicts an invariant of the store.
    InvariantViolation(String),
    /// The index catalog contradicts itself.
    IndexCatalogCorruption(String),
    /// The parameters of a vector index or of a vector search are not acceptable.
    InvalidVectorConfig(String),
    /// No active index has the requested identity.
    IndexNotFound(String),
    /// A persisted value could not be decoded.
    Decode(String),
}

/// What a [`HelixDbError`] says, with its text as a sequence of characters.
pub enum HelixDbErrorView {
    Query(Seq<char>),
    Config(Seq<char>),
    InvariantViolation(Seq<char>),
    IndexCatalogCorruption(Seq<char>),
    InvalidVectorConfig(Seq<char>),
    IndexNotFound(Seq<char>),
    Decode(Seq<char>),
}

impl View for HelixDbError {
    type V = HelixDbErrorView;

    open spec fn view(&self) -> HelixDbErrorView {
        match self {
            HelixDbError::Query(text) => HelixDbErrorView::Query(text@),
            HelixDbError::Config(text) => HelixDbErrorView::Config(text@),
            HelixDbError::InvariantViolation(text) => HelixDbErrorView::InvariantViolation(text@),
            HelixDbError::IndexCatalogCorruption(text) =>
                HelixDbErrorView::IndexCatalogCorruption(text@),
            HelixDbError::InvalidVectorConfig(text) => HelixDbErrorView::InvalidVectorConfig(text@),
            HelixDbError::IndexNotFound(text) => HelixDbErrorView::IndexNotFound(text@),
            HelixDbError::Decode(text) => HelixDbErrorView::Decode(text@),
        }
    }
}

impl HelixDbErrorView {
    /// The text that the error carries.
    pub open spec fn text(self) -> Seq<char> {
        match self {
            HelixDbErrorView::Query(text) => text,
            HelixDbErrorView::Config(text) => text,
            HelixDbErrorView::InvariantViolation(text) => text,
            HelixDbErrorView::IndexCatalogCorruption(text) => text,
            HelixDbErrorView::InvalidVectorConfig(text) => text,
            HelixDbErrorView::IndexNotFound(text) => text,
            HelixDbErrorView::Decode(text) => text,
        }
    }
}

impl HelixDbError {
    /// The human-readable message.
    pub fn message(&self) -> (message: &str)
        ensures
            message@ == self@.text(),
    {
        match self {
            HelixDbError::Query(text) => text.as_str(),
            HelixDbError::Config(text) => text.as_str(),
            HelixDbError::InvariantViolation(text) => text.as_str(),
            HelixDbError::IndexCatalogCorruption(text) => text.as_str(),
            HelixDbError::InvalidVectorConfig(text) => text.as_str(),
            HelixDbError::IndexNotFound(text) => text.as_str(),
            HelixDbError::Decode(text) => text.as_str(),
        }
    }
}

/// A [`HelixDbError::Query`] with the given text.
pub fn query_error(text: &str) -> (error: HelixDbError)
    ensures
        error@ == HelixDbErrorView::Query(text@),
{
    HelixDbError::Query(text.to_owned())
}

/// A [`HelixDbError::Config`] with the given text.
pub fn config_error(text: &str) -> (error: HelixDbError)
    ensures
        error@ == HelixDbErrorView::Config(text@),
{
    HelixDbError::Config(text.to_owned())
}

/// A [`HelixDbError::InvariantViolation`] with the given text.
pub fn invariant_violation(text: &str) -> (error: HelixDbError)
    ensures
        error@ == HelixDbErrorView::InvariantViolation(text@),
{
    HelixDbError::InvariantViolation(text.to_owned())
}

/// A [`HelixDbError::IndexCatalogCorruption`] with the given text.
pub fn catalog_corruption(text: &str) -> (error: HelixDbError)
    ensures
        error@ == HelixDbErrorView::IndexCatalogCorruption(text@),
{
    HelixDbError::IndexCatalogCorruption(text.to_owned())
}

/// Every constructor makes an error of its own kind that says the text.
pub proof fn law_errors_say_their_text(
    text: &str,
    query: HelixDbError,
    config: HelixDbError,
    violation: HelixDbError,
    catalog: HelixDbError,
    rejected: ConfigError,
    message: &str,
)
    requires
        call_ensures(query_error, (text,), query),
        call_ensures(config_error, (text,), config),
        call_ensures(invariant_violation, (text,), violation),
        call_ensures(catalog_corruption, (text,), catalog),
        call_ensures(ConfigError::new, (text,), rejected),
        call_ensures(ConfigError::message, (&rejected,), message),
    ensures
        query is Query && query->Query_0@ == text@,
        config is Config && config->Config_0@ == text@,
        violation is InvariantViolation && violation->InvariantViolation_0@ == text@,
        catalog is IndexCatalogCorruption && catalog->IndexCatalogCorruption_0@ == text@,
        message@ == text@,
{
}

/// The message of an error is the text that it carries, whatever its kind.
pub proof fn law_messages_are_the_text(error: HelixDbError, message: &str)
    requires
        call_ensures(HelixDbError::message, (&error,), message),
    ensures
        error is Query ==> message@ == error->Query_0@,
        error is Config ==> message@ == error->Config_0@,
        error is InvariantViolation ==> message@ == error->InvariantViolation_0@,
        error is IndexCatalogCorruption ==> message@ == error->IndexCatalogCorruption_0@,
        error is InvalidVectorConfig ==> message@ == error->InvalidVectorConfig_0@,
        error is IndexNotFound ==> message@ == error->IndexNotFound_0@,
        error is Decode ==> message@ == error->Decode_0@,
{
}

} // verus!
