//! Error handling utilities
//!
//! This module provides custom error types and utilities for error handling.

use crate::text::decimal_string;
use crate::text::spec_decimal;
use crate::text::str_to_string;
use vstd::prelude::*;
use vstd::string::StringExecFns;

verus! {

/// Argument error for invalid function arguments
#[derive(Debug, Clone)]
pub struct ArgumentError {
    pub message: String,
}

/// The rendered message of an [`ArgumentError`].
pub open spec fn spec_argument_message(e: ArgumentError) -> Seq<char> {
    "Argument error: "@ + e.message@
}

impl ArgumentError {
    /// Create a new ArgumentError
    pub fn new(message: &str) -> (r: Self)
        ensures
            r.message@ == message@,
    {
        ArgumentError { message: str_to_string(message) }
    }

    /// The rendered message, as the error displays itself.
    pub fn to_string(&self) -> (r: String)
        ensures
            r@ == spec_argument_message(*self),
    {
        let mut r = str_to_string("Argument error: ");
        r.append(self.message.as_str());
        r
    }
}

/// Validation error for data validation failures
#[derive(Debug, Clone)]
pub struct ValidationError {
    pub field: String,
    pub message: String,
    pub value: Option<String>,
}

/// The rendered message of a [`ValidationError`].
pub open spec fn spec_validation_message(e: ValidationError) -> Seq<char> {
    "Validation error for field '"@ + e.field@ + "': "@ + e.message@ + (match e.value {
        Some(v) => " (value: '"@ + v@ + "')"@,
        None => Seq::<char>::empty(),
    })
}

impl ValidationError {
    /// Create a new ValidationError
    pub fn new(field: &str, message: &str) -> (r: Self)
        ensures
            r.field@ == field@,
            r.message@ == message@,
            r.value is None,
    {
        ValidationError { field: str_to_string(field), message: str_to_string(message), value: None }
    }

    /// Create a new ValidationError with the invalid value
    pub fn with_value(field: &str, message: &str, value: &str) -> (r: Self)
        ensures
            r.field@ == field@,
            r.message@ == message@,
            r.value matches Some(v) && v@ == value@,
    {
        ValidationError {
            field: str_to_string(field),
            message: str_to_string(message),
            value: Some(str_to_string(value)),
        }
    }

    /// Get the field name
    pub fn field(&self) -> (r: &str)
        ensures
            r@ == self.field@,
    {
        self.field.as_str()
    }

    /// Get the error message
    pub fn message(&self) -> (r: &str)
        ensures
            r@ == self.message@,
    {
        self.message.as_str()
    }

    /// Get the invalid value if available
    pub fn value(&self) -> (r: Option<&str>)
        ensures
            match r {
                Some(v) => self.value matches Some(w) && v@ == w@,
                None => self.value is None,
            },
    {
        match &self.value {
            Some(v) => Some(v.as_str()),
            None => None,
        }
    }

    /// The rendered message, as the error displays itself.
    pub fn to_string(&self) -> (r: String)
        ensures
            r@ == spec_validation_message(*self),
    {
        let mut r = str_to_string("Validation error for field '");
        r.append(self.field.as_str());
        r.append("': ");
        r.append(self.message.as_str());
        match &self.value {
            Some(v) => {
                r.append(" (value: '");
                r.append(v.as_str());
                r.append("')");
            },
            None => {},
        }
        r
    }
}

/// Configuration error for configuration-related issues
#[derive(Debug, Clone)]
pub struct ConfigError {
    pub key: String,
    pub message: String,
}

/// The rendered message of a [`ConfigError`].
pub open spec fn spec_config_message(e: ConfigError) -> Seq<char> {
    "Configuration error for key '"@ + e.key@ + "': "@ + e.message@
}

impl ConfigError {
    /// Create a new ConfigError
    pub fn new(key: &str, message: &str) -> (r: Self)
        ensures
            r.key@ == key@,
            r.message@ == message@,
    {
        ConfigError { key: str_to_string(key), message: str_to_string(message) }
    }

    /// Get the configuration key
    pub fn key(&self) -> (r: &str)
        ensures
            r@ == self.key@,
    {
        self.key.as_str()
    }

    /// Get the error message
    pub fn message(&self) -> (r: &str)
        ensures
            r@ == self.message@,
    {
        self.message.as_str()
    }

    /// The rendered message, as the error displays itself.
    pub fn to_string(&self) -> (r: String)
        ensures
            r@ == spec_config_message(*self),
    {
        let mut r = str_to_string("Configuration error for key '");
        r.append(self.key.as_str());
        r.append("': ");
        r.append(self.message.as_str());
        r
    }
}

/// Network error for network-related operations
#[derive(Debug, Clone)]
pub struct NetworkError {
    pub operation: String,
    pub message: String,
    pub status_code: Option<u16>,
}

/// The rendered message of a [`NetworkError`].
pub open spec fn spec_network_message(e: NetworkError) -> Seq<char> {
    "Network error in '"@ + e.operation@ + "'"@ + (match e.status_code {
        Some(s) => " (status: "@ + spec_decimal(s as nat) + ")"@,
        None => Seq::<char>::empty(),
    }) + ": "@ + e.message@
}

impl NetworkError {
    /// Create a new NetworkError
    pub fn new(operation: &str, message: &str) -> (r: Self)
        ensures
            r.operation@ == operation@,
            r.message@ == message@,
            r.status_code is None,
    {
        NetworkError {
            operation: str_to_string(operation),
            message: str_to_string(message),
            status_code: None,
        }
    }

    /// Create a new NetworkError with status code
    pub fn with_status(operation: &str, message: &str, status_code: u16) -> (r: Self)
        ensures
            r.operation@ == operation@,
            r.message@ == message@,
            r.status_code == Some(status_code),
    {
        NetworkError {
            operation: str_to_string(operation),
            message: str_to_string(message),
            status_code: Some(status_code),
        }
    }

    /// Get the operation name
    pub fn operation(&self) -> (r: &str)
        ensures
            r@ == self.operation@,
    {
        self.operation.as_str()
    }

    /// Get the error message
    pub fn message(&self) -> (r: &str)
        ensures
            r@ == self.message@,
    {
        self.message.as_str()
    }

    /// Get the status code if available
    pub fn status_code(&self) -> (r: Option<u16>)
        ensures
            r == self.status_code,
    {
        self.status_code
    }

    /// The rendered message, as the error displays itself.
    pub fn to_string(&self) -> (r: String)
        ensures
            r@ == spec_network_message(*self),
    {
        let mut r = str_to_string("Network error in '");
        r.append(self.operation.as_str());
        r.append("'");
        match self.status_code {
            Some(s) => {
                r.append(" (status: ");
                let d = decimal_string(s as u64);
                r.append(d.as_str());
                r.append(")");
            },
            None => {},
        }
        r.append(": ");
        r.append(self.message.as_str());
        r
    }
}

/// Parse error for parsing operations
#[derive(Debug, Clone)]
pub struct ParseError {
    pub input: String,
    pub expected: String,
    pub position: Option<usize>,
}

/// The rendered message of a [`ParseError`].
pub open spec fn spec_parse_message(e: ParseError) -> Seq<char> {
    "Parse error"@ + (match e.position {
        Some(p) => " at position "@ + spec_decimal(p as nat),
        None => Seq::<char>::empty(),
    }) + ": expected '"@ + e.expected@ + "', got '"@ + e.input@ + "'"@
}

impl ParseError {
    /// Create a new ParseError
    pub fn new(input: &str, expected: &str) -> (r: Self)
        ensures
            r.input@ == input@,
            r.expected@ == expected@,
            r.position is None,
    {
        ParseError { input: str_to_string(input), expected: str_to_string(expected), position: None }
    }

    /// Create a new ParseError with position
    pub fn with_position(input: &str, expected: &str, position: usize) -> (r: Self)
        ensures
            r.input@ == input@,
            r.expected@ == expected@,
            r.position == Some(position),
    {
        ParseError {
            input: str_to_string(input),
            expected: str_to_string(expected),
            position: Some(position),
        }
    }

    /// Get the input that failed to parse
    pub fn input(&self) -> (r: &str)
        ensures
            r@ == self.input@,
    {
        self.input.as_str()
    }

    /// Get what was expected
    pub fn expected(&self) -> (r: &str)
        ensures
            r@ == self.expected@,
    {
        self.expected.as_str()
    }

    /// Get the position where parsing failed
    pub fn position(&self) -> (r: Option<usize>)
        ensures
            r == self.position,
    {
        self.position
    }

    /// The rendered message, as the error displays itself.
    pub fn to_string(&self) -> (r: String)
        ensures
            r@ == spec_parse_message(*self),
    {
        let mut r = str_to_string("Parse error");
        match self.position {
            Some(p) => {
                r.append(" at position ");
                let d = decimal_string(p as u64);
                r.append(d.as_str());
            },
            None => {},
        }
        r.append(": expected '");
        r.append(self.expected.as_str());
        r.append("', got '");
        r.append(self.input.as_str());
        r.append("'");
        r
    }
}

/// Generic utility error that can wrap other errors
#[derive(Debug, Clone)]
pub enum UtilsError {
    Argument(ArgumentError),
    Validation(ValidationError),
    Config(ConfigError),
    Network(NetworkError),
    Parse(ParseError),
    /// An input/output failure, kept as its rendered message.
    Io(String),
    /// Any other failure, kept as its rendered message.
    Other(String),
}

impl From<ArgumentError> for UtilsError {
    fn from(e: ArgumentError) -> (r: UtilsError) {
        UtilsError::Argument(e)
    }
}

impl vstd::std_specs::convert::FromSpecImpl<ArgumentError> for UtilsError {
    open spec fn obeys_from_spec() -> bool {
        true
    }

    open spec fn from_spec(e: ArgumentError) -> UtilsError {
        UtilsError::Argument(e)
    }
}

impl From<ValidationError> for UtilsError {
    fn from(e: ValidationError) -> (r: UtilsError) {
        UtilsError::Validation(e)
    }
}

impl vstd::std_specs::convert::FromSpecImpl<ValidationError> for UtilsError {
    open spec fn obeys_from_spec() -> bool {
        true
    }

    open spec fn from_spec(e: ValidationError) -> UtilsError {
        UtilsError::Validation(e)
    }
}

impl From<ConfigError> for UtilsError {
    fn from(e: ConfigError) -> (r: UtilsError) {
        UtilsError::Config(e)
    }
}

impl vstd::std_specs::convert::FromSpecImpl<ConfigError> for UtilsError {
    open spec fn obeys_from_spec() -> bool {
        true
    }

    open spec fn from_spec(e: ConfigError) -> UtilsError {
        UtilsError::Config(e)
    }
}

impl From<NetworkError> for UtilsError {
    fn from(e: NetworkError) -> (r: UtilsError) {
        UtilsError::Network(e)
    }
}

impl vstd::std_specs::convert::FromSpecImpl<NetworkError> for UtilsError {
    open spec fn obeys_from_spec() -> bool {
        true
    }

    open spec fn from_spec(e: NetworkError) -> UtilsError {
        UtilsError::Network(e)
    }
}

impl From<ParseError> for UtilsError {
    fn from(e: ParseError) -> (r: UtilsError) {
        UtilsError::Parse(e)
    }
}

impl vstd::std_specs::convert::FromSpecImpl<ParseError> for UtilsError {
    open spec fn obeys_from_spec() -> bool {
        true
    }

    open spec fn from_spec(e: ParseError) -> UtilsError {
        UtilsError::Parse(e)
    }
}

/// Result type alias for utils operations
pub type UtilsResult<T> = Result<T, UtilsError>;

/// Create an argument error
pub fn argument_error(message: &str) -> (r: ArgumentError)
    ensures
        r.message@ == message@,
{
    ArgumentError::new(message)
}

/// Create a validation error
pub fn validation_error(field: &str, message: &str) -> (r: ValidationError)
    ensures
        r.field@ == field@,
        r.message@ == message@,
        r.value is None,
{
    ValidationError::new(field, message)
}

/// Create a config error
pub fn config_error(key: &str, message: &str) -> (r: ConfigError)
    ensures
        r.key@ == key@,
        r.message@ == message@,
{
    ConfigError::new(key, message)
}

/// Create a network error
pub fn network_error(operation: &str, message: &str) -> (r: NetworkError)
    ensures
        r.operation@ == operation@,
        r.message@ == message@,
        r.status_code is None,
{
    NetworkError::new(operation, message)
}

/// Create a parse error
pub fn parse_error(input: &str, expected: &str) -> (r: ParseError)
    ensures
        r.input@ == input@,
        r.expected@ == expected@,
        r.position is None,
{
    ParseError::new(input, expected)
}

} // verus!
