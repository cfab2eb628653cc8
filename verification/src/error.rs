//! The errors that the gateway hands to its callers.

use vstd::prelude::*;
use vstd::string::StringExecFns;

verus! {

/// What can go wrong while the process is set up. Each variant carries the
/// text of its cause.
#[derive(Debug, Clone, PartialEq, Eq)]
pub enum ConfigError {
    Config(String),
    DatabaseMigration(String),
    IO(String),
    Sql(String),
    HTTPClient(String),
    Regex(String),
    /// An entry of the nation list that is not of the form `name:password`.
    Nations(String),
}

/// What can go wrong while a job is accepted, scheduled or sent. Where a
/// variant carries a text, it is the text of its cause.
#[derive(Debug, Clone, PartialEq, Eq)]
pub enum Error {
    HTTPClient(String),
    URLEncode(String),
    HeaderDecode(String),
    Deserialize(String),
    InvalidFactbookCategory,
    ParseInt(String),
    Sql(String),
    /// The remote host answered with this error message.
    NationStates(String),
    DispatchNotFound,
    Jwt(String),
    NoCredentials,
    ExpiredJWT,
    Unauthorized,
    UserAlreadyExists,
    Bcrypt(String),
    Serialize(String),
    InvalidNation,
    Internal,
    JobNotFound,
    Header(String),
    InvalidUsername,
    InvalidHeaderName(String),
}

impl Error {
    /// The HTTP status under which the error is reported to a client.
    pub open spec fn status(self) -> u16 {
        match self {
            Error::InvalidFactbookCategory | Error::InvalidNation | Error::InvalidUsername => 400,
            Error::NoCredentials | Error::ExpiredJWT | Error::Unauthorized => 401,
            Error::DispatchNotFound | Error::JobNotFound => 404,
            Error::UserAlreadyExists => 409,
            _ => 500,
        }
    }

    /// The message under which the error is reported to a client; it never
    /// holds the cause.
    pub open spec fn reason(self) -> Seq<char> {
        match self {
            Error::HTTPClient(_) => "Reqwest error"@,
            Error::URLEncode(_) => "URL encoding error"@,
            Error::HeaderDecode(_) => "Header decode error"@,
            Error::Deserialize(_) => "Deserialization error"@,
            Error::InvalidFactbookCategory => "Invalid factbook category"@,
            Error::ParseInt(_) => "Parse int error"@,
            Error::Sql(_) => "SQL error"@,
            Error::NationStates(_) => "NationStates error"@,
            Error::DispatchNotFound => "Dispatch not found"@,
            Error::Jwt(_) => "JWT error"@,
            Error::NoCredentials => "No credentials provided"@,
            Error::ExpiredJWT => "Expired JWT"@,
            Error::Unauthorized => "Unauthorized"@,
            Error::UserAlreadyExists => "User already exists"@,
            Error::Bcrypt(_) => "Bcrypt error"@,
            Error::Serialize(_) => "Serialization error"@,
            Error::InvalidNation => "Invalid nation"@,
            Error::Internal => "Internal server error"@,
            Error::JobNotFound => "Job not found"@,
            Error::Header(_) => "Invalid header value"@,
            Error::InvalidUsername => "Invalid username"@,
            Error::InvalidHeaderName(_) => "Invalid header name"@,
        }
    }

    /// The error written out in full, as it is recorded with a failed job.
    pub open spec fn text(self) -> Seq<char> {
        match self {
            Error::HTTPClient(cause) => "Reqwest error: "@ + cause@,
            Error::URLEncode(cause) => "URL encoding error: "@ + cause@,
            Error::HeaderDecode(cause) => "Header decode error: "@ + cause@,
            Error::Deserialize(cause) => "Deserialization error: "@ + cause@,
            Error::InvalidFactbookCategory => "Invalid factbook category"@,
            Error::ParseInt(cause) => "Parse int error: "@ + cause@,
            Error::Sql(cause) => "SQL error: "@ + cause@,
            Error::NationStates(cause) => "NS error: "@ + cause@,
            Error::DispatchNotFound => "Dispatch not found"@,
            Error::Jwt(cause) => "JWT error: "@ + cause@,
            Error::NoCredentials => "No credentials provided"@,
            Error::ExpiredJWT => "Expired JWT"@,
            Error::Unauthorized => "Unauthorized"@,
            Error::UserAlreadyExists => "User already exists"@,
            Error::Bcrypt(cause) => "Bcrypt error: "@ + cause@,
            Error::Serialize(cause) => "Serialization error: "@ + cause@,
            Error::InvalidNation => "Invalid nation"@,
            Error::Internal => "Internal server error"@,
            Error::JobNotFound => "Job not found"@,
            Error::Header(cause) => "Invalid header value: "@ + cause@,
            Error::InvalidUsername => "Invalid username"@,
            Error::InvalidHeaderName(cause) => "Invalid header name: "@ + cause@,
        }
    }

    /// Status and message for the client.
    pub fn into_response(&self) -> (r: (u16, String))
        ensures
            r.0 == self.status(),
            r.1@ == self.reason(),
    {
        match self {
            Error::HTTPClient(_) => (500, "Reqwest error".to_owned()),
            Error::URLEncode(_) => (500, "URL encoding error".to_owned()),
            Error::HeaderDecode(_) => (500, "Header decode error".to_owned()),
            Error::Deserialize(_) => (500, "Deserialization error".to_owned()),
            Error::InvalidFactbookCategory => (400, "Invalid factbook category".to_owned()),
            Error::ParseInt(_) => (500, "Parse int error".to_owned()),
            Error::Sql(_) => (500, "SQL error".to_owned()),
            Error::NationStates(_) => (500, "NationStates error".to_owned()),
            Error::DispatchNotFound => (404, "Dispatch not found".to_owned()),
            Error::Jwt(_) => (500, "JWT error".to_owned()),
            Error::NoCredentials => (401, "No credentials provided".to_owned()),
            Error::ExpiredJWT => (401, "Expired JWT".to_owned()),
            Error::Unauthorized => (401, "Unauthorized".to_owned()),
            Error::UserAlreadyExists => (409, "User already exists".to_owned()),
            Error::Bcrypt(_) => (500, "Bcrypt error".to_owned()),
            Error::Serialize(_) => (500, "Serialization error".to_owned()),
            Error::InvalidNation => (400, "Invalid nation".to_owned()),
            Error::Internal => (500, "Internal server error".to_owned()),
            Error::JobNotFound => (404, "Job not found".to_owned()),
            Error::Header(_) => (500, "Invalid header value".to_owned()),
            Error::InvalidUsername => (400, "Invalid username".to_owned()),
            Error::InvalidHeaderName(_) => (500, "Invalid header name".to_owned()),
        }
    }

    /// The error written out in full.
    pub fn message(&self) -> (out: String)
        ensures
            out@ == self.text(),
    {
        match self {
            Error::HTTPClient(cause) => "Reqwest error: ".to_owned().concat(cause.as_str()),
            Error::URLEncode(cause) => "URL encoding error: ".to_owned().concat(cause.as_str()),
            Error::HeaderDecode(cause) => "Header decode error: ".to_owned().concat(
                cause.as_str(),
            ),
            Error::Deserialize(cause) => "Deserialization error: ".to_owned().concat(
                cause.as_str(),
            ),
            Error::InvalidFactbookCategory => "Invalid factbook category".to_owned(),
            Error::ParseInt(cause) => "Parse int error: ".to_owned().concat(cause.as_str()),
            Error::Sql(cause) => "SQL error: ".to_owned().concat(cause.as_str()),
            Error::NationStates(cause) => "NS error: ".to_owned().concat(cause.as_str()),
            Error::DispatchNotFound => "Dispatch not found".to_owned(),
            Error::Jwt(cause) => "JWT error: ".to_owned().concat(cause.as_str()),
            Error::NoCredentials => "No credentials provided".to_owned(),
            Error::ExpiredJWT => "Expired JWT".to_owned(),
            Error::Unauthorized => "Unauthorized".to_owned(),
            Error::UserAlreadyExists => "User already exists".to_owned(),
            Error::Bcrypt(cause) => "Bcrypt error: ".to_owned().concat(cause.as_str()),
            Error::Serialize(cause) => "Serialization error: ".to_owned().concat(cause.as_str()),
            Error::InvalidNation => "Invalid nation".to_owned(),
            Error::Internal => "Internal server error".to_owned(),
            Error::JobNotFound => "Job not found".to_owned(),
            Error::Header(cause) => "Invalid header value: ".to_owned().concat(cause.as_str()),
            Error::InvalidUsername => "Invalid username".to_owned(),
            Error::InvalidHeaderName(cause) => "Invalid header name: ".to_owned().concat(
                cause.as_str(),
            ),
        }
    }
}

} // verus!
