use eurocore::error::Error;

#[test]
fn input_errors_are_bad_requests() {
    assert_eq!(Error::InvalidFactbookCategory.into_response(), (400, "Invalid factbook category".to_string()));
    assert_eq!(Error::InvalidNation.into_response(), (400, "Invalid nation".to_string()));
    assert_eq!(Error::InvalidUsername.into_response(), (400, "Invalid username".to_string()));
}

#[test]
fn credential_errors_are_unauthorized() {
    assert_eq!(Error::NoCredentials.into_response(), (401, "No credentials provided".to_string()));
    assert_eq!(Error::ExpiredJWT.into_response(), (401, "Expired JWT".to_string()));
    assert_eq!(Error::Unauthorized.into_response(), (401, "Unauthorized".to_string()));
    assert_eq!(Error::UserAlreadyExists.into_response(), (409, "User already exists".to_string()));
}

#[test]
fn missing_things_are_not_found() {
    assert_eq!(Error::DispatchNotFound.into_response(), (404, "Dispatch not found".to_string()));
    assert_eq!(Error::JobNotFound.into_response(), (404, "Job not found".to_string()));
}

#[test]
fn everything_else_is_internal_and_hides_its_cause() {
    let cause = "secret".to_string();
    assert_eq!(Error::HTTPClient(cause.clone()).into_response(), (500, "Reqwest error".to_string()));
    assert_eq!(Error::URLEncode(cause.clone()).into_response(), (500, "URL encoding error".to_string()));
    assert_eq!(Error::HeaderDecode(cause.clone()).into_response(), (500, "Header decode error".to_string()));
    assert_eq!(Error::Deserialize(cause.clone()).into_response(), (500, "Deserialization error".to_string()));
    assert_eq!(Error::ParseInt(cause.clone()).into_response(), (500, "Parse int error".to_string()));
    assert_eq!(Error::Sql(cause.clone()).into_response(), (500, "SQL error".to_string()));
    assert_eq!(Error::NationStates(cause.clone()).into_response(), (500, "NationStates error".to_string()));
    assert_eq!(Error::Jwt(cause.clone()).into_response(), (500, "JWT error".to_string()));
    assert_eq!(Error::Bcrypt(cause.clone()).into_response(), (500, "Bcrypt error".to_string()));
    assert_eq!(Error::Serialize(cause.clone()).into_response(), (500, "Serialization error".to_string()));
    assert_eq!(Error::Internal.into_response(), (500, "Internal server error".to_string()));
    assert_eq!(Error::Header(cause.clone()).into_response(), (500, "Invalid header value".to_string()));
    assert_eq!(Error::InvalidHeaderName(cause).into_response(), (500, "Invalid header name".to_string()));
}

#[test]
fn message_writes_the_cause_out() {
    assert_eq!(Error::NationStates("Bad category".to_string()).message(), "NS error: Bad category");
    assert_eq!(Error::HTTPClient("timeout".to_string()).message(), "Reqwest error: timeout");
    assert_eq!(Error::URLEncode("x".to_string()).message(), "URL encoding error: x");
    assert_eq!(Error::HeaderDecode("x".to_string()).message(), "Header decode error: x");
    assert_eq!(Error::Deserialize("x".to_string()).message(), "Deserialization error: x");
    assert_eq!(Error::ParseInt("x".to_string()).message(), "Parse int error: x");
    assert_eq!(Error::Sql("x".to_string()).message(), "SQL error: x");
    assert_eq!(Error::Jwt("x".to_string()).message(), "JWT error: x");
    assert_eq!(Error::Bcrypt("x".to_string()).message(), "Bcrypt error: x");
    assert_eq!(Error::Serialize("x".to_string()).message(), "Serialization error: x");
    assert_eq!(Error::Header("x".to_string()).message(), "Invalid header value: x");
    assert_eq!(Error::InvalidHeaderName("x".to_string()).message(), "Invalid header name: x");
    assert_eq!(Error::InvalidFactbookCategory.message(), "Invalid factbook category");
    assert_eq!(Error::InvalidNation.message(), "Invalid nation");
    assert_eq!(Error::Internal.message(), "Internal server error");
    assert_eq!(Error::JobNotFound.message(), "Job not found");
    assert_eq!(Error::DispatchNotFound.message(), "Dispatch not found");
    assert_eq!(Error::NoCredentials.message(), "No credentials provided");
    assert_eq!(Error::ExpiredJWT.message(), "Expired JWT");
    assert_eq!(Error::Unauthorized.message(), "Unauthorized");
    assert_eq!(Error::UserAlreadyExists.message(), "User already exists");
    assert_eq!(Error::InvalidUsername.message(), "Invalid username");
}
