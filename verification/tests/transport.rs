use influxc::auth::signin_reply_shape;
use influxc::auth::CookieHeader;
use influxc::error::ApiDelayError;
use influxc::error::ApiGenericError;
use influxc::error::ApiMalformationError;
use influxc::error::ApiOversizeError;
use influxc::transport::write_reply_shape;
use influxc::transport::write_result;
use influxc::transport::ReplyBody;
use influxc::transport::ReplyShape;
use influxc::Credentials;
use influxc::InfluxError;
use influxc::Precision;
use influxc::Record;
use influxc::Value;
use std::io::Read;

fn generic() -> ApiGenericError {
    ApiGenericError { code: "c".to_string(), message: "m".to_string() }
}

fn malformation() -> ApiMalformationError {
    ApiMalformationError {
        code: "c".to_string(),
        err: "e".to_string(),
        line: Some(1),
        message: "m".to_string(),
        op: "o".to_string(),
    }
}

fn oversize() -> ApiOversizeError {
    ApiOversizeError { code: "c".to_string(), maxlen: 10, message: "m".to_string() }
}

fn mismatch() -> Result<(), InfluxError> {
    Err(InfluxError::Error("reply body does not fit its status".to_string()))
}

#[test]
fn write_request_carries_the_compressed_line_buffer() {
    let mut rec = Record::new("my org", "my bucket").precision(Precision::Microseconds);
    rec.measurement("cpu").field("load", Value::Integer(1));
    rec.measurement("mem").field("free", Value::Integer(2));
    let request = rec.to_write_request().unwrap();
    assert_eq!(request.path, "/api/v2/write");
    assert_eq!(request.content_encoding, "gzip");
    assert_eq!(request.org, "my org");
    assert_eq!(request.bucket, "my bucket");
    assert_eq!(request.precision, "us");
    assert_eq!(&request.body[..2], &[0x1f, 0x8b]);
    assert_ne!(request.body, rec.to_line_buffer().into_bytes());
    let mut text = String::new();
    flate2::read::GzDecoder::new(&request.body[..]).read_to_string(&mut text).unwrap();
    assert_eq!(text, "cpu load=1\nmem free=2");
}

#[test]
fn write_request_with_a_given_body() {
    let rec = Record::new("o", "b");
    let request = rec.write_request_with(vec![1, 2, 3]);
    assert_eq!(request.body, vec![1, 2, 3]);
    assert_eq!(request.precision, "ns");
    assert_eq!(request.org, "o");
    assert_eq!(request.bucket, "b");
    assert_eq!(request.path, "/api/v2/write");
    assert_eq!(request.content_encoding, "gzip");
}

#[test]
fn compression_is_repeatable() {
    let mut rec = Record::new("o", "b");
    rec.measurement("cpu").field("load", Value::Integer(1));
    assert_eq!(rec.to_write_request().unwrap().body, rec.to_write_request().unwrap().body);
}

#[test]
fn reply_shape_by_status() {
    assert_eq!(write_reply_shape(204), ReplyShape::Empty);
    assert_eq!(write_reply_shape(400), ReplyShape::Malformation);
    assert_eq!(write_reply_shape(401), ReplyShape::Generic);
    assert_eq!(write_reply_shape(403), ReplyShape::Generic);
    assert_eq!(write_reply_shape(413), ReplyShape::Oversize);
    assert_eq!(write_reply_shape(429), ReplyShape::Delay);
    assert_eq!(write_reply_shape(503), ReplyShape::Delay);
    assert_eq!(write_reply_shape(500), ReplyShape::Generic);
    assert_eq!(write_reply_shape(200), ReplyShape::Generic);
    assert_eq!(signin_reply_shape(204), ReplyShape::Empty);
    assert_eq!(signin_reply_shape(401), ReplyShape::Generic);
}

#[test]
fn write_result_by_status() {
    assert_eq!(write_result(204, ReplyBody::Empty), Ok(()));
    assert_eq!(write_result(204, ReplyBody::Generic(generic())), Ok(()));
    assert_eq!(
        write_result(400, ReplyBody::Malformation(malformation())),
        Err(InfluxError::WriteMalformed(malformation()))
    );
    assert_eq!(write_result(401, ReplyBody::Generic(generic())), Err(InfluxError::WriteUnauthorized(generic())));
    assert_eq!(
        write_result(403, ReplyBody::Generic(generic())),
        Err(InfluxError::WriteUnauthenticated(generic()))
    );
    assert_eq!(write_result(413, ReplyBody::Oversize(oversize())), Err(InfluxError::WriteOversized(oversize())));
    assert_eq!(
        write_result(429, ReplyBody::Delay(ApiDelayError { delay: 3 })),
        Err(InfluxError::WriteOverquota(ApiDelayError { delay: 3 }))
    );
    assert_eq!(
        write_result(503, ReplyBody::Delay(ApiDelayError { delay: 4 })),
        Err(InfluxError::WriteUnready(ApiDelayError { delay: 4 }))
    );
    assert_eq!(write_result(500, ReplyBody::Generic(generic())), Err(InfluxError::WriteUnknown(generic())));
    assert_eq!(write_result(200, ReplyBody::Generic(generic())), Err(InfluxError::WriteUnknown(generic())));
}

#[test]
fn write_result_with_a_body_of_the_wrong_kind() {
    assert_eq!(write_result(400, ReplyBody::Generic(generic())), mismatch());
    assert_eq!(write_result(401, ReplyBody::Empty), mismatch());
    assert_eq!(write_result(413, ReplyBody::Delay(ApiDelayError { delay: 1 })), mismatch());
    assert_eq!(write_result(429, ReplyBody::Generic(generic())), mismatch());
    assert_eq!(write_result(503, ReplyBody::Oversize(oversize())), mismatch());
    assert_eq!(write_result(500, ReplyBody::Malformation(malformation())), mismatch());
}

#[test]
fn basic_credentials_sign_in_with_base64() {
    let creds = Credentials::from_basic("testuser", "testpasswd");
    assert_eq!(creds.signin_header(), Ok(Some("Basic dGVzdHVzZXI6dGVzdHBhc3N3ZA==".to_string())));
    let creds = Credentials::from_basic("a", "b:c");
    assert_eq!(creds.signin_header(), Ok(Some(format!("Basic {}", base64::encode("a:b:c")))));
    assert_eq!(creds.signin_header_with("xyz".to_string()), Some("Basic xyz".to_string()));
}

#[test]
fn other_credentials_need_no_sign_in() {
    assert_eq!(Credentials::from_token("t").signin_header(), Ok(None));
    let signed = Credentials::Basic {
        user: "u".to_string(),
        passwd: "p".to_string(),
        cookie: Some("session".to_string()),
    };
    assert_eq!(signed.signin_header(), Ok(None));
    assert_eq!(signed.signin_header_with("x".to_string()), None);
}

#[test]
fn sign_in_keeps_the_session_cookie() {
    let creds = Credentials::from_basic("u", "p");
    let signed = creds.signed_in(204, CookieHeader::Text("session=abc".to_string()), ReplyBody::Empty);
    assert_eq!(
        signed,
        Ok(Credentials::Basic {
            user: "u".to_string(),
            passwd: "p".to_string(),
            cookie: Some("session=abc".to_string())
        })
    );
}

#[test]
fn sign_in_without_a_cookie_fails() {
    assert_eq!(
        Credentials::from_basic("u", "p").signed_in(204, CookieHeader::Missing, ReplyBody::Empty),
        Err(InfluxError::Error("Missing session cookie after successfull basic auth".to_string()))
    );
    assert_eq!(
        Credentials::from_basic("u", "p").signed_in(
            204,
            CookieHeader::Unreadable("\"\\xff\"".to_string()),
            ReplyBody::Empty
        ),
        Err(InfluxError::Error("Failed to extract session cookie string: \"\\xff\"".to_string()))
    );
}

#[test]
fn refused_sign_in_by_status() {
    let basic = || Credentials::from_basic("u", "p");
    assert_eq!(
        basic().signed_in(401, CookieHeader::Missing, ReplyBody::Generic(generic())),
        Err(InfluxError::AuthUnauthorized(generic()))
    );
    assert_eq!(
        basic().signed_in(403, CookieHeader::Missing, ReplyBody::Generic(generic())),
        Err(InfluxError::AuthAccountDisabled(generic()))
    );
    assert_eq!(
        basic().signed_in(500, CookieHeader::Text("x".to_string()), ReplyBody::Generic(generic())),
        Err(InfluxError::AuthUnknown(generic()))
    );
    assert_eq!(
        basic().signed_in(500, CookieHeader::Missing, ReplyBody::Empty),
        Err(InfluxError::Error("reply body does not fit its status".to_string()))
    );
}

#[test]
fn sign_in_leaves_other_credentials_alone() {
    assert_eq!(
        Credentials::from_token("t").signed_in(401, CookieHeader::Missing, ReplyBody::Empty),
        Ok(Credentials::from_token("t"))
    );
}

#[test]
fn header_carries_session_or_token() {
    assert_eq!(
        Credentials::from_token("secret").header(),
        Ok(("Authorization".to_string(), "Token secret".to_string()))
    );
    let signed = Credentials::Basic {
        user: "u".to_string(),
        passwd: "p".to_string(),
        cookie: Some("session=abc".to_string()),
    };
    assert_eq!(signed.header(), Ok(("Cookie".to_string(), "session=abc".to_string())));
    assert_eq!(
        Credentials::from_basic("u", "p").header(),
        Err(InfluxError::Error(
            "Missing session cookie from basic auth. This should not have happened!".to_string()
        ))
    );
}

#[test]
fn plain_credentials_pair() {
    let c = influxc::credentials::Credentials::new("u".to_string(), "p".to_string());
    assert_eq!(c.user, "u");
    assert_eq!(c.passwd, "p");
}

#[test]
fn sign_in_goes_to_its_endpoint() {
    assert_eq!(Credentials::from_basic("u", "p").signin_endpoint(), "/api/v2/signin");
}

#[test]
fn write_request_from_the_outcome_of_compression() {
    let rec = Record::new("o", "b");
    assert_eq!(rec.write_request_from(Ok(vec![9])).unwrap().body, vec![9]);
    assert_eq!(
        rec.write_request_from(Err(InfluxError::Io("no room".to_string()))),
        Err(InfluxError::Io("no room".to_string()))
    );
}
