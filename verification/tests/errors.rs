use influxc::error::ApiDelayError;
use influxc::error::ApiGenericError;
use influxc::error::ApiMalformationError;
use influxc::error::ApiOversizeError;
use influxc::error::Cause;
use influxc::InfluxError;
use influxc::InfluxErrorAnnotate;
use influxc::InfluxResult;

fn generic() -> ApiGenericError {
    ApiGenericError { code: "forbidden".to_string(), message: "no".to_string() }
}

#[test]
fn api_errors_render_their_fields() {
    assert_eq!(generic().to_string(), "code=forbidden, message=no");
    assert_eq!(ApiDelayError { delay: 30 }.to_string(), "delay=30s");
    assert_eq!(ApiDelayError { delay: -1 }.to_string(), "delay=-1s");
    let m = ApiMalformationError {
        code: "invalid".to_string(),
        err: "bad line".to_string(),
        line: Some(3),
        message: "cannot parse".to_string(),
        op: "write".to_string(),
    };
    assert_eq!(m.to_string(), "code=invalid, err=bad line, line=3, message=cannot parse, op=write");
    let n = ApiMalformationError { line: None, ..m };
    assert_eq!(n.to_string(), "code=invalid, err=bad line, line=n/a, message=cannot parse, op=write");
    let o = ApiOversizeError { code: "too large".to_string(), maxlen: 1024, message: "shrink".to_string() };
    assert_eq!(o.to_string(), "code=too large, maxlen=1024, message=shrink");
}

#[test]
fn errors_render_by_variant() {
    assert_eq!(InfluxError::Error("plain".to_string()).to_string(), "plain");
    let annotated = InfluxError::Annotated("outer".to_string(), Box::new(InfluxError::Io("inner".to_string())));
    assert_eq!(annotated.to_string(), "outer");
    assert_eq!(InfluxError::Encoding("x".to_string()).to_string(), "Encoding Error: x");
    assert_eq!(InfluxError::Io("x".to_string()).to_string(), "Io Error: x");
    assert_eq!(InfluxError::ParseBool("x".to_string()).to_string(), "Parse Bool Error: x");
    assert_eq!(InfluxError::Json("x".to_string()).to_string(), "Json Error: x");
    assert_eq!(InfluxError::Reqwest("x".to_string()).to_string(), "Reqwest Error: x");
    assert_eq!(
        InfluxError::AuthUnauthorized(generic()).to_string(),
        "AuthUnauthorized(code=forbidden, message=no)"
    );
    assert_eq!(
        InfluxError::AuthAccountDisabled(generic()).to_string(),
        "AuthAccountDisabled(code=forbidden, message=no)"
    );
    assert_eq!(InfluxError::AuthUnknown(generic()).to_string(), "AuthUnknown(code=forbidden, message=no)");
    assert_eq!(
        InfluxError::WriteUnauthorized(generic()).to_string(),
        "WriteUnauthorized(code=forbidden, message=no)"
    );
    assert_eq!(
        InfluxError::WriteUnauthenticated(generic()).to_string(),
        "WriteUnauthenticated(code=forbidden, message=no)"
    );
    assert_eq!(InfluxError::WriteUnknown(generic()).to_string(), "WriteUnknown(code=forbidden, message=no)");
    assert_eq!(InfluxError::WriteOverquota(ApiDelayError { delay: 5 }).to_string(), "WriteOverquota(delay=5s)");
    assert_eq!(InfluxError::WriteUnready(ApiDelayError { delay: 7 }).to_string(), "WriteUnready(delay=7s)");
    assert_eq!(
        InfluxError::WriteOversized(ApiOversizeError {
            code: "c".to_string(),
            maxlen: 9,
            message: "m".to_string()
        })
        .to_string(),
        "WriteOversized(code=c, maxlen=9, message=m)"
    );
    assert_eq!(
        InfluxError::WriteMalformed(ApiMalformationError {
            code: "c".to_string(),
            err: "e".to_string(),
            line: None,
            message: "m".to_string(),
            op: "o".to_string()
        })
        .to_string(),
        "WriteMalformed(code=c, err=e, line=n/a, message=m, op=o)"
    );
    let unqueued = InfluxError::Unqueued {
        rejection: Box::new(InfluxError::WriteUnready(ApiDelayError { delay: 7 })),
        backlog: Box::new(InfluxError::Io("disk full".to_string())),
    };
    assert_eq!(
        unqueued.to_string(),
        "Not delivered: WriteUnready(delay=7s); not queued, data at risk: Io Error: disk full"
    );
}

#[test]
fn source_names_what_lies_behind() {
    let inner = InfluxError::Io("inner".to_string());
    let annotated = InfluxError::Annotated("outer".to_string(), Box::new(InfluxError::Io("inner".to_string())));
    assert_eq!(annotated.source(), Some(Cause::Inner(&inner)));
    let msg = "inner".to_string();
    assert_eq!(inner.source(), Some(Cause::Outside(&msg)));
    assert_eq!(InfluxError::Json("inner".to_string()).source(), Some(Cause::Outside(&msg)));
    assert_eq!(InfluxError::Reqwest("inner".to_string()).source(), Some(Cause::Outside(&msg)));
    assert_eq!(InfluxError::ParseBool("inner".to_string()).source(), Some(Cause::Outside(&msg)));
    assert_eq!(InfluxError::Error("x".to_string()).source(), None);
    assert_eq!(InfluxError::WriteUnknown(generic()).source(), None);
    let unqueued = InfluxError::Unqueued {
        rejection: Box::new(InfluxError::Io("inner".to_string())),
        backlog: Box::new(InfluxError::Io("disk".to_string())),
    };
    assert_eq!(unqueued.source(), Some(Cause::Inner(&inner)));
}

#[test]
fn annotate_wraps_failures_only() {
    let ok: InfluxResult<u8> = Ok(1);
    assert_eq!(ok.annotate("while".to_string()), Ok(1));
    let err: InfluxResult<u8> = Err(InfluxError::Io("gone".to_string()));
    assert_eq!(
        err.annotate("While opening file".to_string()),
        Err(InfluxError::Annotated(
            "While opening file".to_string(),
            Box::new(InfluxError::Io("gone".to_string()))
        ))
    );
}

#[test]
fn plain_errors_from_text() {
    assert_eq!(InfluxError::from("a"), InfluxError::Error("a".to_string()));
    assert_eq!(InfluxError::from("a".to_string()), InfluxError::Error("a".to_string()));
    assert_eq!(InfluxError::message("a"), InfluxError::Error("a".to_string()));
}

#[test]
fn io_errors_keep_their_message() {
    let e = std::io::Error::new(std::io::ErrorKind::Other, "disk full");
    assert_eq!(InfluxError::from(e), InfluxError::Io("disk full".to_string()));
}
