//! The credentials of a client, the sign-in that turns a user and a password
//! into a session, and the header that carries either to the remote.

use vstd::prelude::*;
use vstd::string::StringExecFns;

use crate::error::InfluxError;
use crate::error::InfluxResult;
use crate::transport::ReplyBody;
use crate::transport::ReplyShape;

verus! {

/// The base64 text, in the standard alphabet and with padding, that the
/// crate `base64` writes for `bytes`.
pub uninterp spec fn base64_text(bytes: Seq<u8>) -> Seq<char>;

/// A length of input up to which the base64 text is no longer than the
/// longest vector, `isize::MAX`.
pub open spec fn base64_limit() -> int {
    (isize::MAX - 4) / 4 * 3
}

/// Calls `base64::encode`, which writes its input in base64 with the
/// standard alphabet and padding. It panics where the length of the output
/// overflows, and it allocates the output at once, which panics where the
/// length is beyond `isize::MAX`; `requires` leaves such inputs out.
#[verifier::external_body]
fn base64_encode(input: &[u8]) -> (s: String)
    requires
        input@.len() <= base64_limit(),
    ensures
        s@ == base64_text(input@),
{
    base64::encode(input)
}

/// The path of the sign-in endpoint.
pub open spec fn signin_path() -> Seq<char> {
    "/api/v2/signin"@
}

/// What a client shows to the remote to be let in.
#[derive(Debug, PartialEq, Eq)]
pub enum Credentials {
    /// A user and a password. Signing in with them yields a session cookie,
    /// which every later request carries.
    Basic { user: String, passwd: String, cookie: Option<String> },
    /// A token made on the remote, which every request carries as it is.
    Token { token: String },
}

/// The `Set-Cookie` header of the reply to a sign-in.
#[derive(Debug, PartialEq, Eq)]
pub enum CookieHeader {
    /// The reply had no such header.
    Missing,
    /// The header was no text; what it held, for the error message.
    Unreadable(String),
    /// The text of the header.
    Text(String),
}

/// The text `user:passwd` that basic authentication encodes.
pub open spec fn basic_pair(user: Seq<char>, passwd: Seq<char>) -> Seq<char> {
    user + seq![':'] + passwd
}

/// The value of the `Authorization` header of a sign-in: the word `Basic`
/// and the base64 text of `user:passwd` in UTF-8.
pub open spec fn basic_authorization(user: Seq<char>, passwd: Seq<char>) -> Seq<char> {
    "Basic "@ + base64_text(vstd::utf8::encode_utf8(basic_pair(user, passwd)))
}

/// The value of the `Authorization` header that carries a token.
pub open spec fn token_authorization(token: Seq<char>) -> Seq<char> {
    "Token "@ + token
}

/// The error that a refused sign-in stands for, by status. `None` where the
/// body of the reply is not a code and a message.
pub open spec fn signin_rejection(status: u16, body: ReplyBody) -> Option<InfluxError> {
    match body {
        ReplyBody::Generic(b) => Some(
            if status == 401 {
                InfluxError::AuthUnauthorized(b)
            } else if status == 403 {
                InfluxError::AuthAccountDisabled(b)
            } else {
                InfluxError::AuthUnknown(b)
            },
        ),
        _ => None,
    }
}

/// Tells how to read the body of the reply to a sign-in: nothing on success,
/// a code and a message otherwise.
pub fn signin_reply_shape(status: u16) -> (shape: ReplyShape)
    ensures
        shape == if status == 204 {
            ReplyShape::Empty
        } else {
            ReplyShape::Generic
        },
{
    if status == 204 {
        ReplyShape::Empty
    } else {
        ReplyShape::Generic
    }
}

impl Credentials {
    /// Tells whether these credentials have to sign in before they can be
    /// used: a user and a password without a session.
    pub open spec fn needs_signin(&self) -> bool {
        self matches Credentials::Basic { cookie: None, .. }
    }

    /// A user and a password, not yet signed in.
    pub fn from_basic(user: &str, passwd: &str) -> (c: Self)
        ensures
            c matches Credentials::Basic { user: u, passwd: p, cookie: None } && u@ == user@ && p@
                == passwd@,
    {
        Self::Basic {
            user: String::from_str(user),
            passwd: String::from_str(passwd),
            cookie: None,
        }
    }

    /// A token.
    pub fn from_token(token: &str) -> (c: Self)
        ensures
            c matches Credentials::Token { token: t } && t@ == token@,
    {
        Self::Token { token: String::from_str(token) }
    }

    /// The path of the endpoint at which these credentials sign in.
    pub fn signin_endpoint(&self) -> (path: &'static str)
        ensures
            path@ == signin_path(),
    {
        "/api/v2/signin"
    }

    /// The value of the `Authorization` header of the sign-in request, given
    /// the base64 text of `user:passwd`. Credentials that need no sign-in
    /// give `None`.
    pub fn signin_header_with(&self, encoded: String) -> (header: Option<String>)
        ensures
            self.needs_signin() ==> (header matches Some(h) && h@ == "Basic "@ + encoded@),
            !self.needs_signin() ==> header is None,
    {
        match self {
            Credentials::Basic { cookie: None, .. } => {
                let mut value = String::from_str("Basic ");
                value.append(encoded.as_str());
                Some(value)
            },
            _ => None,
        }
    }

    /// The value of the `Authorization` header of the sign-in request.
    /// Credentials that need no sign-in give `None`. A user and a password
    /// too long for their base64 text to fit in memory are refused.
    pub fn signin_header(&self) -> (r: InfluxResult<Option<String>>)
        ensures
            match *self {
                Credentials::Basic { user, passwd, cookie: None } => {
                    let bytes = vstd::utf8::encode_utf8(basic_pair(user@, passwd@));
                    if bytes.len() <= base64_limit() {
                        r matches Ok(Some(h)) && h@ == basic_authorization(user@, passwd@)
                    } else {
                        r matches Err(InfluxError::Error(m)) && m@
                            == "user and password too long to encode"@
                    }
                },
                _ => r matches Ok(None),
            },
    {
        match self {
            Credentials::Basic { user, passwd, cookie: None } => {
                proof {
                    reveal_strlit(":");
                }
                let mut pair = String::from_str(user.as_str());
                pair.append(":");
                pair.append(passwd.as_str());
                assert(pair@ == basic_pair(user@, passwd@));
                let bytes = pair.as_str().as_bytes();
                if bytes.len() <= (isize::MAX as usize - 4) / 4 * 3 {
                    Ok(self.signin_header_with(base64_encode(bytes)))
                } else {
                    Err(InfluxError::message("user and password too long to encode"))
                }
            },
            _ => Ok(None),
        }
    }

    /// The credentials after the reply to a sign-in.
    ///
    /// Credentials that need no sign-in stay as they are. Otherwise status
    /// 204 with a session cookie gives the same user and password, signed
    /// in; status 204 without a readable cookie is an error; any other
    /// status is a refusal, by status, with the body of the reply inside.
    pub fn signed_in(self, status: u16, cookie: CookieHeader, body: ReplyBody) -> (r: InfluxResult<
        Credentials,
    >)
        ensures
            !self.needs_signin() ==> r == Ok::<Credentials, InfluxError>(self),
            self.needs_signin() && status == 204 ==> match cookie {
                CookieHeader::Text(session) => r matches Ok(
                    Credentials::Basic { user, passwd, cookie: Some(c) },
                ) && user == self->user && passwd == self->passwd && c == session,
                CookieHeader::Unreadable(what) => r matches Err(InfluxError::Error(m)) && m@
                    == "Failed to extract session cookie string: "@ + what@,
                CookieHeader::Missing => r matches Err(InfluxError::Error(m)) && m@
                    == "Missing session cookie after successfull basic auth"@,
            },
            self.needs_signin() && status != 204 ==> match signin_rejection(status, body) {
                Some(e) => r == Err::<Credentials, InfluxError>(e),
                None => r matches Err(InfluxError::Error(m)) && m@
                    == "reply body does not fit its status"@,
            },
    {
        match self {
            Credentials::Basic { user, passwd, cookie: None } => {
                if status == 204 {
                    match cookie {
                        CookieHeader::Text(session) => Ok(
                            Credentials::Basic { user, passwd, cookie: Some(session) },
                        ),
                        CookieHeader::Unreadable(what) => {
                            let mut msg = String::from_str(
                                "Failed to extract session cookie string: ",
                            );
                            msg.append(what.as_str());
                            Err(InfluxError::Error(msg))
                        },
                        CookieHeader::Missing => Err(
                            InfluxError::message(
                                "Missing session cookie after successfull basic auth",
                            ),
                        ),
                    }
                } else {
                    match body {
                        ReplyBody::Generic(b) => {
                            if status == 401 {
                                Err(InfluxError::AuthUnauthorized(b))
                            } else if status == 403 {
                                Err(InfluxError::AuthAccountDisabled(b))
                            } else {
                                Err(InfluxError::AuthUnknown(b))
                            }
                        },
                        _ => Err(InfluxError::message("reply body does not fit its status")),
                    }
                }
            },
            other => Ok(other),
        }
    }

    /// The header that carries these credentials on a request, as a name and
    /// a value: the session cookie of a signed-in user, or the token. A user
    /// who has not signed in has nothing to show.
    pub fn header(&self) -> (r: InfluxResult<(String, String)>)
        ensures
            match *self {
                Credentials::Basic { cookie: None, .. } => r matches Err(InfluxError::Error(m))
                    && m@
                    == "Missing session cookie from basic auth. This should not have happened!"@,
                Credentials::Basic { cookie: Some(session), .. } => r matches Ok(h) && h.0@
                    == "Cookie"@ && h.1@ == session@,
                Credentials::Token { token } => r matches Ok(h) && h.0@ == "Authorization"@
                    && h.1@ == token_authorization(token@),
            },
    {
        match self {
            Credentials::Basic { cookie: None, .. } => Err(
                InfluxError::message(
                    "Missing session cookie from basic auth. This should not have happened!",
                ),
            ),
            Credentials::Basic { cookie: Some(session), .. } => Ok(
                (String::from_str("Cookie"), session.clone()),
            ),
            Credentials::Token { token } => {
                let mut value = String::from_str("Token ");
                value.append(token.as_str());
                Ok((String::from_str("Authorization"), value))
            },
        }
    }
}

} // verus!
