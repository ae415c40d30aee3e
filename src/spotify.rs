//! The streaming service: its credential, the requests the bot makes to it, and
//! how its answers are read.

use base64::prelude::BASE64_STANDARD;
use base64::Engine;
use vstd::prelude::*;

use crate::text::{decimal, decimal_text, opt_view};

verus! {

/// An error that the service's API described itself.
#[derive(Debug, Clone, PartialEq, Eq)]
pub struct ApiError {
    pub message: String,
    pub status: u16,
}

/// What can go wrong in talking to the service.
#[derive(Debug, Clone, PartialEq, Eq)]
pub enum SpotifyError {
    /// An HTTP failure that the response did not explain; holds the status code.
    Generic(u16),
    ApiError(ApiError),
    Unauthorized,
    InvalidToken,
    NotFound,
    /// The request itself failed; holds the transport's description.
    Reqwest(String),
}

/// A member of a JSON object, as far as the service logic reads it.
#[derive(Debug, Clone, PartialEq, Eq)]
pub enum JsonField {
    /// The object has no such member, or the body was no JSON object.
    Missing,
    Text(String),
    /// A member that is not a string.
    Other,
}

/// The `error` member of an error response from the service.
#[derive(Debug, Clone, PartialEq, Eq)]
pub enum ErrorField {
    /// The body could not be read as JSON.
    Unreadable,
    Missing,
    Text(String),
    /// An object with a message and a status.
    Structured(ApiError),
    /// Neither a string nor an object of that shape.
    Malformed,
}

/// A member of a JSON object as plain values.
pub open spec fn field_text(f: JsonField) -> Option<Seq<char>> {
    match f {
        JsonField::Text(s) => Some(s@),
        _ => None,
    }
}

/// How an error of the service reads to a person.
pub open spec fn spotify_error_text(e: SpotifyError) -> Seq<char> {
    match e {
        SpotifyError::Generic(s) => "Http "@ + decimal(s as nat),
        SpotifyError::ApiError(a) => "Api Error "@ + decimal(a.status as nat) + " "@ + a.message@,
        SpotifyError::Unauthorized => "Unauthorized"@,
        SpotifyError::InvalidToken => "Invalid Token"@,
        SpotifyError::NotFound => "Not Found or Not Available"@,
        SpotifyError::Reqwest(m) => "Reqwest: "@ + m@,
    }
}

impl SpotifyError {
    /// The error in words.
    pub fn describe(&self) -> (r: String)
        ensures
            r@ == spotify_error_text(*self),
    {
        match self {
            SpotifyError::Generic(s) => {
                let mut r = String::from_str("Http ");
                r.append(decimal_text(*s as u64).as_str());
                r
            },
            SpotifyError::ApiError(a) => {
                let mut r = String::from_str("Api Error ");
                r.append(decimal_text(a.status as u64).as_str());
                r.append(" ");
                r.append(a.message.as_str());
                r
            },
            SpotifyError::Unauthorized => String::from_str("Unauthorized"),
            SpotifyError::InvalidToken => String::from_str("Invalid Token"),
            SpotifyError::NotFound => String::from_str("Not Found or Not Available"),
            SpotifyError::Reqwest(m) => {
                let mut r = String::from_str("Reqwest: ");
                r.append(m.as_str());
                r
            },
        }
    }
}

/// Whether `r` is the error that an unsuccessful response stands for, given its
/// status and its `error` member.
pub open spec fn is_error_for(r: SpotifyError, status: u16, error: ErrorField) -> bool {
    match error {
        ErrorField::Unreadable => r == SpotifyError::Generic(status),
        ErrorField::Missing => r matches SpotifyError::ApiError(a) && a.status == status
            && a.message@ == "Unknown Error"@,
        ErrorField::Text(m) => r == SpotifyError::ApiError(ApiError { message: m, status }),
        ErrorField::Structured(a) => r == SpotifyError::ApiError(a),
        ErrorField::Malformed => r == SpotifyError::Generic(status),
    }
}

/// The error that an unsuccessful response stands for, from its status and its
/// `error` member.
pub fn error_from(status: u16, error: ErrorField) -> (r: SpotifyError)
    ensures
        is_error_for(r, status, error),
{
    match error {
        ErrorField::Unreadable => SpotifyError::Generic(status),
        ErrorField::Missing => SpotifyError::ApiError(
            ApiError { message: String::from_str("Unknown Error"), status },
        ),
        ErrorField::Text(message) => SpotifyError::ApiError(ApiError { message, status }),
        ErrorField::Structured(a) => SpotifyError::ApiError(a),
        ErrorField::Malformed => SpotifyError::Generic(status),
    }
}

/// The access token of a token response: present when the token type is
/// `Bearer` and the access token is a string.
pub open spec fn token_of(token_type: JsonField, access_token: JsonField) -> Option<Seq<char>> {
    if field_text(token_type) == Some("Bearer"@) {
        field_text(access_token)
    } else {
        None
    }
}

/// Reads the access token out of a token response's `token_type` and
/// `access_token` members.
pub fn parse_token(token_type: &JsonField, access_token: JsonField) -> (r: Option<String>)
    ensures
        opt_view(r) == token_of(*token_type, access_token),
{
    let bearer = String::from_str("Bearer");
    match token_type {
        JsonField::Text(t) => {
            if *t == bearer {
                match access_token {
                    JsonField::Text(a) => Some(a),
                    _ => None,
                }
            } else {
                None
            }
        },
        _ => None,
    }
}

/// The outcome of a token request, from the response's status and members.
pub open spec fn is_token_outcome(
    r: Result<Spotify, SpotifyError>,
    status: u16,
    token_type: JsonField,
    access_token: JsonField,
    error: ErrorField,
) -> bool {
    if status == 200 {
        match token_of(token_type, access_token) {
            Some(t) => r matches Ok(s) && s.spec_token()@ == t,
            None => r == Err::<Spotify, SpotifyError>(SpotifyError::InvalidToken),
        }
    } else {
        r matches Err(e) && is_error_for(e, status, error)
    }
}

/// A credential for the service's API.
#[derive(Clone)]
pub struct Spotify {
    token: String,
}

impl Spotify {
    pub closed spec fn spec_token(&self) -> String {
        self.token
    }

    /// The bearer token that authorises requests.
    pub fn token(&self) -> (r: &String)
        ensures
            *r == self.spec_token(),
    {
        &self.token
    }

    /// Turns the answer to a token request into a credential: a `200` answer
    /// with a bearer token gives it, a `200` answer without one is an invalid
    /// token, and any other status is the error that the answer explains.
    pub fn from_token_response(
        status: u16,
        token_type: &JsonField,
        access_token: JsonField,
        error: ErrorField,
    ) -> (r: Result<Spotify, SpotifyError>)
        ensures
            is_token_outcome(r, status, *token_type, access_token, error),
    {
        if status == 200 {
            match parse_token(token_type, access_token) {
                Some(token) => Ok(Spotify { token }),
                None => Err(SpotifyError::InvalidToken),
            }
        } else {
            Err(error_from(status, error))
        }
    }

    /// The address of the API's record of a track.
    pub fn track_url(id: &str) -> (r: String)
        ensures
            r@ == "https://api.spotify.com/v1/tracks/"@ + id@ + "?market=AU"@,
    {
        let mut r = String::from_str("https://api.spotify.com/v1/tracks/");
        r.append(id);
        r.append("?market=AU");
        r
    }
}

/// The standard base64 encoding, with padding, of a text's UTF-8 bytes.
pub uninterp spec fn base64_of(text: Seq<char>) -> Seq<char>;

/// Relies on base64's `STANDARD` engine: `encode` gives the padded standard
/// encoding of the text's bytes.
#[verifier::external_body]
fn encode_base64(text: &str) -> (r: String)
    ensures
        r@ == base64_of(text@),
{
    BASE64_STANDARD.encode(text)
}

/// The `Authorization` header value of a token request: the client's id and
/// secret, joined by a colon, in base64.
pub fn authorization_header(client_id: &str, client_secret: &str) -> (r: String)
    ensures
        r@ == "Basic "@ + base64_of(client_id@ + ":"@ + client_secret@),
{
    let mut joined = String::from_str(client_id);
    joined.append(":");
    joined.append(client_secret);
    let encoded = encode_base64(joined.as_str());
    let mut r = String::from_str("Basic ");
    r.append(encoded.as_str());
    r
}

} // verus!
