//! The error taxonomy of the resolution pipeline, with verified
//! human-readable messages.

use vstd::prelude::*;

verus! {

/// A failed lookup against the identity service: the request was rejected
/// with an HTTP status, the transport failed, or the response body had an
/// unexpected shape.
#[derive(Debug)]
pub enum ClientError {
    Http(u16, String),
    Transport(String),
    Decode(String),
}

/// A failed single-identifier resolution: the raw identifier did not parse,
/// or the lookup itself failed.
#[derive(Debug)]
pub enum FetchRiotIdError {
    ParseError(String),
    RequestError(ClientError),
}

/// A failed bulk-list decode: the transport string has no `=`, or the
/// percent-encoded value does not decode.
#[derive(Debug, PartialEq, Eq)]
pub enum DecodeError {
    MissingValue,
    InvalidEscape,
}

/// The caller-facing category of a failed resolution, for uniform
/// reporting: invalid input for parse failures, not-found and forbidden for
/// the two distinguished HTTP statuses, and a generic upstream failure for
/// everything else.
#[derive(Debug, PartialEq, Eq, Structural)]
pub enum ErrorCategory {
    InvalidInput,
    NotFound,
    Forbidden,
    UpstreamFailure,
}

/// Which category a resolution error falls under.
pub open spec fn category_spec(e: FetchRiotIdError) -> ErrorCategory {
    match e {
        FetchRiotIdError::ParseError(_) => ErrorCategory::InvalidInput,
        FetchRiotIdError::RequestError(c) => match c {
            ClientError::Http(status, _) => if status == 404 {
                ErrorCategory::NotFound
            } else if status == 403 {
                ErrorCategory::Forbidden
            } else {
                ErrorCategory::UpstreamFailure
            },
            ClientError::Transport(_) => ErrorCategory::UpstreamFailure,
            ClientError::Decode(_) => ErrorCategory::UpstreamFailure,
        },
    }
}

impl FetchRiotIdError {
    /// Maps the error to its caller-facing category.
    pub fn category(&self) -> (r: ErrorCategory)
        ensures
            r == category_spec(*self),
    {
        match self {
            FetchRiotIdError::ParseError(_) => ErrorCategory::InvalidInput,
            FetchRiotIdError::RequestError(c) => match c {
                ClientError::Http(status, _) => {
                    if *status == 404 {
                        ErrorCategory::NotFound
                    } else if *status == 403 {
                        ErrorCategory::Forbidden
                    } else {
                        ErrorCategory::UpstreamFailure
                    }
                },
                ClientError::Transport(_) => ErrorCategory::UpstreamFailure,
                ClientError::Decode(_) => ErrorCategory::UpstreamFailure,
            },
        }
    }
}

/// The decimal digit character for `d`.
pub open spec fn digit_char(d: nat) -> char {
    if d == 0 {
        '0'
    } else if d == 1 {
        '1'
    } else if d == 2 {
        '2'
    } else if d == 3 {
        '3'
    } else if d == 4 {
        '4'
    } else if d == 5 {
        '5'
    } else if d == 6 {
        '6'
    } else if d == 7 {
        '7'
    } else if d == 8 {
        '8'
    } else {
        '9'
    }
}

/// The decimal representation of `n`, most significant digit first, with no
/// leading zeros (a single `0` for zero).
pub open spec fn dec_digits(n: nat) -> Seq<char>
    decreases n,
{
    if n < 10 {
        seq![digit_char(n)]
    } else {
        dec_digits(n / 10).push(digit_char(n % 10))
    }
}

/// The stringified form of a [`ClientError`].
pub open spec fn client_error_message_spec(e: ClientError) -> Seq<char> {
    match e {
        ClientError::Http(status, msg) => "HTTP status "@ + dec_digits(status as nat) + ": "@
            + msg@,
        ClientError::Transport(msg) => "Transport error: "@ + msg@,
        ClientError::Decode(msg) => "Decode error: "@ + msg@,
    }
}

/// The stringified form of a [`FetchRiotIdError`].
pub open spec fn fetch_error_message_spec(e: FetchRiotIdError) -> Seq<char> {
    match e {
        FetchRiotIdError::ParseError(msg) => "Parse error: "@ + msg@,
        FetchRiotIdError::RequestError(c) => "Request Error: "@ + client_error_message_spec(c),
    }
}

/// The single-character string for digit `d`.
fn digit_str(d: u16) -> (r: &'static str)
    requires
        d < 10,
    ensures
        r@ == seq![digit_char(d as nat)],
{
    if d == 0 {
        proof {
            reveal_strlit("0");
            assert("0"@ =~= seq![digit_char(0)]);
        }
        "0"
    } else if d == 1 {
        proof {
            reveal_strlit("1");
            assert("1"@ =~= seq![digit_char(1)]);
        }
        "1"
    } else if d == 2 {
        proof {
            reveal_strlit("2");
            assert("2"@ =~= seq![digit_char(2)]);
        }
        "2"
    } else if d == 3 {
        proof {
            reveal_strlit("3");
            assert("3"@ =~= seq![digit_char(3)]);
        }
        "3"
    } else if d == 4 {
        proof {
            reveal_strlit("4");
            assert("4"@ =~= seq![digit_char(4)]);
        }
        "4"
    } else if d == 5 {
        proof {
            reveal_strlit("5");
            assert("5"@ =~= seq![digit_char(5)]);
        }
        "5"
    } else if d == 6 {
        proof {
            reveal_strlit("6");
            assert("6"@ =~= seq![digit_char(6)]);
        }
        "6"
    } else if d == 7 {
        proof {
            reveal_strlit("7");
            assert("7"@ =~= seq![digit_char(7)]);
        }
        "7"
    } else if d == 8 {
        proof {
            reveal_strlit("8");
            assert("8"@ =~= seq![digit_char(8)]);
        }
        "8"
    } else {
        proof {
            reveal_strlit("9");
            assert("9"@ =~= seq![digit_char(9)]);
        }
        "9"
    }
}

/// Renders `n` in decimal.
pub fn u16_to_decimal(n: u16) -> (r: String)
    ensures
        r@ == dec_digits(n as nat),
    decreases n,
{
    if n < 10 {
        digit_str(n).to_owned()
    } else {
        let mut s = u16_to_decimal(n / 10);
        s.append(digit_str(n % 10));
        proof {
            assert(s@ =~= dec_digits(n as nat));
        }
        s
    }
}

impl ClientError {
    /// The stringified error, as placed into batch failure reasons.
    pub fn message(&self) -> (r: String)
        ensures
            r@ == client_error_message_spec(*self),
    {
        match self {
            ClientError::Http(status, msg) => {
                let mut s = String::from_str("HTTP status ");
                let dec = u16_to_decimal(*status);
                s.append(dec.as_str());
                s.append(": ");
                s.append(msg.as_str());
                proof {
                    assert(s@ =~= client_error_message_spec(*self));
                }
                s
            },
            ClientError::Transport(msg) => {
                let mut s = String::from_str("Transport error: ");
                s.append(msg.as_str());
                proof {
                    assert(s@ =~= client_error_message_spec(*self));
                }
                s
            },
            ClientError::Decode(msg) => {
                let mut s = String::from_str("Decode error: ");
                s.append(msg.as_str());
                proof {
                    assert(s@ =~= client_error_message_spec(*self));
                }
                s
            },
        }
    }
}

impl FetchRiotIdError {
    /// The stringified error, as a presentation layer would display it.
    pub fn message(&self) -> (r: String)
        ensures
            r@ == fetch_error_message_spec(*self),
    {
        match self {
            FetchRiotIdError::ParseError(msg) => {
                let mut s = String::from_str("Parse error: ");
                s.append(msg.as_str());
                proof {
                    assert(s@ =~= fetch_error_message_spec(*self));
                }
                s
            },
            FetchRiotIdError::RequestError(c) => {
                let mut s = String::from_str("Request Error: ");
                let inner = c.message();
                s.append(inner.as_str());
                proof {
                    assert(s@ =~= fetch_error_message_spec(*self));
                }
                s
            },
        }
    }
}

impl DecodeError {
    /// A short description of the decode failure.
    pub fn message(&self) -> (r: String)
        ensures
            *self is MissingValue ==> r@ == "No players found in the URL"@,
            *self is InvalidEscape ==> r@ == "Player list is not valid percent-encoded text"@,
    {
        match self {
            DecodeError::MissingValue => String::from_str("No players found in the URL"),
            DecodeError::InvalidEscape => String::from_str(
                "Player list is not valid percent-encoded text",
            ),
        }
    }
}

} // verus!
