//! The gateway's three operations: showing the session's key, issuing a new
//! one, and the quota-gated image generation, whose outside calls (verifying
//! the key, generating the image) the caller makes between its steps.
use vstd::prelude::*;
use crate::credential::{authorizes, KeyCreateData, KeyVerifyData};
use crate::generation::GenerationError;
use crate::session::{held_key, parse_token, token_of, Session};

verus! {

/// The outcome of a request, as an HTTP status.
#[derive(Clone, Copy, Debug, PartialEq, Eq, Structural)]
pub enum Status {
    Success,
    SeeOther,
    BadRequest,
    Unauthorized,
    InternalServerError,
}

impl Status {
    /// The status's numeric HTTP code.
    pub fn code(&self) -> (r: u16)
        ensures
            r == match *self {
                Status::Success => 200u16,
                Status::SeeOther => 303u16,
                Status::BadRequest => 400u16,
                Status::Unauthorized => 401u16,
                Status::InternalServerError => 500u16,
            },
    {
        match self {
            Status::Success => 200,
            Status::SeeOther => 303,
            Status::BadRequest => 400,
            Status::Unauthorized => 401,
            Status::InternalServerError => 500,
        }
    }
}

/// A redirect to another of the gateway's paths.
#[derive(Clone, Debug, PartialEq, Eq)]
pub struct Redirect {
    pub location: String,
}

/// A failed request: its status and a message for the client.
#[derive(Clone, Debug, PartialEq, Eq)]
pub struct ErrorReply {
    pub status: Status,
    pub message: String,
}

pub open spec fn no_key_message() -> Seq<char> {
    "Unauthorized: No valid API key in cookies."@
}

pub open spec fn issue_failed_message() -> Seq<char> {
    "Unauthorized: Unable to create an API key."@
}

/// The path that shows the session's key.
pub open spec fn me_path() -> Seq<char> {
    "/me"@
}

/// Shows the key the session holds; `Unauthorized` when it holds none.
pub fn me(session: &Session) -> (r: Result<KeyCreateData, ErrorReply>)
    ensures
        match r {
            Ok(c) => session.held() == Some((c.key@, c.key_id@)),
            Err(e) => session.held() is None && e.status == Status::Unauthorized && e.message@
                == no_key_message(),
        },
{
    match session.get() {
        Some(c) => Ok(c),
        None => Err(
            ErrorReply {
                status: Status::Unauthorized,
                message: "Unauthorized: No valid API key in cookies.".to_string(),
            },
        ),
    }
}

/// Stores the key that the key service issued, if it issued one, and
/// redirects to the key's page; `Unauthorized`, with the session untouched,
/// when no key was issued.
pub fn authorize(session: &mut Session, issued: Option<KeyCreateData>) -> (r: Result<
    Redirect,
    ErrorReply,
>)
    ensures
        match issued {
            Some(c) => {
                &&& r matches Ok(d) && d.location@ == me_path()
                &&& final(session).token_view() == Some(token_of(c.key@, c.key_id@))
                &&& final(session).held() == Some((c.key@, c.key_id@))
            },
            None => {
                &&& r matches Err(e) && e.status == Status::Unauthorized && e.message@
                    == issue_failed_message()
                &&& final(session).token == old(session).token
            },
        },
{
    match issued {
        Some(c) => {
            session.put(&c);
            Ok(Redirect { location: "/me".to_string() })
        },
        None => Err(
            ErrorReply {
                status: Status::Unauthorized,
                message: "Unauthorized: Unable to create an API key.".to_string(),
            },
        ),
    }
}

/// What a generation request answers, as plain values.
pub enum ReplyView {
    Image { image_url: Seq<char>, remaining_calls: Option<usize> },
    Failure { status: Status, message: Seq<char> },
}

/// What a generation request answers.
#[derive(Debug, PartialEq, Eq)]
pub enum GenerateReply {
    /// The generated image's location and the uses the key had left when it
    /// was verified for this request.
    Image { image_url: String, remaining_calls: Option<usize> },
    Failure { status: Status, message: String },
}

impl View for GenerateReply {
    type V = ReplyView;

    open spec fn view(&self) -> ReplyView {
        match self {
            GenerateReply::Image { image_url, remaining_calls } => ReplyView::Image {
                image_url: image_url@,
                remaining_calls: *remaining_calls,
            },
            GenerateReply::Failure { status, message } => ReplyView::Failure {
                status: *status,
                message: message@,
            },
        }
    }
}

pub open spec fn missing_key_message() -> Seq<char> {
    "Unauthorized: Missing API key in cookies."@
}

pub open spec fn malformed_key_message() -> Seq<char> {
    "Invalid API key format in cookies."@
}

pub open spec fn invalid_key_message() -> Seq<char> {
    "Invalid API key: Quota exceeded or invalid key."@
}

pub open spec fn generation_failed_message() -> Seq<char> {
    "Internal server error: Unable to generate the image."@
}

/// Whether a session carrying `token` may go on to verification, with the
/// key to verify, or the answer that ends the request.
pub open spec fn admission(token: Option<Seq<char>>) -> Result<Seq<char>, ReplyView> {
    match token {
        None => Err(
            ReplyView::Failure { status: Status::Unauthorized, message: missing_key_message() },
        ),
        Some(t) => match parse_token(t) {
            None => Err(
                ReplyView::Failure { status: Status::BadRequest, message: malformed_key_message() },
            ),
            Some((key, _)) => Ok(key),
        },
    }
}

/// The uses left that a verification lets a request go on with; `None` when
/// it does not let the request go on.
pub open spec fn verified_remaining(v: Option<KeyVerifyData>) -> Option<Option<usize>> {
    if authorizes(v) {
        Some(v.unwrap().remaining)
    } else {
        None
    }
}

/// The answer once the image has been asked for, with `remaining` uses left
/// as verified.
pub open spec fn image_reply(
    remaining: Option<usize>,
    image: Result<Seq<char>, GenerationError>,
) -> ReplyView {
    match image {
        Ok(url) => ReplyView::Image { image_url: url, remaining_calls: remaining },
        Err(_) => ReplyView::Failure {
            status: Status::InternalServerError,
            message: generation_failed_message(),
        },
    }
}

/// The answer to a whole generation request: from a session carrying
/// `token`, a verification that reported `v`, and an image request that
/// gave `image`.
pub open spec fn generation_reply(
    token: Option<Seq<char>>,
    v: Option<KeyVerifyData>,
    image: Result<Seq<char>, GenerationError>,
) -> ReplyView {
    match admission(token) {
        Err(reply) => reply,
        Ok(_) => match verified_remaining(v) {
            None => ReplyView::Failure {
                status: Status::BadRequest,
                message: invalid_key_message(),
            },
            Some(remaining) => image_reply(remaining, image),
        },
    }
}

/// The text of an image request's outcome.
pub open spec fn image_view(image: Result<String, GenerationError>) -> Result<
    Seq<char>,
    GenerationError,
> {
    match image {
        Ok(u) => Ok(u@),
        Err(e) => Err(e),
    }
}

/// A generation request whose key is still to be verified.
pub struct PendingVerification {
    key: String,
    prompt: String,
}

/// A generation request whose key passed verification: the only way to the
/// image request.
pub struct PendingImage {
    prompt: String,
    remaining: Option<usize>,
}

/// Starts a generation request for `prompt` from `session`: it goes on to
/// verification when the session holds a readable key.
pub fn begin_generation(session: &Session, prompt: String) -> (r: Result<
    PendingVerification,
    GenerateReply,
>)
    ensures
        match r {
            Ok(p) => admission(session.token_view()) == Ok::<Seq<char>, ReplyView>(p.key_view())
                && p.prompt_view() == prompt@,
            Err(reply) => admission(session.token_view()) == Err::<Seq<char>, ReplyView>(reply@),
        },
{
    match &session.token {
        None => Err(
            GenerateReply::Failure {
                status: Status::Unauthorized,
                message: "Unauthorized: Missing API key in cookies.".to_string(),
            },
        ),
        Some(t) => match crate::session::decode_token(t.as_str()) {
            None => Err(
                GenerateReply::Failure {
                    status: Status::BadRequest,
                    message: "Invalid API key format in cookies.".to_string(),
                },
            ),
            Some(c) => Ok(PendingVerification { key: c.key, prompt }),
        },
    }
}

impl PendingVerification {
    pub closed spec fn key_view(&self) -> Seq<char> {
        self.key@
    }

    pub closed spec fn prompt_view(&self) -> Seq<char> {
        self.prompt@
    }

    /// The key to verify.
    pub fn key(&self) -> (r: &str)
        ensures
            r@ == self.key_view(),
    {
        self.key.as_str()
    }

    /// Goes on to the image request when the verification `v` was obtained
    /// and reports the key valid; otherwise ends the request.
    pub fn on_verified(self, v: Option<KeyVerifyData>) -> (r: Result<PendingImage, GenerateReply>)
        ensures
            r is Ok <==> authorizes(v),
            match r {
                Ok(p) => verified_remaining(v) == Some(p.remaining_view()) && p.prompt_view()
                    == self.prompt_view(),
                Err(reply) => reply@ == (ReplyView::Failure {
                    status: Status::BadRequest,
                    message: invalid_key_message(),
                }),
            },
    {
        match v {
            Some(d) if d.valid => Ok(PendingImage { prompt: self.prompt, remaining: d.remaining }),
            _ => Err(
                GenerateReply::Failure {
                    status: Status::BadRequest,
                    message: "Invalid API key: Quota exceeded or invalid key.".to_string(),
                },
            ),
        }
    }
}

impl PendingImage {
    pub closed spec fn prompt_view(&self) -> Seq<char> {
        self.prompt@
    }

    pub closed spec fn remaining_view(&self) -> Option<usize> {
        self.remaining
    }

    /// The prompt to ask an image for.
    pub fn prompt(&self) -> (r: &str)
        ensures
            r@ == self.prompt_view(),
    {
        self.prompt.as_str()
    }

    /// The answer, given what the image request gave.
    pub fn on_image(self, image: Result<String, GenerationError>) -> (r: GenerateReply)
        ensures
            r@ == image_reply(self.remaining_view(), image_view(image)),
    {
        match image {
            Ok(url) => GenerateReply::Image { image_url: url, remaining_calls: self.remaining },
            Err(_) => GenerateReply::Failure {
                status: Status::InternalServerError,
                message: "Internal server error: Unable to generate the image.".to_string(),
            },
        }
    }
}

/// A session with no key issued to it is unauthenticated: showing its key
/// fails, and a generation request ends as unauthorized whatever the outside
/// services would have said.
pub proof fn lemma_first_visit_unauthenticated(
    token: Option<Seq<char>>,
    v: Option<KeyVerifyData>,
    image: Result<Seq<char>, GenerationError>,
)
    requires
        token is None,
    ensures
        held_key(token) is None,
        generation_reply(token, v, image) == (ReplyView::Failure {
            status: Status::Unauthorized,
            message: missing_key_message(),
        }),
{
}

/// Once a key is issued to a session, the session shows exactly that key
/// and identifier.
pub proof fn lemma_issued_key_shown(key: Seq<char>, key_id: Seq<char>)
    ensures
        held_key(Some(token_of(key, key_id))) == Some((key, key_id)),
{
    crate::session::lemma_token_round_trip(key, key_id);
}

/// Issuing a second key replaces the first: the session shows the second,
/// and the first key is no longer shown.
pub proof fn lemma_reissue_replaces(
    first_key: Seq<char>,
    first_id: Seq<char>,
    key: Seq<char>,
    key_id: Seq<char>,
)
    requires
        first_key != key,
    ensures
        held_key(Some(token_of(key, key_id))) == Some((key, key_id)),
        held_key(Some(token_of(key, key_id))) != Some((first_key, first_id)),
{
    crate::session::lemma_token_round_trip(key, key_id);
}

/// A verification that failed or found the key invalid or exhausted stops
/// the request before the image request: no pending image request comes of
/// it, and the answer does not depend on what an image request would give.
pub proof fn lemma_generation_gated(
    token: Option<Seq<char>>,
    v: Option<KeyVerifyData>,
    image: Result<Seq<char>, GenerationError>,
    other: Result<Seq<char>, GenerationError>,
)
    requires
        v is None || !v.unwrap().valid,
    ensures
        verified_remaining(v) is None,
        generation_reply(token, v, image) == generation_reply(token, v, other),
{
}

/// A successful generation reports the uses left from the verification made
/// for that same request.
pub proof fn lemma_remaining_from_this_verification(
    token: Option<Seq<char>>,
    v: Option<KeyVerifyData>,
    image: Result<Seq<char>, GenerationError>,
)
    ensures
        generation_reply(token, v, image) matches ReplyView::Image { remaining_calls, .. } ==> (v
            matches Some(d) && d.valid && remaining_calls == d.remaining),
{
}

} // verus!
