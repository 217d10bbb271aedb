//! The connection to a radio station.

use crate::audio::music_player::MusicPlayerEvent;
use crate::audio::playback::{AudioCommand, Playback};
use crate::audio::stream::{supported_scheme, StreamUrl};
use crate::text::join;
use vstd::prelude::*;

verus! {

/// Milliseconds after which an attempt to connect is given up.
pub const STREAMING_TIMEOUT_MILLIS: u64 = 2_000;

/// Chunks that may wait between the connection and the reader.
pub const CHUNK_QUEUE_LEN: usize = 16;

/// A header of a request.
#[derive(Debug)]
pub struct Header {
    pub name: String,
    pub value: String,
}

/// A request for a stream.
#[derive(Debug)]
pub struct StreamRequest {
    pub method: String,
    pub uri: String,
    pub headers: Vec<Header>,
}

/// Why a stream cannot be fetched.
#[derive(Debug)]
pub enum ConnectError {
    /// The URL has a scheme over which no stream can be fetched.
    UnsupportedScheme { scheme: String },
    /// The URL is not one that a request can name.
    InvalidUri { message: String },
    /// The station answered with an error.
    HttpStatus { status: String },
    /// The transport failed.
    Transport { message: String },
}

/// The names and values of `headers`.
pub open spec fn header_texts(headers: Seq<Header>) -> Seq<(Seq<char>, Seq<char>)> {
    headers.map_values(|header: Header| (header.name@, header.value@))
}

/// What every request for a stream says: who asks, that any type of content
/// will do, and that no titles are to be mixed into the audio.
pub open spec fn stream_headers() -> Seq<(Seq<char>, Seq<char>)> {
    seq![
        ("user-agent"@, "rebels-in-the-sky"@),
        ("accept"@, "*/*"@),
        ("icy-metadata"@, "0"@),
    ]
}

/// The text of an HTTP status, as `hyper::StatusCode` writes it.
pub uninterp spec fn status_text(code: u16) -> Seq<char>;

/// What `hyper::Uri` makes of a text when it is read as a URI: nothing to
/// object, or the message of the error.
pub uninterp spec fn uri_check(text: Seq<char>) -> Result<(), Seq<char>>;

/// The message in the result of a check.
pub open spec fn uri_check_text(checked: Result<(), String>) -> Result<(), Seq<char>> {
    match checked {
        Ok(()) => Ok(()),
        Err(message) => Err(message@),
    }
}

/// Calls the `FromStr` of `hyper::Uri`, and takes the text of its error.
///
/// Believed without proof: the outcome depends on the text alone, so that it
/// has a name, [`uri_check`].
#[verifier::external_body]
fn check_uri(text: &str) -> (checked: Result<(), String>)
    ensures
        uri_check_text(checked) == uri_check(text@),
{
    match text.parse::<hyper::Uri>() {
        Ok(_) => Ok(()),
        Err(error) => Err(error.to_string()),
    }
}

/// Calls `hyper::StatusCode::from_u16` and `StatusCode::is_success`.
///
/// Believed without proof: the codes from 200 to 299 are successes, all other
/// three-digit codes are not.
#[verifier::external_body]
fn status_is_success(code: u16) -> (success: bool)
    requires
        100 <= code <= 999,
    ensures
        success == (200 <= code <= 299),
{
    match hyper::StatusCode::from_u16(code) {
        Ok(status) => status.is_success(),
        Err(_) => false,
    }
}

/// Calls `hyper::StatusCode::from_u16` and the `Display` of its result.
///
/// Believed without proof: the text of a three-digit code depends on the code
/// alone, so that it has a name, [`status_text`].
#[verifier::external_body]
fn describe_status(code: u16) -> (text: String)
    requires
        100 <= code <= 999,
    ensures
        text@ == status_text(code),
{
    match hyper::StatusCode::from_u16(code) {
        Ok(status) => status.to_string(),
        Err(error) => error.to_string(),
    }
}

impl ConnectError {
    /// The text of the error.
    pub open spec fn text(self) -> Seq<char> {
        match self {
            ConnectError::UnsupportedScheme { scheme } => "Unsupported radio stream URL scheme: "@
                + scheme@,
            ConnectError::InvalidUri { message } => message@,
            ConnectError::HttpStatus { status } => "Radio stream returned HTTP status "@ + status@,
            ConnectError::Transport { message } => message@,
        }
    }

    /// The error in words.
    pub fn message(&self) -> (message: String)
        ensures
            message@ == self.text(),
    {
        match self {
            ConnectError::UnsupportedScheme { scheme } => join(
                "Unsupported radio stream URL scheme: ",
                scheme.as_str(),
            ),
            ConnectError::InvalidUri { message } => message.clone(),
            ConnectError::HttpStatus { status } => join(
                "Radio stream returned HTTP status ",
                status.as_str(),
            ),
            ConnectError::Transport { message } => message.clone(),
        }
    }
}

/// The header `name` with `value`.
fn header(name: &str, value: &str) -> (header: Header)
    ensures
        header.name@ == name@,
        header.value@ == value@,
{
    Header { name: name.to_owned(), value: value.to_owned() }
}

/// Judges whether a stream can be fetched over the scheme of `url`.
pub fn check_scheme(url: &StreamUrl) -> (answer: Result<(), ConnectError>)
    ensures
        match answer {
            Ok(()) => supported_scheme(url@.scheme),
            Err(error) => {
                &&& !supported_scheme(url@.scheme)
                &&& error matches ConnectError::UnsupportedScheme { scheme } && scheme@
                    == url@.scheme
            },
        },
{
    if url.is_supported() {
        Ok(())
    } else {
        Err(ConnectError::UnsupportedScheme { scheme: url.scheme.clone() })
    }
}

/// The request for the stream at `url`, of which `checked` tells whether a
/// request can name it.
pub fn build_request(url: &StreamUrl, checked: Result<(), String>) -> (request: Result<
    StreamRequest,
    ConnectError,
>)
    ensures
        match request {
            Ok(request) => {
                &&& supported_scheme(url@.scheme) && checked is Ok
                &&& request.method@ == "GET"@
                &&& request.uri@ == url@.text
                &&& header_texts(request.headers@) == stream_headers()
            },
            Err(ConnectError::UnsupportedScheme { scheme }) => {
                &&& !supported_scheme(url@.scheme)
                &&& scheme@ == url@.scheme
            },
            Err(error) => {
                &&& supported_scheme(url@.scheme)
                &&& checked matches Err(message) && error == (ConnectError::InvalidUri { message })
            },
        },
{
    if let Err(error) = check_scheme(url) {
        return Err(error);
    }
    if let Err(message) = checked {
        return Err(ConnectError::InvalidUri { message });
    }
    let mut headers: Vec<Header> = Vec::new();
    headers.push(header("user-agent", "rebels-in-the-sky"));
    headers.push(header("accept", "*/*"));
    headers.push(header("icy-metadata", "0"));
    assert(header_texts(headers@) =~= stream_headers());
    Ok(StreamRequest { method: "GET".to_owned(), uri: url.text.clone(), headers })
}

/// The request for the stream at `url`.
pub fn stream_request(url: &StreamUrl) -> (request: Result<StreamRequest, ConnectError>)
    ensures
        match request {
            Ok(request) => {
                &&& supported_scheme(url@.scheme) && uri_check(url@.text) is Ok
                &&& request.method@ == "GET"@
                &&& request.uri@ == url@.text
                &&& header_texts(request.headers@) == stream_headers()
            },
            Err(ConnectError::UnsupportedScheme { scheme }) => {
                &&& !supported_scheme(url@.scheme)
                &&& scheme@ == url@.scheme
            },
            Err(error) => {
                &&& supported_scheme(url@.scheme)
                &&& error matches ConnectError::InvalidUri { message } && uri_check(url@.text)
                    == Err::<(), Seq<char>>(message@)
            },
        },
{
    build_request(url, check_uri(url.text.as_str()))
}

/// Judges the status of the station's answer.
pub fn check_status(code: u16) -> (answer: Result<(), ConnectError>)
    requires
        100 <= code <= 999,
    ensures
        match answer {
            Ok(()) => 200 <= code <= 299,
            Err(error) => {
                &&& !(200 <= code <= 299)
                &&& error matches ConnectError::HttpStatus { status } && status@ == status_text(
                    code,
                )
            },
        },
{
    if status_is_success(code) {
        Ok(())
    } else {
        Err(ConnectError::HttpStatus { status: describe_status(code) })
    }
}

/// How an attempt to connect ends.
#[derive(Debug)]
pub enum ConnectOutcome {
    Connected,
    Failed { message: String },
    TimedOut,
}

/// What follows an attempt to connect.
#[derive(Debug)]
pub enum ConnectAction {
    /// Hand the stream to the audio thread.
    Send { command: AudioCommand },
    /// Tell the application.
    Report { event: MusicPlayerEvent },
}

/// How the application is told that an attempt to connect failed with
/// `outcome`; there is nothing to tell of a connected stream.
pub open spec fn failure_text(outcome: ConnectOutcome) -> Seq<char> {
    match outcome {
        ConnectOutcome::Connected => Seq::empty(),
        ConnectOutcome::Failed { message } => "Unable to start audio stream: "@ + message@,
        ConnectOutcome::TimedOut => "Audio streaming timed out"@,
    }
}

impl Playback {
    /// Takes note that a connection is being made.
    pub fn connect_started(&mut self)
        ensures
            *final(self) == old(self).buffering(true),
    {
        self.is_buffering = true;
    }

    /// Takes note of the end of an attempt to connect for the stream of
    /// `generation`. A connected stream goes on buffering until it is decoded
    /// or dropped.
    pub fn connect_finished(&mut self, generation: u64, outcome: ConnectOutcome) -> (action:
        ConnectAction)
        ensures
            outcome is Connected ==> {
                &&& action == (ConnectAction::Send { command: AudioCommand::Append { generation } })
                &&& *final(self) == *old(self)
            },
            !(outcome is Connected) ==> {
                &&& action matches ConnectAction::Report {
                    event: MusicPlayerEvent::StreamErr { error_message },
                } && error_message@ == failure_text(outcome)
                &&& *final(self) == old(self).buffering(false)
            },
    {
        let error_message: String = match outcome {
            ConnectOutcome::Connected => {
                return ConnectAction::Send { command: AudioCommand::Append { generation } };
            },
            ConnectOutcome::Failed { message } => join(
                "Unable to start audio stream: ",
                message.as_str(),
            ),
            ConnectOutcome::TimedOut => "Audio streaming timed out".to_owned(),
        };
        self.is_buffering = false;
        ConnectAction::Report { event: MusicPlayerEvent::StreamErr { error_message } }
    }
}

/// The event that tells that the audio thread took no stream; `detail` says
/// what it refused.
pub fn append_refused(detail: &str) -> (event: MusicPlayerEvent)
    ensures
        event matches MusicPlayerEvent::StreamErr { error_message } && error_message@
            == "Audio thread receiver dropped: "@ + detail@,
{
    MusicPlayerEvent::StreamErr { error_message: join("Audio thread receiver dropped: ", detail) }
}

/// A request is told with all its headers, each with its name and its value.
pub proof fn law_header_texts_are_their_own(headers: Seq<Header>, index: int)
    requires
        0 <= index < headers.len(),
    ensures
        header_texts(headers).len() == headers.len(),
        header_texts(headers)[index] == (headers[index].name@, headers[index].value@),
{
}

/// What the listener reads of a failure ends with its cause in full, after the
/// same words for every cause of the kind; causes that come as whole messages
/// stand alone.
pub proof fn law_failures_name_their_cause(cause: String, other: String)
    ensures
        (ConnectError::InvalidUri { message: cause }).text() == cause@,
        (ConnectError::Transport { message: cause }).text() == cause@,
        ({
            let text = (ConnectError::UnsupportedScheme { scheme: cause }).text();
            let like = (ConnectError::UnsupportedScheme { scheme: other }).text();
            let words = text.len() - cause@.len();
            &&& words == like.len() - other@.len() && words > 0
            &&& text.skip(words) == cause@
            &&& text.take(words) == like.take(words)
        }),
        ({
            let text = (ConnectError::HttpStatus { status: cause }).text();
            let like = (ConnectError::HttpStatus { status: other }).text();
            let words = text.len() - cause@.len();
            &&& words == like.len() - other@.len() && words > 0
            &&& text.skip(words) == cause@
            &&& text.take(words) == like.take(words)
        }),
        ({
            let text = failure_text(ConnectOutcome::Failed { message: cause });
            let like = failure_text(ConnectOutcome::Failed { message: other });
            let words = text.len() - cause@.len();
            &&& words == like.len() - other@.len() && words > 0
            &&& text.skip(words) == cause@
            &&& text.take(words) == like.take(words)
        }),
{
    reveal_strlit("Unsupported radio stream URL scheme: ");
    reveal_strlit("Radio stream returned HTTP status ");
    reveal_strlit("Unable to start audio stream: ");
}

/// A call of `check_scheme` refuses exactly the schemes other than http and
/// https, and names the one that it refuses.
pub proof fn law_check_scheme_refuses_other_schemes(
    url: StreamUrl,
    answer: Result<(), ConnectError>,
)
    requires
        call_ensures(check_scheme, (&url,), answer),
    ensures
        answer is Ok <==> (url.scheme@ == seq!['h', 't', 't', 'p'] || url.scheme@ == seq![
            'h',
            't',
            't',
            'p',
            's',
        ]),
        answer matches Err(error) ==> (error matches ConnectError::UnsupportedScheme { scheme }
            && scheme@ == url.scheme@),
{
    reveal_strlit("http");
    reveal_strlit("https");
    assert("http"@ =~= seq!['h', 't', 't', 'p']);
    assert("https"@ =~= seq!['h', 't', 't', 'p', 's']);
}

/// A call of `build_request` asks for the very URL, or says what is wrong with
/// it: the scheme first, and then the objection to the URL, word for word.
pub proof fn law_build_request_asks_for_the_url(
    url: StreamUrl,
    checked: Result<(), String>,
    request: Result<StreamRequest, ConnectError>,
)
    requires
        call_ensures(build_request, (&url, checked), request),
    ensures
        ({
            let http = url.scheme@ == "http"@ || url.scheme@ == "https"@;
            &&& request is Ok <==> http && checked is Ok
            &&& request matches Ok(request) ==> request.uri@ == url.text@ && request.method@
                == "GET"@ && request.headers@.len() == 3
            &&& !http ==> (request matches Err(ConnectError::UnsupportedScheme { scheme })
                && scheme@ == url.scheme@)
            &&& http ==> (checked matches Err(message) ==> request == Err::<
                StreamRequest,
                ConnectError,
            >(ConnectError::InvalidUri { message }))
        }),
{
    if let Ok(request) = request {
        assert(header_texts(request.headers@).len() == stream_headers().len());
    }
}

/// A call of `stream_request` does the same with what `hyper` says of the URL.
pub proof fn law_stream_request_asks_for_the_url(
    url: StreamUrl,
    request: Result<StreamRequest, ConnectError>,
)
    requires
        call_ensures(stream_request, (&url,), request),
    ensures
        ({
            let http = url.scheme@ == "http"@ || url.scheme@ == "https"@;
            &&& request is Ok <==> http && uri_check(url.text@) is Ok
            &&& request matches Ok(request) ==> request.uri@ == url.text@ && request.method@
                == "GET"@ && request.headers@.len() == 3
            &&& !http ==> (request matches Err(ConnectError::UnsupportedScheme { scheme })
                && scheme@ == url.scheme@)
            &&& http ==> (uri_check(url.text@) matches Err(text) ==> (request matches Err(
                ConnectError::InvalidUri { message },
            ) && message@ == text))
        }),
{
    if let Ok(request) = request {
        assert(header_texts(request.headers@).len() == stream_headers().len());
    }
}

/// A call of `check_status` accepts exactly the codes of success, and names the
/// status that it refuses.
pub proof fn law_check_status_accepts_success(code: u16, answer: Result<(), ConnectError>)
    requires
        100 <= code <= 999,
        call_ensures(check_status, (code,), answer),
    ensures
        answer is Ok <==> code / 100 == 2,
        answer matches Err(error) ==> (error matches ConnectError::HttpStatus { status } && status@
            == status_text(code)),
{
}

/// A call of `connect_finished` hands a connected stream on under its own
/// generation and leaves playback alone. Of a failure it tells the application,
/// with its cause in full, and ends buffering; all else stays.
pub proof fn law_connect_finished_hands_on_or_reports(
    generation: u64,
    outcome: ConnectOutcome,
    action: ConnectAction,
)
    ensures
        forall|playback: &mut Playback|
            #[trigger] call_ensures(
                Playback::connect_finished,
                (playback, generation, outcome),
                action,
            ) ==> {
                &&& final(playback).has_buffer == playback.has_buffer
                &&& final(playback).is_playing == playback.is_playing
                &&& final(playback).stream_generation == playback.stream_generation
                &&& final(playback).is_buffering == (playback.is_buffering && outcome is Connected)
                &&& action is Send <==> outcome is Connected
                &&& action matches ConnectAction::Send { command } ==> command == (
                AudioCommand::Append { generation })
                &&& action matches ConnectAction::Report { event } ==> {
                    &&& event matches MusicPlayerEvent::StreamErr { error_message }
                    &&& error_message@.len() > 0
                    &&& outcome matches ConnectOutcome::Failed { message } ==> {
                        let words = error_message@.len() - message@.len();
                        &&& words > 0
                        &&& error_message@.skip(words) == message@
                    }
                }
            },
{
    reveal_strlit("Unable to start audio stream: ");
    reveal_strlit("Audio streaming timed out");
    if let ConnectOutcome::Failed { message } = outcome {
        let text = failure_text(outcome);
        assert(text.skip(text.len() - message@.len()) =~= message@);
    }
}

/// A call of `connect_started` marks that a connection is being made, and
/// nothing else.
pub proof fn law_connect_started_marks_buffering()
    ensures
        forall|playback: &mut Playback|
            #[trigger] call_ensures(Playback::connect_started, (playback,), ()) ==> {
                &&& final(playback).is_buffering
                &&& final(playback).has_buffer == playback.has_buffer
                &&& final(playback).is_playing == playback.is_playing
                &&& final(playback).stream_generation == playback.stream_generation
            },
{
}

/// A call of `append_refused` tells what was refused in full, after the same
/// words whatever it was.
pub proof fn law_append_refused_names_the_detail(
    detail: &str,
    event: MusicPlayerEvent,
    other: &str,
    like: MusicPlayerEvent,
)
    requires
        call_ensures(append_refused, (detail,), event),
        call_ensures(append_refused, (other,), like),
    ensures
        event matches MusicPlayerEvent::StreamErr { error_message: text } && (
        like matches MusicPlayerEvent::StreamErr { error_message: same } && {
            let words = text@.len() - detail@.len();
            &&& words == same@.len() - other@.len() && words > 0
            &&& text@.skip(words) == detail@
            &&& text@.take(words) == same@.take(words)
        }),
{
    reveal_strlit("Audio thread receiver dropped: ");
    if let MusicPlayerEvent::StreamErr { error_message } = event {
        let words = error_message@.len() - detail@.len();
        assert(error_message@.skip(words) =~= detail@);
    }
}

} // verus!
