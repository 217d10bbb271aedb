//! Radio stations and their URLs.

use crate::audio::error::PlayerError;
use crate::text::same;
use vstd::prelude::*;

verus! {

/// A radio station.
#[derive(Debug)]
pub struct Stream {
    pub name: String,
    pub url_string: String,
}

/// The text of a [`Stream`].
pub struct StreamText {
    pub name: Seq<char>,
    pub url_string: Seq<char>,
}

impl View for Stream {
    type V = StreamText;

    open spec fn view(&self) -> StreamText {
        StreamText { name: self.name@, url_string: self.url_string@ }
    }
}

/// The texts of `streams`.
pub open spec fn stream_texts(streams: Seq<Stream>) -> Seq<StreamText> {
    streams.map_values(|stream: Stream| stream@)
}

/// A parsed URL: its scheme, in lower case and without the colon, and the
/// whole URL in normal form.
#[derive(Debug)]
pub struct StreamUrl {
    pub scheme: String,
    pub text: String,
}

/// The text of a [`StreamUrl`].
pub struct UrlText {
    pub scheme: Seq<char>,
    pub text: Seq<char>,
}

impl View for StreamUrl {
    type V = UrlText;

    open spec fn view(&self) -> UrlText {
        UrlText { scheme: self.scheme@, text: self.text@ }
    }
}

/// What `url::Url::parse` makes of a text: the scheme and the normal form of
/// the URL, or the message of the error.
pub uninterp spec fn url_parse(input: Seq<char>) -> Result<(Seq<char>, Seq<char>), Seq<char>>;

/// The texts in the result of a parse.
pub open spec fn parsed_text(parsed: Result<StreamUrl, String>) -> Result<
    (Seq<char>, Seq<char>),
    Seq<char>,
> {
    match parsed {
        Ok(url) => Ok((url.scheme@, url.text@)),
        Err(message) => Err(message@),
    }
}

/// Calls `url::Url::parse`, and takes the scheme (`Url::scheme`) and the
/// serialization (`Url::as_str`) of its URL, or the text of its error.
///
/// Believed without proof: the parse depends on the text alone, so that its
/// result has a name, [`url_parse`].
#[verifier::external_body]
fn parse_url(input: &str) -> (parsed: Result<StreamUrl, String>)
    ensures
        parsed_text(parsed) == url_parse(input@),
{
    match url::Url::parse(input) {
        Ok(url) => Ok(
            StreamUrl { scheme: url.scheme().to_string(), text: url.as_str().to_string() },
        ),
        Err(error) => Err(error.to_string()),
    }
}

/// The schemes over which a stream can be fetched.
pub open spec fn supported_scheme(scheme: Seq<char>) -> bool {
    scheme == "http"@ || scheme == "https"@
}

/// The text is a URL over which a stream can be fetched.
pub open spec fn playable_url(input: Seq<char>) -> bool {
    url_parse(input) matches Ok((scheme, text)) && supported_scheme(scheme)
}

impl StreamUrl {
    /// Whether a stream can be fetched over the scheme of this URL.
    pub fn is_supported(&self) -> (supported: bool)
        ensures
            supported == supported_scheme(self@.scheme),
    {
        same(&self.scheme, "http") || same(&self.scheme, "https")
    }
}

/// What becomes of a station of the station list.
#[derive(Debug)]
pub enum StreamCheck {
    /// It can be played.
    Playable,
    /// Its URL has a scheme that cannot be played.
    UnsupportedScheme { url: StreamUrl },
    /// Its URL cannot be parsed.
    Invalid { error: PlayerError },
}

/// Judges a station by its parsed URL.
pub fn check_url(url: Result<StreamUrl, PlayerError>) -> (check: StreamCheck)
    ensures
        match url {
            Ok(url) => if supported_scheme(url@.scheme) {
                check == StreamCheck::Playable
            } else {
                check == (StreamCheck::UnsupportedScheme { url })
            },
            Err(error) => check == (StreamCheck::Invalid { error }),
        },
{
    match url {
        Ok(url) => if url.is_supported() {
            StreamCheck::Playable
        } else {
            StreamCheck::UnsupportedScheme { url }
        },
        Err(error) => StreamCheck::Invalid { error },
    }
}

impl Stream {
    /// Parses the URL of this station.
    pub fn url(&self) -> (url: Result<StreamUrl, PlayerError>)
        ensures
            match url_parse(self@.url_string) {
                Ok((scheme, text)) => url matches Ok(url) && url@ == (UrlText { scheme, text }),
                Err(message) => url matches Err(PlayerError::InvalidUrl { message: m }) && m@
                    == message,
            },
    {
        match parse_url(self.url_string.as_str()) {
            Ok(url) => Ok(url),
            Err(message) => Err(PlayerError::InvalidUrl { message }),
        }
    }

    /// Judges whether this station can be played.
    pub fn check(&self) -> (check: StreamCheck)
        ensures
            match url_parse(self@.url_string) {
                Ok((scheme, text)) => if supported_scheme(scheme) {
                    check == StreamCheck::Playable
                } else {
                    check matches StreamCheck::UnsupportedScheme { url } && url@ == (UrlText {
                        scheme,
                        text,
                    })
                },
                Err(message) => check matches StreamCheck::Invalid {
                    error: PlayerError::InvalidUrl { message: m },
                } && m@ == message,
            },
            (check is Playable) == playable_url(self@.url_string),
    {
        check_url(self.url())
    }
}

/// Streams are fetched over http and https, written in small letters, and over
/// nothing else; and a station can be played exactly when its URL is such a
/// one.
pub proof fn law_only_http_is_playable(input: Seq<char>)
    ensures
        playable_url(input) <==> (url_parse(input) matches Ok((scheme, text)) && (scheme == seq![
            'h',
            't',
            't',
            'p',
        ] || scheme == seq!['h', 't', 't', 'p', 's'])),
{
    reveal_strlit("http");
    reveal_strlit("https");
    assert("http"@ =~= seq!['h', 't', 't', 'p']);
    assert("https"@ =~= seq!['h', 't', 't', 'p', 's']);
}

/// The list of stations is taken as it is, name by name and URL by URL.
pub proof fn law_station_texts_are_their_own(streams: Seq<Stream>, index: int)
    requires
        0 <= index < streams.len(),
    ensures
        stream_texts(streams).len() == streams.len(),
        stream_texts(streams)[index].name == streams[index].name@,
        stream_texts(streams)[index].url_string == streams[index].url_string@,
{
}

/// What is told of a URL is what it holds.
pub proof fn law_url_texts_are_their_own(url: StreamUrl)
    ensures
        url@.scheme == url.scheme@,
        url@.text == url.text@,
{
}

/// A call of `check` calls a station playable exactly if its URL can be parsed
/// and is one of http or https, and says otherwise what is wrong: the URL with
/// its scheme, or the words of the parser.
pub proof fn law_check_judges_by_the_url(stream: Stream, check: StreamCheck)
    requires
        call_ensures(Stream::check, (&stream,), check),
    ensures
        match url_parse(stream.url_string@) {
            Ok((scheme, text)) => {
                &&& check is Playable <==> scheme == "http"@ || scheme == "https"@
                &&& !(check is Playable) ==> (check matches StreamCheck::UnsupportedScheme { url }
                    && url.scheme@ == scheme && url.text@ == text)
            },
            Err(words) => check matches StreamCheck::Invalid {
                error: PlayerError::InvalidUrl { message },
            } && message@ == words,
        },
{
}

/// A call of `url` gives what the parser gives: the scheme and the text of the
/// URL, or its words.
pub proof fn law_url_is_that_of_the_parser(stream: Stream, url: Result<StreamUrl, PlayerError>)
    requires
        call_ensures(Stream::url, (&stream,), url),
    ensures
        match url_parse(stream.url_string@) {
            Ok((scheme, text)) => url matches Ok(url) && url.scheme@ == scheme && url.text@ == text,
            Err(words) => url matches Err(PlayerError::InvalidUrl { message }) && message@ == words,
        },
{
}

/// A call of `check_url` calls exactly the URLs of http and https playable, and
/// hands back what it refuses.
pub proof fn law_check_url_hands_back_what_it_refuses(
    url: Result<StreamUrl, PlayerError>,
    check: StreamCheck,
)
    requires
        call_ensures(check_url, (url,), check),
    ensures
        match url {
            Ok(url) => {
                &&& check is Playable <==> url.scheme@ == "http"@ || url.scheme@ == "https"@
                &&& !(check is Playable) ==> check == (StreamCheck::UnsupportedScheme { url })
            },
            Err(error) => check == (StreamCheck::Invalid { error }),
        },
{
}

} // verus!
