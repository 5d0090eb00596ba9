//! The requests made to the synthesis service for its voice catalogues and
//! translation languages, and the startup notification.
use vstd::prelude::*;

verus! {

/// The synthesis engine whose catalogue is asked for.
#[derive(Clone, Copy, Debug, PartialEq, Eq, Structural)]
pub enum TTSMode {
    Gtts,
    Polly,
    Espeak,
    Gcloud,
}

/// The name of a mode in the service's query string.
pub open spec fn mode_name(mode: TTSMode) -> Seq<char> {
    match mode {
        TTSMode::Gtts => seq!['g', 't', 't', 's'],
        TTSMode::Polly => seq!['p', 'o', 'l', 'l', 'y'],
        TTSMode::Espeak => seq!['e', 's', 'p', 'e', 'a', 'k'],
        TTSMode::Gcloud => seq!['g', 'c', 'l', 'o', 'u', 'd'],
    }
}

impl TTSMode {
    /// The name of the mode in the service's query string.
    pub fn as_str(self) -> (r: &'static str)
        ensures
            r@ == mode_name(self),
    {
        match self {
            TTSMode::Gtts => {
                proof {
                    reveal_strlit("gtts");
                }
                "gtts"
            },
            TTSMode::Polly => {
                proof {
                    reveal_strlit("polly");
                }
                "polly"
            },
            TTSMode::Espeak => {
                proof {
                    reveal_strlit("espeak");
                }
                "espeak"
            },
            TTSMode::Gcloud => {
                proof {
                    reveal_strlit("gcloud");
                }
                "gcloud"
            },
        }
    }
}

/// A GET request to the service: the path that replaces the base URL's path,
/// the query pairs appended in order, and the `Authorization` header value.
pub struct FetchRequest {
    pub path: String,
    pub query: Vec<(String, String)>,
    pub auth_header: String,
}

/// The query pairs as sequences of chars.
pub open spec fn pairs_view(q: Seq<(String, String)>) -> Seq<(Seq<char>, Seq<char>)> {
    q.map_values(|p: (String, String)| (p.0@, p.1@))
}

/// The header value sent for an optional key: the key, or empty when there is none.
pub open spec fn auth_value(auth_key: Option<&str>) -> Seq<char> {
    match auth_key {
        Some(k) => k@,
        None => Seq::empty(),
    }
}

fn auth_header_of(auth_key: Option<&str>) -> (r: String)
    ensures
        r@ == auth_value(auth_key),
{
    match auth_key {
        Some(k) => k.to_owned(),
        None => String::new(),
    }
}

/// The request for the voices of `mode`: path `voices`, query
/// `mode=<mode>&raw=true`.
pub fn voices_request(mode: TTSMode, auth_key: Option<&str>) -> (r: FetchRequest)
    ensures
        r.path@ == seq!['v', 'o', 'i', 'c', 'e', 's'],
        pairs_view(r.query@) == seq![
            (seq!['m', 'o', 'd', 'e'], mode_name(mode)),
            (seq!['r', 'a', 'w'], seq!['t', 'r', 'u', 'e']),
        ],
        r.auth_header@ == auth_value(auth_key),
{
    let path = "voices".to_owned();
    let mode_key = "mode".to_owned();
    let raw_key = "raw".to_owned();
    let raw_value = "true".to_owned();
    let mode_value = mode.as_str().to_owned();
    proof {
        reveal_strlit("voices");
        reveal_strlit("mode");
        reveal_strlit("raw");
        reveal_strlit("true");
        assert(path@ =~= seq!['v', 'o', 'i', 'c', 'e', 's']);
        assert(mode_key@ =~= seq!['m', 'o', 'd', 'e']);
        assert(raw_key@ =~= seq!['r', 'a', 'w']);
        assert(raw_value@ =~= seq!['t', 'r', 'u', 'e']);
    }
    let mut query: Vec<(String, String)> = Vec::new();
    query.push((mode_key, mode_value));
    query.push((raw_key, raw_value));
    proof {
        assert(pairs_view(query@) =~= seq![
            (seq!['m', 'o', 'd', 'e'], mode_name(mode)),
            (seq!['r', 'a', 'w'], seq!['t', 'r', 'u', 'e']),
        ]);
    }
    FetchRequest { path, query, auth_header: auth_header_of(auth_key) }
}

/// The request for the translation languages: path `translation_languages`,
/// no query.
pub fn translation_languages_request(auth_key: Option<&str>) -> (r: FetchRequest)
    ensures
        r.path@ == seq![
            't', 'r', 'a', 'n', 's', 'l', 'a', 't', 'i', 'o', 'n', '_',
            'l', 'a', 'n', 'g', 'u', 'a', 'g', 'e', 's',
        ],
        r.query@.len() == 0,
        r.auth_header@ == auth_value(auth_key),
{
    let path = "translation_languages".to_owned();
    proof {
        reveal_strlit("translation_languages");
        assert(path@ =~= seq![
            't', 'r', 'a', 'n', 's', 'l', 'a', 't', 'i', 'o', 'n', '_',
            'l', 'a', 'n', 'g', 'u', 'a', 'g', 'e', 's',
        ]);
    }
    FetchRequest { path, query: Vec::new(), auth_header: auth_header_of(auth_key) }
}

/// Why startup failed.
#[derive(Clone, Copy, Debug, PartialEq, Eq, Structural)]
pub enum StartupError {
    /// A webhook URL is not of the shape `.../webhooks/{id}/{token}`.
    MalformedWebhookUrl,
    /// The service answered with a non-success status.
    HttpStatus(u16),
    /// The body did not decode into the expected shape.
    Decode,
    /// The startup message was sent but no message came back.
    NotificationDelivery,
}

/// The fixed text of the startup message.
pub open spec fn startup_text() -> Seq<char> {
    seq![
        '*', '*', 'T', 'T', 'S', ' ', 'B', 'o', 't', ' ', 'i', 's', ' ', 's', 't', 'a', 'r',
        't', 'i', 'n', 'g', ' ', 'u', 'p', '*', '*',
    ]
}

/// The text posted to the logs webhook at startup.
pub fn startup_message_content() -> (r: String)
    ensures
        r@ == startup_text(),
{
    let text = "**TTS Bot is starting up**".to_owned();
    proof {
        reveal_strlit("**TTS Bot is starting up**");
        assert(text@ =~= startup_text());
    }
    text
}

/// The id of the startup message, from what executing the webhook with
/// confirmation gave back: a missing message is a delivery failure.
pub fn startup_message_id(created: Option<u64>) -> (r: Result<u64, StartupError>)
    ensures
        match created {
            Some(id) => r == Ok::<u64, StartupError>(id),
            None => r == Err::<u64, StartupError>(StartupError::NotificationDelivery),
        },
{
    match created {
        Some(id) => Ok(id),
        None => Err(StartupError::NotificationDelivery),
    }
}

} // verus!
