//! From a video identifier to the command that transcodes its audio: what
//! to fetch next, what to make of each answer, and how each failure is
//! reported. The fetching itself is left to the caller.
use crate::text::{chars_of, opt_string_view, string_of_range, strings_view};
use crate::url_calls::{address_text, form_pairs, normalize, pairs_view, parse_form};
use crate::youtube::cipher::{apply_calls, apply_signature_transformation, CallText, FunctionText};
use crate::youtube::extract::{
    base_js_url, first_group, group_of_first_matching, name_patterns, object_functions, owner_of,
    routine_calls, signature_function_calls, signature_function_name,
    signature_transform_function_name, signature_transform_function_parts, sts, BASE_JS_PATTERN,
    SCRIPT_ORIGIN, STS_PATTERN,
};
use crate::youtube::streams::{
    decode_streams, info_of, mp4_itags, mp4_preference, preferred, select_stream, sign_address,
    signed_address, streams_of_map, strs_view, streams_view, FmtStream, FmtStreamText,
    GetVideoInfo,
};
use vstd::prelude::*;
use vstd::string::StringExecFns;

verus! {

/// Why a video's audio could not be resolved.
#[derive(Debug, Clone, Copy, PartialEq, Eq)]
pub enum ResolveError {
    /// A request could not be sent or its answer could not be read.
    NetworkFailure,
    /// The provider answered the metadata request with this status.
    UpstreamStatus(u16),
    /// The page or the script does not hold what was looked for.
    ExtractionFailure,
    /// The metadata is not of the expected shape.
    DecodeFailure,
    /// The video has no stream in a wanted format.
    NotFound,
    /// The transcoder could not be started.
    ProcessSpawnFailure,
}

pub const STATUS_OK: u16 = 200;

pub const STATUS_NOT_FOUND: u16 = 404;

pub const STATUS_INTERNAL_ERROR: u16 = 500;

impl ResolveError {
    /// The status that the failure is answered with.
    pub open spec fn status(self) -> u16 {
        match self {
            ResolveError::NotFound => STATUS_NOT_FOUND,
            ResolveError::UpstreamStatus(code) => code,
            _ => STATUS_INTERNAL_ERROR,
        }
    }

    /// The status that the failure is answered with: a missing stream is
    /// "not found", the provider's own status is passed on, and everything
    /// else is an internal error.
    pub fn status_code(&self) -> (code: u16)
        ensures
            code == self.status(),
    {
        match self {
            ResolveError::NotFound => STATUS_NOT_FOUND,
            ResolveError::UpstreamStatus(code) => *code,
            _ => STATUS_INTERNAL_ERROR,
        }
    }
}

/// Where the embed pages are.
pub const EMBED_URL_HEAD: &'static str = "https://www.youtube.com/embed/";

/// Where the metadata is asked for.
pub const INFO_URL: &'static str = "https://youtube.com/get_video_info";

/// The transcoder.
pub const TRANSCODER: &'static str = "ffmpeg";

/// A stream that can be played, and what to call it.
#[derive(Debug, PartialEq, Eq, Clone)]
pub struct Playable {
    pub url: String,
    pub title: String,
    pub author: String,
}

/// A playable stream as plain text.
pub struct PlayableText {
    pub url: Seq<char>,
    pub title: Seq<char>,
    pub author: Seq<char>,
}

impl View for Playable {
    type V = PlayableText;

    open spec fn view(&self) -> PlayableText {
        PlayableText { url: self.url@, title: self.title@, author: self.author@ }
    }
}

/// The identifier that a request asks for. A request with one path segment
/// names it there. One with more carries it in its query: the identifier is
/// what follows the first two characters of the query, whatever these are
/// (in `v=...` they are the name and the equals sign); a query of fewer
/// than two characters carries none.
pub open spec fn requested_id(segments: Seq<Seq<char>>, query: Option<Seq<char>>) -> Option<Seq<char>> {
    if segments.len() == 0 {
        None
    } else if segments.len() == 1 {
        Some(segments[0])
    } else {
        match query {
            Some(query) => if query.len() >= 2 {
                Some(query.skip(2))
            } else {
                None
            },
            None => None,
        }
    }
}

/// The functions and calls of the decoding routine of a script.
pub open spec fn decoding_routine(script: Seq<char>) -> Option<(Seq<FunctionText>, Seq<CallText>)> {
    match group_of_first_matching(name_patterns(), script) {
        Some(name) => match routine_calls(script, name) {
            Some(calls) => if calls.len() == 0 {
                None
            } else {
                match owner_of(calls[0].name) {
                    Some(owner) => match object_functions(script, owner) {
                        Some(functions) => Some((functions, calls)),
                        None => None,
                    },
                    None => None,
                }
            },
            None => None,
        },
        None => None,
    }
}

/// The signature as the script's routine decodes it.
pub open spec fn decoded_signature(script: Seq<char>, signature: Seq<char>) -> Option<Seq<char>> {
    match decoding_routine(script) {
        Some((functions, calls)) => Some(apply_calls(signature, functions, calls)),
        None => None,
    }
}

/// The address at which a stream can be played. A stream without a
/// signature is played at its own address; one with a signature at its
/// address with the decoded signature in the query.
pub open spec fn playable_address(stream: FmtStreamText, script: Seq<char>) -> Result<Seq<char>, ResolveError> {
    match address_text(stream.url) {
        None => Err(ResolveError::DecodeFailure),
        Some(plain) => match stream.signature {
            None => Ok(plain),
            Some(signature) => match decoded_signature(script, signature) {
                None => Err(ResolveError::ExtractionFailure),
                Some(decoded) => match signed_address(stream.url, decoded) {
                    Some(address) => Ok(address),
                    None => Err(ResolveError::DecodeFailure),
                },
            },
        },
    }
}

/// The stream to play for the metadata `body`, chosen by `preference`.
pub open spec fn resolved(body: Seq<char>, script: Seq<char>, preference: Seq<Seq<char>>) -> Result<
    PlayableText,
    ResolveError,
> {
    match form_pairs(body) {
        None => Err(ResolveError::DecodeFailure),
        Some(pairs) => match info_of(pairs) {
            None => Err(ResolveError::DecodeFailure),
            Some(info) => match streams_of_map(info.url_encoded_fmt_stream_map) {
                None => Err(ResolveError::DecodeFailure),
                Some(streams) => match preferred(streams, preference) {
                    None => Err(ResolveError::NotFound),
                    Some(i) => match playable_address(streams[i], script) {
                        Ok(url) => Ok(PlayableText { url, title: info.title, author: info.author }),
                        Err(error) => Err(error),
                    },
                },
            },
        },
    }
}

/// Where the metadata can be read but no stream has an identifier of the
/// preference list, the resolution ends in `NotFound`, whatever the script
/// holds.
pub proof fn lemma_absent_identifiers_are_not_found(
    body: Seq<char>,
    script: Seq<char>,
    preference: Seq<Seq<char>>,
)
    requires
        form_pairs(body) is Some,
        info_of(form_pairs(body)->0) is Some,
        streams_of_map(info_of(form_pairs(body)->0)->0.url_encoded_fmt_stream_map) is Some,
        forall|p: int, i: int|
            #![trigger preference[p], streams_of_map(info_of(form_pairs(body)->0)->0.url_encoded_fmt_stream_map)->0[i]]
            0 <= p < preference.len() && 0 <= i < streams_of_map(
                info_of(form_pairs(body)->0)->0.url_encoded_fmt_stream_map,
            )->0.len() ==> streams_of_map(
                info_of(form_pairs(body)->0)->0.url_encoded_fmt_stream_map,
            )->0[i].itag != preference[p],
    ensures
        resolved(body, script, preference) == Err::<PlayableText, ResolveError>(ResolveError::NotFound),
{
    let streams = streams_of_map(info_of(form_pairs(body)->0)->0.url_encoded_fmt_stream_map)->0;
    crate::youtube::streams::lemma_absent_identifiers_choose_nothing(streams, preference);
}

/// The arguments that make the transcoder read `url` and write MP3 with
/// the two tags to its standard output.
pub open spec fn transcoder_arguments(playable: PlayableText) -> Seq<Seq<char>> {
    seq![
        "-i"@,
        playable.url,
        "-f"@,
        "mp3"@,
        "-metadata"@,
        "title=\""@ + playable.title + "\""@,
        "-metadata"@,
        "author=\""@ + playable.author + "\""@,
        "pipe:1"@,
    ]
}

/// The query of the metadata request.
pub open spec fn info_query(id: Seq<char>, token: Seq<char>) -> Seq<(Seq<char>, Seq<char>)> {
    seq![("video_id"@, id), ("sts"@, token), ("el"@, "detailpage"@)]
}

/// What a resolution waits for.
pub enum Stage {
    /// The embed page of the video.
    EmbedPage { id: String },
    /// The client script that the embed page names.
    ClientScript { id: String },
    /// The metadata; the script is kept to decode a signature.
    VideoInfo { base_js: String },
    /// Nothing more.
    Done,
}

/// How a fetch ended.
pub enum Outcome {
    /// The request could not be sent or its answer could not be read.
    Failed,
    /// The answer.
    Fetched { status: u16, body: String },
}

/// What the caller is to do next.
pub enum Action {
    /// Fetch `url` with `query`, and come back with the outcome.
    Get { url: String, query: Vec<(String, String)> },
    /// Run `program` with `args` and hand its standard output on.
    Transcode { program: String, args: Vec<String> },
    /// Report the failure.
    Fail(ResolveError),
    /// Nothing: the resolution has ended before.
    Stop,
}

/// A stage as plain text.
pub enum StageText {
    EmbedPage { id: Seq<char> },
    ClientScript { id: Seq<char> },
    VideoInfo { base_js: Seq<char> },
    Done,
}

/// An outcome as plain text.
pub enum OutcomeText {
    Failed,
    Fetched { status: u16, body: Seq<char> },
}

/// An action as plain text.
pub enum ActionText {
    Get { url: Seq<char>, query: Seq<(Seq<char>, Seq<char>)> },
    Transcode { program: Seq<char>, args: Seq<Seq<char>> },
    Fail(ResolveError),
    Stop,
}

impl View for Stage {
    type V = StageText;

    open spec fn view(&self) -> StageText {
        match self {
            Stage::EmbedPage { id } => StageText::EmbedPage { id: id@ },
            Stage::ClientScript { id } => StageText::ClientScript { id: id@ },
            Stage::VideoInfo { base_js } => StageText::VideoInfo { base_js: base_js@ },
            Stage::Done => StageText::Done,
        }
    }
}

impl View for Outcome {
    type V = OutcomeText;

    open spec fn view(&self) -> OutcomeText {
        match self {
            Outcome::Failed => OutcomeText::Failed,
            Outcome::Fetched { status, body } => OutcomeText::Fetched { status: *status, body: body@ },
        }
    }
}

impl View for Action {
    type V = ActionText;

    open spec fn view(&self) -> ActionText {
        match self {
            Action::Get { url, query } => ActionText::Get { url: url@, query: pairs_view(query@) },
            Action::Transcode { program, args } => ActionText::Transcode {
                program: program@,
                args: strings_view(args@),
            },
            Action::Fail(error) => ActionText::Fail(*error),
            Action::Stop => ActionText::Stop,
        }
    }
}

/// The first step: fetch the embed page of the video.
pub open spec fn first_step(id: Seq<char>) -> (StageText, ActionText) {
    (
        StageText::EmbedPage { id },
        ActionText::Get { url: EMBED_URL_HEAD@ + id, query: Seq::empty() },
    )
}

/// The end of a resolution by a failure.
pub open spec fn failed(error: ResolveError) -> (StageText, ActionText) {
    (StageText::Done, ActionText::Fail(error))
}

/// The step that follows an outcome. Every failed fetch is a network
/// failure. The embed page must name the client script, which is fetched
/// next; the script must hold the client token, with which the metadata is
/// asked for; the metadata must come with status 200 and resolve to a
/// stream, for which the transcoder is started. Only the status of the
/// metadata is looked at.
pub open spec fn step(stage: StageText, outcome: OutcomeText, preference: Seq<Seq<char>>) -> (
    StageText,
    ActionText,
) {
    match stage {
        StageText::Done => (StageText::Done, ActionText::Stop),
        _ => match outcome {
            OutcomeText::Failed => failed(ResolveError::NetworkFailure),
            OutcomeText::Fetched { status, body } => match stage {
                StageText::EmbedPage { id } => match first_group(BASE_JS_PATTERN@, false, body) {
                    Some(path) => (
                        StageText::ClientScript { id },
                        ActionText::Get { url: SCRIPT_ORIGIN@ + path, query: Seq::empty() },
                    ),
                    None => failed(ResolveError::ExtractionFailure),
                },
                StageText::ClientScript { id } => match first_group(STS_PATTERN@, false, body) {
                    Some(token) => (
                        StageText::VideoInfo { base_js: body },
                        ActionText::Get { url: INFO_URL@, query: info_query(id, token) },
                    ),
                    None => failed(ResolveError::ExtractionFailure),
                },
                StageText::VideoInfo { base_js } => if status != STATUS_OK {
                    failed(ResolveError::UpstreamStatus(status))
                } else {
                    match resolved(body, base_js, preference) {
                        Ok(playable) => (
                            StageText::Done,
                            ActionText::Transcode {
                                program: TRANSCODER@,
                                args: transcoder_arguments(playable),
                            },
                        ),
                        Err(error) => failed(error),
                    }
                },
                StageText::Done => (StageText::Done, ActionText::Stop),
            },
        },
    }
}

/// The identifier that a request asks for.
pub fn video_id(segments: &Vec<String>, query: Option<&str>) -> (id: Option<String>)
    ensures
        opt_string_view(id) == requested_id(
            strings_view(segments@),
            match query {
                Some(query) => Some(query@),
                None => None,
            },
        ),
{
    if segments.len() == 0 {
        None
    } else if segments.len() == 1 {
        Some(segments[0].clone())
    } else {
        match query {
            Some(query) => {
                let chars = chars_of(query);
                if chars.len() >= 2 {
                    let id = string_of_range(&chars, 2, chars.len());
                    assert(chars@.subrange(2, chars.len() as int) =~= query@.skip(2));
                    Some(id)
                } else {
                    None
                }
            },
            None => None,
        }
    }
}

/// Decodes a signature by the routine found in the client script. None
/// where the routine's name, its calls, their owner or the owner's
/// functions cannot be found.
pub fn decode_signature(base_js: &str, signature: &str) -> (decoded: Option<String>)
    ensures
        opt_string_view(decoded) == decoded_signature(base_js@, signature@),
{
    let name = match signature_function_name(base_js) {
        Some(name) => name,
        None => {
            return None;
        },
    };
    let calls = match signature_function_calls(base_js, name) {
        Some(calls) => calls,
        None => {
            return None;
        },
    };
    if calls.len() == 0 {
        return None;
    }
    let owner = match signature_transform_function_name(&calls) {
        Some(owner) => owner,
        None => {
            return None;
        },
    };
    let functions = match signature_transform_function_parts(base_js, owner.as_str()) {
        Some(functions) => functions,
        None => {
            return None;
        },
    };
    Some(apply_signature_transformation(signature, functions, calls))
}

/// The address at which `stream` can be played.
pub fn stream_address(stream: &FmtStream, base_js: &str) -> (address: Result<String, ResolveError>)
    ensures
        match address {
            Ok(address) => playable_address(stream@, base_js@) == Ok::<Seq<char>, ResolveError>(address@),
            Err(error) => playable_address(stream@, base_js@) == Err::<Seq<char>, ResolveError>(error),
        },
{
    let plain = match normalize(stream.url.as_str()) {
        Ok(plain) => plain,
        Err(_) => {
            return Err(ResolveError::DecodeFailure);
        },
    };
    match &stream.signature {
        None => Ok(plain),
        Some(signature) => match decode_signature(base_js, signature.as_str()) {
            None => Err(ResolveError::ExtractionFailure),
            Some(decoded) => match sign_address(stream.url.as_str(), decoded.as_str()) {
                Some(address) => Ok(address),
                None => Err(ResolveError::DecodeFailure),
            },
        },
    }
}

/// What a resolution gave, as plain text.
pub open spec fn resolution_view(resolution: Result<Playable, ResolveError>) -> Result<
    PlayableText,
    ResolveError,
> {
    match resolution {
        Ok(playable) => Ok(playable@),
        Err(error) => Err(error),
    }
}

/// Resolves the metadata `body` to a stream that can be played: reads the
/// metadata and its format map, chooses a stream by `preference`, and
/// works out its address with the help of the client script.
pub fn resolve_stream(body: &str, base_js: &str, preference: &Vec<&str>) -> (resolution: Result<
    Playable,
    ResolveError,
>)
    ensures
        resolution_view(resolution) == resolved(body@, base_js@, strs_view(preference@)),
{
    let pairs = match parse_form(body) {
        Ok(pairs) => pairs,
        Err(_) => {
            return Err(ResolveError::DecodeFailure);
        },
    };
    let info = match GetVideoInfo::from_pairs(&pairs) {
        Some(info) => info,
        None => {
            return Err(ResolveError::DecodeFailure);
        },
    };
    let streams = match decode_streams(info.url_encoded_fmt_stream_map.as_str()) {
        Some(streams) => streams,
        None => {
            return Err(ResolveError::DecodeFailure);
        },
    };
    let place = match select_stream(&streams, preference) {
        Some(place) => place,
        None => {
            return Err(ResolveError::NotFound);
        },
    };
    assert(streams_view(streams@)[place as int] == streams@[place as int]@);
    match stream_address(&streams[place], base_js) {
        Ok(url) => Ok(Playable { url, title: info.title, author: info.author }),
        Err(error) => Err(error),
    }
}

/// The arguments for the transcoder.
pub fn transcode_args(playable: &Playable) -> (args: Vec<String>)
    ensures
        strings_view(args@) == transcoder_arguments(playable@),
{
    let mut args: Vec<String> = Vec::new();
    args.push(String::from_str("-i"));
    args.push(playable.url.clone());
    args.push(String::from_str("-f"));
    args.push(String::from_str("mp3"));
    args.push(String::from_str("-metadata"));
    args.push(String::from_str("title=\"").concat(playable.title.as_str()).concat("\""));
    args.push(String::from_str("-metadata"));
    args.push(String::from_str("author=\"").concat(playable.author.as_str()).concat("\""));
    args.push(String::from_str("pipe:1"));
    assert(strings_view(args@) =~= transcoder_arguments(playable@));
    args
}

/// Begins the resolution of the video `id`.
pub fn begin(id: &str) -> (next: (Stage, Action))
    ensures
        (next.0@, next.1@) == first_step(id@),
{
    let query: Vec<(String, String)> = Vec::new();
    assert(pairs_view(query@) =~= Seq::empty());
    (
        Stage::EmbedPage { id: String::from_str(id) },
        Action::Get { url: String::from_str(EMBED_URL_HEAD).concat(id), query },
    )
}

/// Takes the outcome of the last fetch and says what to do next, with the
/// formats that can be transcoded as the preference.
pub fn advance(stage: Stage, outcome: Outcome) -> (next: (Stage, Action))
    ensures
        (next.0@, next.1@) == step(stage@, outcome@, mp4_preference()),
{
    let (status, body) = match outcome {
        Outcome::Failed => {
            return match stage {
                Stage::Done => (Stage::Done, Action::Stop),
                _ => (Stage::Done, Action::Fail(ResolveError::NetworkFailure)),
            };
        },
        Outcome::Fetched { status, body } => (status, body),
    };
    match stage {
        Stage::Done => (Stage::Done, Action::Stop),
        Stage::EmbedPage { id } => match base_js_url(body.as_str()) {
            Some(url) => {
                let query: Vec<(String, String)> = Vec::new();
                assert(pairs_view(query@) =~= Seq::empty());
                (Stage::ClientScript { id }, Action::Get { url, query })
            },
            None => (Stage::Done, Action::Fail(ResolveError::ExtractionFailure)),
        },
        Stage::ClientScript { id } => {
            let token = match sts(body.as_str()) {
                Some(token) => Some(String::from_str(token)),
                None => None,
            };
            match token {
                Some(token) => {
                    let mut query: Vec<(String, String)> = Vec::new();
                    query.push((String::from_str("video_id"), id));
                    query.push((String::from_str("sts"), token));
                    query.push((String::from_str("el"), String::from_str("detailpage")));
                    assert(pairs_view(query@) =~= info_query(id@, token@));
                    (
                        Stage::VideoInfo { base_js: body },
                        Action::Get { url: String::from_str(INFO_URL), query },
                    )
                },
                None => (Stage::Done, Action::Fail(ResolveError::ExtractionFailure)),
            }
        },
        Stage::VideoInfo { base_js } => {
            if status != STATUS_OK {
                (Stage::Done, Action::Fail(ResolveError::UpstreamStatus(status)))
            } else {
                let preference = mp4_itags();
                match resolve_stream(body.as_str(), base_js.as_str(), &preference) {
                    Ok(playable) => (
                        Stage::Done,
                        Action::Transcode {
                            program: String::from_str(TRANSCODER),
                            args: transcode_args(&playable),
                        },
                    ),
                    Err(error) => (Stage::Done, Action::Fail(error)),
                }
            }
        },
    }
}

} // verus!
