use spuri_io::youtube::resolve::{
    advance, begin, decode_signature, resolve_stream, stream_address, transcode_args, video_id,
    Action, Outcome, Playable, ResolveError, Stage,
};
use spuri_io::youtube::streams::{
    decode_streams, find_field, mp4_itags, replace_signature, select_stream, sign_address, Field,
    FmtStream, GetVideoInfo,
};

const SIGNATURE: &str =
    "A8FED286CE18E0B6D16F4743AE6D7A37506361E1.1BE82917965E7925F313F50A4D342313C139D1D5";
const DECODED: &str =
    "68FED286CE1850B6D16F4743AE6D7A3750A361E1.DBE82917965E7925F313F50A4D342313C139D11";

fn script() -> String {
    let mut script = String::new();
    script.push_str("var pL={wx:function(a,b){var c=a[0];a[0]=a[b%a.length];a[b%a.length]=c},\n");
    script.push_str("dL:function(a){a.reverse()},\n");
    script.push_str("Hy:function(a,b){a.splice(0,b)}};");
    script.push_str("qL=function(a){a=a.split(\"\");pL.wx(a,34);pL.dL(a,58);pL.wx(a,68);pL.Hy(a,1);pL.wx(a,38);pL.dL(a,46);return a.join(\"\")};\n");
    script.push_str("var d=a.g;c&&d.set(b,encodeURIComponent(qL(c)));return a};\n");
    script.push_str("g.k.Zn=function(){return{cver:\"1.20181212\",sts:17885,el:\"embedded\"}};");
    script
}

fn pairs(list: &[(&str, &str)]) -> Vec<(String, String)> {
    list.iter().map(|(k, v)| (k.to_string(), v.to_string())).collect()
}

fn form(list: &[(&str, &str)]) -> String {
    let mut out = url::form_urlencoded::Serializer::new(String::new());
    for (k, v) in list {
        out.append_pair(k, v);
    }
    out.finish()
}

fn stream(itag: &str, signature: Option<&str>, url: &str) -> FmtStream {
    FmtStream {
        itag: itag.to_string(),
        signature: signature.map(|s| s.to_string()),
        quality: "medium".to_string(),
        stream_type: "video/mp4".to_string(),
        sp: None,
        url: url.to_string(),
    }
}

fn record(itag: &str, signature: Option<&str>, url: &str) -> String {
    let mut list = vec![("itag", itag), ("quality", "medium"), ("type", "video/mp4"), ("url", url)];
    if let Some(s) = signature {
        list.push(("s", s));
    }
    form(&list)
}

fn metadata(map: &str) -> String {
    form(&[
        ("status", "ok"),
        ("url_encoded_fmt_stream_map", map),
        ("title", "A Title"),
        ("author", "An Author"),
    ])
}

#[test]
fn a_record_is_read_field_by_field() {
    let read = FmtStream::from_pairs(&pairs(&[
        ("quality", "hd720"),
        ("itag", "22"),
        ("unknown", "x"),
        ("type", "video/mp4"),
        ("url", "https://example.com/v"),
        ("s", "ABC"),
    ]));
    assert_eq!(
        read,
        Some(FmtStream {
            itag: "22".to_string(),
            signature: Some("ABC".to_string()),
            quality: "hd720".to_string(),
            stream_type: "video/mp4".to_string(),
            sp: None,
            url: "https://example.com/v".to_string(),
        })
    );
}

#[test]
fn a_record_without_a_required_field_is_refused() {
    assert_eq!(
        FmtStream::from_pairs(&pairs(&[("itag", "22"), ("quality", "hd720"), ("type", "t")])),
        None
    );
}

#[test]
fn a_record_with_a_repeated_field_is_refused() {
    assert_eq!(
        FmtStream::from_pairs(&pairs(&[
            ("itag", "22"),
            ("itag", "18"),
            ("quality", "hd720"),
            ("type", "t"),
            ("url", "u"),
        ])),
        None
    );
    assert_eq!(
        FmtStream::from_pairs(&pairs(&[
            ("itag", "22"),
            ("quality", "hd720"),
            ("type", "t"),
            ("url", "u"),
            ("sp", "a"),
            ("sp", "b"),
        ])),
        None
    );
}

#[test]
fn fields_are_counted() {
    let list = pairs(&[("a", "1"), ("b", "2"), ("a", "3")]);
    assert!(matches!(find_field(&list, "a"), Field::Repeated));
    assert!(matches!(find_field(&list, "c"), Field::Missing));
    match find_field(&list, "b") {
        Field::One(value) => assert_eq!(value, "2"),
        _ => panic!("one value expected"),
    }
}

#[test]
fn metadata_is_read_from_pairs() {
    let info = GetVideoInfo::from_pairs(&pairs(&[
        ("title", "T"),
        ("url_encoded_fmt_stream_map", "m"),
        ("author", "A"),
    ]));
    assert_eq!(
        info,
        Some(GetVideoInfo {
            url_encoded_fmt_stream_map: "m".to_string(),
            title: "T".to_string(),
            author: "A".to_string()
        })
    );
    assert_eq!(GetVideoInfo::from_pairs(&pairs(&[("title", "T"), ("author", "A")])), None);
}

#[test]
fn a_format_map_is_split_at_commas() {
    let map = format!(
        "{},{}",
        record("43", None, "https://example.com/a?x=1"),
        record("18", Some("SIG"), "https://example.com/b")
    );
    assert_eq!(
        decode_streams(&map),
        Some(vec![
            stream("43", None, "https://example.com/a?x=1"),
            stream("18", Some("SIG"), "https://example.com/b"),
        ])
    );
}

#[test]
fn an_empty_format_map_is_refused() {
    assert_eq!(decode_streams(""), None);
    let one = record("18", None, "https://example.com/b");
    assert_eq!(decode_streams(&format!("{},", one)), None);
}

#[test]
fn the_preference_list_decides_the_choice() {
    let streams = vec![
        stream("43", None, "u0"),
        stream("18", None, "u1"),
        stream("22", None, "u2"),
        stream("18", None, "u3"),
    ];
    assert_eq!(select_stream(&streams, &mp4_itags()), Some(2));
    assert_eq!(select_stream(&streams, &vec!["18", "22"]), Some(1));
    assert_eq!(select_stream(&streams, &vec!["99", "43"]), Some(0));
}

#[test]
fn absent_identifiers_select_nothing() {
    let streams = vec![stream("43", None, "u0"), stream("44", None, "u1")];
    assert_eq!(select_stream(&streams, &mp4_itags()), None);
    assert_eq!(select_stream(&streams, &vec!["5"]), None);
    assert_eq!(select_stream(&streams, &vec![]), None);
    assert_eq!(select_stream(&vec![], &mp4_itags()), None);
}

#[test]
fn the_preference_is_the_mp4_list() {
    assert_eq!(mp4_itags(), vec!["22", "18", "37", "59", "78"]);
}

#[test]
fn the_signature_goes_to_the_end_of_the_query() {
    let replaced = replace_signature(
        pairs(&[("id", "abc"), ("signature", "old"), ("key", "yt6"), ("signature", "older")]),
        "new",
    );
    assert_eq!(replaced, pairs(&[("id", "abc"), ("key", "yt6"), ("signature", "new")]));
    assert_eq!(replace_signature(vec![], "new"), pairs(&[("signature", "new")]));
}

#[test]
fn an_address_is_signed() {
    assert_eq!(
        sign_address("https://r1.example.com/videoplayback?id=abc&signature=old&key=yt6", "n e+w"),
        Some("https://r1.example.com/videoplayback?id=abc&key=yt6&signature=n+e%2Bw".to_string())
    );
    assert_eq!(
        sign_address("https://r1.example.com/videoplayback", "new"),
        Some("https://r1.example.com/videoplayback?signature=new".to_string())
    );
    assert_eq!(sign_address("not an address", "new"), None);
}

#[test]
fn a_signature_is_decoded_by_the_script() {
    assert_eq!(decode_signature(&script(), SIGNATURE), Some(DECODED.to_string()));
    assert_eq!(decode_signature("var x=1;", SIGNATURE), None);
}

#[test]
fn a_stream_without_signature_plays_at_its_address() {
    assert_eq!(
        stream_address(&stream("18", None, "https://example.com/v?a=1&signature=s"), "no script"),
        Ok("https://example.com/v?a=1&signature=s".to_string())
    );
    assert_eq!(
        stream_address(&stream("18", None, "HTTPS://Example.com"), "no script"),
        Ok("https://example.com/".to_string())
    );
}

#[test]
fn a_stream_with_signature_plays_at_the_signed_address() {
    assert_eq!(
        stream_address(&stream("18", Some(SIGNATURE), "https://example.com/v?a=1"), &script()),
        Ok(format!("https://example.com/v?a=1&signature={}", DECODED))
    );
}

#[test]
fn a_script_without_routine_is_an_extraction_failure() {
    assert_eq!(
        stream_address(&stream("18", Some(SIGNATURE), "https://example.com/v"), "var x=1;"),
        Err(ResolveError::ExtractionFailure)
    );
}

#[test]
fn a_stream_without_address_is_a_decode_failure() {
    assert_eq!(
        stream_address(&stream("18", None, "/relative"), &script()),
        Err(ResolveError::DecodeFailure)
    );
    assert_eq!(
        stream_address(&stream("18", Some(SIGNATURE), "/relative"), &script()),
        Err(ResolveError::DecodeFailure)
    );
}

#[test]
fn metadata_resolves_to_the_preferred_stream() {
    let map = format!(
        "{},{},{}",
        record("43", None, "https://example.com/webm"),
        record("18", Some(SIGNATURE), "https://example.com/low?x=1"),
        record("22", Some(SIGNATURE), "https://example.com/high?signature=old&x=2")
    );
    assert_eq!(
        resolve_stream(&metadata(&map), &script(), &mp4_itags()),
        Ok(Playable {
            url: format!("https://example.com/high?x=2&signature={}", DECODED),
            title: "A Title".to_string(),
            author: "An Author".to_string(),
        })
    );
}

#[test]
fn metadata_without_wanted_format_is_not_found() {
    let map = record("43", None, "https://example.com/webm");
    assert_eq!(
        resolve_stream(&metadata(&map), &script(), &mp4_itags()),
        Err(ResolveError::NotFound)
    );
}

#[test]
fn metadata_of_another_shape_is_a_decode_failure() {
    assert_eq!(
        resolve_stream("status=fail&reason=gone", &script(), &mp4_itags()),
        Err(ResolveError::DecodeFailure)
    );
    assert_eq!(
        resolve_stream(&metadata("itag=18"), &script(), &mp4_itags()),
        Err(ResolveError::DecodeFailure)
    );
}

#[test]
fn the_transcoder_reads_the_address_and_writes_mp3() {
    let args = transcode_args(&Playable {
        url: "https://example.com/v".to_string(),
        title: "A \"Title\"".to_string(),
        author: "Me".to_string(),
    });
    assert_eq!(
        args,
        vec![
            "-i",
            "https://example.com/v",
            "-f",
            "mp3",
            "-metadata",
            "title=\"A \"Title\"\"",
            "-metadata",
            "author=\"Me\"",
            "pipe:1"
        ]
    );
}

#[test]
fn failures_have_their_status() {
    assert_eq!(ResolveError::NotFound.status_code(), 404);
    assert_eq!(ResolveError::UpstreamStatus(403).status_code(), 403);
    assert_eq!(ResolveError::NetworkFailure.status_code(), 500);
    assert_eq!(ResolveError::ExtractionFailure.status_code(), 500);
    assert_eq!(ResolveError::DecodeFailure.status_code(), 500);
    assert_eq!(ResolveError::ProcessSpawnFailure.status_code(), 500);
}

#[test]
fn the_identifier_is_in_the_path_or_in_the_query() {
    assert_eq!(video_id(&vec!["tvTRZJ-4EyI".to_string()], None), Some("tvTRZJ-4EyI".to_string()));
    assert_eq!(
        video_id(&vec!["tvTRZJ-4EyI".to_string()], Some("v=other")),
        Some("tvTRZJ-4EyI".to_string())
    );
    assert_eq!(
        video_id(&vec!["www.youtube.com".to_string(), "watch".to_string()], Some("v=tvTRZJ-4EyI")),
        Some("tvTRZJ-4EyI".to_string())
    );
    assert_eq!(video_id(&vec!["a".to_string(), "b".to_string()], None), None);
    assert_eq!(video_id(&vec!["a".to_string(), "b".to_string()], Some("v")), None);
    assert_eq!(video_id(&vec!["a".to_string(), "b".to_string()], Some("v=")), Some(String::new()));
    assert_eq!(video_id(&vec![], Some("v=x")), None);
}

fn fetched(status: u16, body: &str) -> Outcome {
    Outcome::Fetched { status, body: body.to_string() }
}

#[test]
fn a_resolution_walks_through_three_fetches() {
    let (stage, action) = begin("tvTRZJ-4EyI");
    match action {
        Action::Get { url, query } => {
            assert_eq!(url, "https://www.youtube.com/embed/tvTRZJ-4EyI");
            assert!(query.is_empty());
        }
        _ => panic!("a fetch expected"),
    }
    let page = "<script src=\"/yts/jsbin/player-vflpOZkP0/en_US/base.js\"></script>";
    let (stage, action) = advance(stage, fetched(404, page));
    match action {
        Action::Get { url, query } => {
            assert_eq!(url, "https://www.youtube.com/yts/jsbin/player-vflpOZkP0/en_US/base.js");
            assert!(query.is_empty());
        }
        _ => panic!("a fetch expected"),
    }
    let (stage, action) = advance(stage, fetched(200, &script()));
    match action {
        Action::Get { url, query } => {
            assert_eq!(url, "https://youtube.com/get_video_info");
            assert_eq!(
                query,
                pairs(&[("video_id", "tvTRZJ-4EyI"), ("sts", "17885"), ("el", "detailpage")])
            );
        }
        _ => panic!("a fetch expected"),
    }
    let map = record("18", Some(SIGNATURE), "https://example.com/low?x=1");
    let (stage, action) = advance(stage, fetched(200, &metadata(&map)));
    assert!(matches!(stage, Stage::Done));
    match action {
        Action::Transcode { program, args } => {
            assert_eq!(program, "ffmpeg");
            assert_eq!(
                args,
                vec![
                    "-i".to_string(),
                    format!("https://example.com/low?x=1&signature={}", DECODED),
                    "-f".to_string(),
                    "mp3".to_string(),
                    "-metadata".to_string(),
                    "title=\"A Title\"".to_string(),
                    "-metadata".to_string(),
                    "author=\"An Author\"".to_string(),
                    "pipe:1".to_string(),
                ]
            );
        }
        _ => panic!("the transcoder expected"),
    }
    let (stage, action) = advance(stage, fetched(200, "more"));
    assert!(matches!(stage, Stage::Done));
    assert!(matches!(action, Action::Stop));
}

#[test]
fn a_failed_fetch_is_a_network_failure() {
    let (stage, _) = begin("id");
    let (stage, action) = advance(stage, Outcome::Failed);
    assert!(matches!(stage, Stage::Done));
    assert!(matches!(action, Action::Fail(ResolveError::NetworkFailure)));
    let (_, action) = advance(stage, Outcome::Failed);
    assert!(matches!(action, Action::Stop));
}

#[test]
fn a_page_without_script_is_an_extraction_failure() {
    let (stage, _) = begin("id");
    let (stage, action) = advance(stage, fetched(200, "<html></html>"));
    assert!(matches!(stage, Stage::Done));
    assert!(matches!(action, Action::Fail(ResolveError::ExtractionFailure)));
}

#[test]
fn a_script_without_token_is_an_extraction_failure() {
    let (_, action) = advance(Stage::ClientScript { id: "id".to_string() }, fetched(200, "var x;"));
    assert!(matches!(action, Action::Fail(ResolveError::ExtractionFailure)));
}

#[test]
fn the_status_of_the_metadata_is_passed_on() {
    let (stage, action) = advance(Stage::VideoInfo { base_js: script() }, fetched(403, "status=fail"));
    assert!(matches!(stage, Stage::Done));
    assert!(matches!(action, Action::Fail(ResolveError::UpstreamStatus(403))));
}

#[test]
fn metadata_without_wanted_format_ends_in_not_found() {
    let map = record("43", None, "https://example.com/webm");
    let (_, action) = advance(Stage::VideoInfo { base_js: script() }, fetched(200, &metadata(&map)));
    assert!(matches!(action, Action::Fail(ResolveError::NotFound)));
}
