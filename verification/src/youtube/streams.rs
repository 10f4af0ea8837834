//! The format streams that the provider offers for a video: reading them
//! out of the metadata, choosing one by preference, and putting a decoded
//! signature into its address.
use crate::text::{opt_string_view, split, split_on, strings_view};
use crate::url_calls::{
    address_query, address_with_query, form_pairs, form_text, pairs_view, parse_form, query_of,
    replace_query, write_form, ADDRESS_LIMIT,
};
use vstd::prelude::*;
use vstd::string::{StrSliceExecFns, StringExecFns};

verus! {

/// One encoding of a video, as the provider describes it.
#[derive(Debug, PartialEq, Eq, Clone)]
pub struct FmtStream {
    pub itag: String,
    pub signature: Option<String>,
    pub quality: String,
    pub stream_type: String,
    pub sp: Option<String>,
    pub url: String,
}

/// What the provider tells about a video.
#[derive(Debug, PartialEq, Eq, Clone)]
pub struct GetVideoInfo {
    pub url_encoded_fmt_stream_map: String,
    pub title: String,
    pub author: String,
}

/// A format stream as plain text.
pub struct FmtStreamText {
    pub itag: Seq<char>,
    pub signature: Option<Seq<char>>,
    pub quality: Seq<char>,
    pub stream_type: Seq<char>,
    pub sp: Option<Seq<char>>,
    pub url: Seq<char>,
}

/// A video's metadata as plain text.
pub struct VideoInfoText {
    pub url_encoded_fmt_stream_map: Seq<char>,
    pub title: Seq<char>,
    pub author: Seq<char>,
}

impl View for FmtStream {
    type V = FmtStreamText;

    open spec fn view(&self) -> FmtStreamText {
        FmtStreamText {
            itag: self.itag@,
            signature: opt_string_view(self.signature),
            quality: self.quality@,
            stream_type: self.stream_type@,
            sp: opt_string_view(self.sp),
            url: self.url@,
        }
    }
}

impl View for GetVideoInfo {
    type V = VideoInfoText;

    open spec fn view(&self) -> VideoInfoText {
        VideoInfoText {
            url_encoded_fmt_stream_map: self.url_encoded_fmt_stream_map@,
            title: self.title@,
            author: self.author@,
        }
    }
}

/// The text of each stream of a list.
pub open spec fn streams_view(streams: Seq<FmtStream>) -> Seq<FmtStreamText> {
    Seq::new(streams.len(), |i: int| streams[i]@)
}

/// How often a name occurs in a record, and with which value.
pub enum Field {
    Missing,
    One(String),
    Repeated,
}

/// A field as plain text.
pub enum FieldText {
    Missing,
    One(Seq<char>),
    Repeated,
}

impl View for Field {
    type V = FieldText;

    open spec fn view(&self) -> FieldText {
        match self {
            Field::Missing => FieldText::Missing,
            Field::One(value) => FieldText::One(value@),
            Field::Repeated => FieldText::Repeated,
        }
    }
}

/// The field called `name` in a record.
pub open spec fn field_of(pairs: Seq<(Seq<char>, Seq<char>)>, name: Seq<char>) -> FieldText
    decreases pairs.len(),
{
    if pairs.len() == 0 {
        FieldText::Missing
    } else if pairs.last().0 == name {
        match field_of(pairs.drop_last(), name) {
            FieldText::Missing => FieldText::One(pairs.last().1),
            _ => FieldText::Repeated,
        }
    } else {
        field_of(pairs.drop_last(), name)
    }
}

/// A field that a record must hold exactly once.
pub open spec fn required(field: FieldText) -> Option<Seq<char>> {
    match field {
        FieldText::One(value) => Some(value),
        _ => None,
    }
}

/// A field that a record may hold once: the outer `None` says that it is
/// there more than once.
pub open spec fn optional(field: FieldText) -> Option<Option<Seq<char>>> {
    match field {
        FieldText::Missing => Some(None),
        FieldText::One(value) => Some(Some(value)),
        FieldText::Repeated => None,
    }
}

/// The stream that a record describes. The record must name `itag`,
/// `quality`, `type` and `url` once each, and `s` and `sp` at most once;
/// other names are passed over.
pub open spec fn stream_of(pairs: Seq<(Seq<char>, Seq<char>)>) -> Option<FmtStreamText> {
    match (
        required(field_of(pairs, "itag"@)),
        optional(field_of(pairs, "s"@)),
        required(field_of(pairs, "quality"@)),
        required(field_of(pairs, "type"@)),
        optional(field_of(pairs, "sp"@)),
        required(field_of(pairs, "url"@)),
    ) {
        (Some(itag), Some(signature), Some(quality), Some(stream_type), Some(sp), Some(url)) => Some(
            FmtStreamText { itag, signature, quality, stream_type, sp, url },
        ),
        _ => None,
    }
}

/// The metadata that a record describes. The record must name
/// `url_encoded_fmt_stream_map`, `title` and `author` once each.
pub open spec fn info_of(pairs: Seq<(Seq<char>, Seq<char>)>) -> Option<VideoInfoText> {
    match (
        required(field_of(pairs, "url_encoded_fmt_stream_map"@)),
        required(field_of(pairs, "title"@)),
        required(field_of(pairs, "author"@)),
    ) {
        (Some(url_encoded_fmt_stream_map), Some(title), Some(author)) => Some(
            VideoInfoText { url_encoded_fmt_stream_map, title, author },
        ),
        _ => None,
    }
}

/// The stream that one encoded record describes.
pub open spec fn stream_of_record(record: Seq<char>) -> Option<FmtStreamText> {
    match form_pairs(record) {
        Some(pairs) => stream_of(pairs),
        None => None,
    }
}

/// The streams that the records describe, in the order of the records;
/// none where any record fails.
pub open spec fn streams_of_records(records: Seq<Seq<char>>) -> Option<Seq<FmtStreamText>>
    decreases records.len(),
{
    if records.len() == 0 {
        Some(Seq::empty())
    } else {
        match (streams_of_records(records.drop_last()), stream_of_record(records.last())) {
            (Some(before), Some(stream)) => Some(before.push(stream)),
            _ => None,
        }
    }
}

/// The streams of a format map: its records stand between commas.
pub open spec fn streams_of_map(map: Seq<char>) -> Option<Seq<FmtStreamText>> {
    streams_of_records(split_on(map, ','))
}

/// The place of the first stream with the identifier `itag`.
pub open spec fn place_of(streams: Seq<FmtStreamText>, itag: Seq<char>) -> Option<int>
    decreases streams.len(),
{
    if streams.len() == 0 {
        None
    } else if streams.first().itag == itag {
        Some(0)
    } else {
        match place_of(streams.drop_first(), itag) {
            Some(i) => Some(i + 1),
            None => None,
        }
    }
}

/// The place of the stream to take: the first stream with the first
/// identifier of `preference` that any stream has.
pub open spec fn preferred(streams: Seq<FmtStreamText>, preference: Seq<Seq<char>>) -> Option<int>
    decreases preference.len(),
{
    if preference.len() == 0 {
        None
    } else {
        match place_of(streams, preference.first()) {
            Some(i) => Some(i),
            None => preferred(streams, preference.drop_first()),
        }
    }
}

/// The identifiers of the formats that can be transcoded, most wanted first.
pub open spec fn mp4_preference() -> Seq<Seq<char>> {
    seq!["22"@, "18"@, "37"@, "59"@, "78"@]
}

/// The pairs that are not called `name`, in their order.
pub open spec fn without_name(pairs: Seq<(Seq<char>, Seq<char>)>, name: Seq<char>) -> Seq<
    (Seq<char>, Seq<char>),
>
    decreases pairs.len(),
{
    if pairs.len() == 0 {
        pairs
    } else if pairs.last().0 == name {
        without_name(pairs.drop_last(), name)
    } else {
        without_name(pairs.drop_last(), name).push(pairs.last())
    }
}

/// A query with `signature` as its one signature, at the end; the other
/// pairs stay as they are and where they are.
pub open spec fn with_signature(pairs: Seq<(Seq<char>, Seq<char>)>, signature: Seq<char>) -> Seq<
    (Seq<char>, Seq<char>),
> {
    without_name(pairs, "signature"@).push(("signature"@, signature))
}

/// The address `url` with `signature` put into its query. None where `url`
/// is no address, or where it or the new query is longer than
/// `ADDRESS_LIMIT`.
pub open spec fn signed_address(url: Seq<char>, signature: Seq<char>) -> Option<Seq<char>> {
    if url.len() > ADDRESS_LIMIT {
        None
    } else {
        match address_query(url) {
            Some(pairs) => {
                let query = form_text(with_signature(pairs, signature));
                if query.len() > ADDRESS_LIMIT {
                    None
                } else {
                    address_with_query(url, query)
                }
            },
            None => None,
        }
    }
}

/// What stays of a query when the pairs of one name leave: no pair of that
/// name, and every other pair, in the old order.
pub proof fn lemma_without_name(pairs: Seq<(Seq<char>, Seq<char>)>, name: Seq<char>)
    ensures
        forall|k: int|
            0 <= k < without_name(pairs, name).len() ==> (#[trigger] without_name(pairs, name)[k]).0
                != name,
        without_name(pairs, name) == pairs.filter(|pair: (Seq<char>, Seq<char>)| pair.0 != name),
    decreases pairs.len(),
{
    reveal(Seq::filter);
    if pairs.len() > 0 {
        lemma_without_name(pairs.drop_last(), name);
    }
}

/// Where no stream has an identifier of the preference list, none is
/// chosen.
pub proof fn lemma_absent_identifiers_choose_nothing(
    streams: Seq<FmtStreamText>,
    preference: Seq<Seq<char>>,
)
    requires
        forall|p: int, i: int|
            0 <= p < preference.len() && 0 <= i < streams.len() ==> (#[trigger] streams[i]).itag
                != #[trigger] preference[p],
    ensures
        preferred(streams, preference) is None,
    decreases preference.len(),
{
    if preference.len() > 0 {
        lemma_place_of(streams, preference.first());
        assert(preference.first() == preference[0]);
        if place_of(streams, preference.first()) is Some {
            let i = place_of(streams, preference.first())->0;
            assert(streams[i].itag == preference[0]);
        }
        assert forall|p: int, i: int|
            0 <= p < preference.drop_first().len() && 0 <= i < streams.len() implies (
        #[trigger] streams[i]).itag != #[trigger] preference.drop_first()[p] by {
            assert(preference.drop_first()[p] == preference[p + 1]);
        }
        lemma_absent_identifiers_choose_nothing(streams, preference.drop_first());
    }
}

/// A place that `place_of` gives holds the identifier, and no earlier place
/// does; where it gives none, no stream has the identifier.
pub proof fn lemma_place_of(streams: Seq<FmtStreamText>, itag: Seq<char>)
    ensures
        match place_of(streams, itag) {
            Some(i) => 0 <= i < streams.len() && streams[i].itag == itag && forall|k: int|
                0 <= k < i ==> (#[trigger] streams[k]).itag != itag,
            None => forall|k: int| 0 <= k < streams.len() ==> (#[trigger] streams[k]).itag != itag,
        },
    decreases streams.len(),
{
    if streams.len() > 0 && streams.first().itag != itag {
        lemma_place_of(streams.drop_first(), itag);
        let rest = streams.drop_first();
        match place_of(rest, itag) {
            Some(i) => {
                assert(streams[i + 1] == rest[i]);
                assert forall|k: int| 0 <= k < i + 1 implies (#[trigger] streams[k]).itag != itag by {
                    if k > 0 {
                        assert(streams[k] == rest[k - 1]);
                    }
                }
            },
            None => {
                assert forall|k: int| 0 <= k < streams.len() implies (#[trigger] streams[k]).itag
                    != itag by {
                    if k > 0 {
                        assert(streams[k] == rest[k - 1]);
                    }
                }
            },
        }
    }
}

/// The stream at place `i` is the choice by the identifier at place `p` of
/// the preference list: it has that identifier, no stream before it has,
/// and no stream at all has an identifier that the list names earlier.
pub open spec fn is_choice(streams: Seq<FmtStreamText>, preference: Seq<Seq<char>>, p: int, i: int) -> bool {
    &&& 0 <= p < preference.len()
    &&& 0 <= i < streams.len()
    &&& streams[i].itag == preference[p]
    &&& forall|k: int| 0 <= k < i ==> (#[trigger] streams[k]).itag != preference[p]
    &&& forall|q: int, k: int|
        0 <= q < p && 0 <= k < streams.len() ==> (#[trigger] streams[k]).itag != #[trigger] preference[q]
}

/// The preference list decides before the order of the streams does: the
/// stream that is chosen is the first one with the earliest identifier of the
/// list that any stream has.
pub proof fn lemma_preferred_is_first_wanted(streams: Seq<FmtStreamText>, preference: Seq<Seq<char>>)
    ensures
        match preferred(streams, preference) {
            Some(i) => exists|p: int| is_choice(streams, preference, p, i),
            None => forall|p: int, k: int|
                0 <= p < preference.len() && 0 <= k < streams.len() ==> (#[trigger] streams[k]).itag
                    != #[trigger] preference[p],
        },
    decreases preference.len(),
{
    if preference.len() > 0 {
        let rest = preference.drop_first();
        lemma_place_of(streams, preference.first());
        lemma_preferred_is_first_wanted(streams, rest);
        assert(preference.first() == preference[0]);
        match place_of(streams, preference.first()) {
            Some(i) => {
                assert(is_choice(streams, preference, 0, i));
            },
            None => {
                match preferred(streams, rest) {
                    Some(i) => {
                        let p = choose|p: int| is_choice(streams, rest, p, i);
                        assert(rest[p] == preference[p + 1]);
                        assert forall|q: int, k: int|
                            0 <= q < p + 1 && 0 <= k < streams.len() implies (#[trigger] streams[k]).itag
                            != #[trigger] preference[q] by {
                            if q > 0 {
                                assert(preference[q] == rest[q - 1]);
                            }
                        }
                        assert(is_choice(streams, preference, p + 1, i));
                    },
                    None => {
                        assert forall|p: int, k: int|
                            0 <= p < preference.len() && 0 <= k < streams.len() implies (
                        #[trigger] streams[k]).itag != #[trigger] preference[p] by {
                            if p > 0 {
                                assert(preference[p] == rest[p - 1]);
                            }
                        }
                    },
                }
            },
        }
    }
}

/// Once a record has failed, the list has.
pub proof fn lemma_streams_of_records_fail(records: Seq<Seq<char>>, k: int)
    requires
        0 <= k <= records.len(),
        streams_of_records(records.take(k)) is None,
    ensures
        streams_of_records(records) is None,
    decreases records.len(),
{
    if k == records.len() {
        assert(records.take(k) =~= records);
    } else {
        assert(records.drop_last().take(k) =~= records.take(k));
        lemma_streams_of_records_fail(records.drop_last(), k);
    }
}

/// The field called `name` in a record.
pub fn find_field(pairs: &Vec<(String, String)>, name: &str) -> (field: Field)
    ensures
        field@ == field_of(pairs_view(pairs@), name@),
{
    let wanted = String::from_str(name);
    let ghost all = pairs_view(pairs@);
    let mut field = Field::Missing;
    let mut i: usize = 0;
    proof {
        assert(all.take(0) =~= Seq::empty());
    }
    while i < pairs.len()
        invariant
            i <= pairs.len(),
            all == pairs_view(pairs@),
            wanted@ == name@,
            field@ == field_of(all.take(i as int), name@),
        decreases pairs.len() - i,
    {
        proof {
            assert(all.take(i + 1).drop_last() =~= all.take(i as int));
            assert(all.take(i + 1).last() == all[i as int]);
        }
        if pairs[i].0 == wanted {
            field = match field {
                Field::Missing => Field::One(pairs[i].1.clone()),
                _ => Field::Repeated,
            };
        }
        i += 1;
    }
    proof {
        assert(all.take(pairs.len() as int) =~= all);
    }
    field
}

/// A field that must be there once.
pub fn required_field(field: Field) -> (value: Option<String>)
    ensures
        opt_string_view(value) == required(field@),
{
    match field {
        Field::One(value) => Some(value),
        _ => None,
    }
}

/// A field that may be there once.
pub fn optional_field(field: Field) -> (value: Option<Option<String>>)
    ensures
        match value {
            Some(inner) => optional(field@) == Some(opt_string_view(inner)),
            None => optional(field@) is None,
        },
{
    match field {
        Field::Missing => Some(None),
        Field::One(value) => Some(Some(value)),
        Field::Repeated => None,
    }
}

/// The text of an optional stream.
pub open spec fn opt_stream_view(stream: Option<FmtStream>) -> Option<FmtStreamText> {
    match stream {
        Some(stream) => Some(stream@),
        None => None,
    }
}

/// The text of an optional list of streams.
pub open spec fn opt_streams_view(streams: Option<Vec<FmtStream>>) -> Option<Seq<FmtStreamText>> {
    match streams {
        Some(streams) => Some(streams_view(streams@)),
        None => None,
    }
}

/// The text of optional metadata.
pub open spec fn opt_info_view(info: Option<GetVideoInfo>) -> Option<VideoInfoText> {
    match info {
        Some(info) => Some(info@),
        None => None,
    }
}

impl FmtStream {
    /// The stream that a record describes.
    pub fn from_pairs(pairs: &Vec<(String, String)>) -> (stream: Option<FmtStream>)
        ensures
            opt_stream_view(stream) == stream_of(pairs_view(pairs@)),
    {
        let itag = required_field(find_field(pairs, "itag"));
        let signature = optional_field(find_field(pairs, "s"));
        let quality = required_field(find_field(pairs, "quality"));
        let stream_type = required_field(find_field(pairs, "type"));
        let sp = optional_field(find_field(pairs, "sp"));
        let url = required_field(find_field(pairs, "url"));
        match (itag, signature, quality, stream_type, sp, url) {
            (Some(itag), Some(signature), Some(quality), Some(stream_type), Some(sp), Some(url)) => Some(
                FmtStream { itag, signature, quality, stream_type, sp, url },
            ),
            _ => None,
        }
    }
}

impl GetVideoInfo {
    /// The metadata that a record describes.
    pub fn from_pairs(pairs: &Vec<(String, String)>) -> (info: Option<GetVideoInfo>)
        ensures
            opt_info_view(info) == info_of(pairs_view(pairs@)),
    {
        let map = required_field(find_field(pairs, "url_encoded_fmt_stream_map"));
        let title = required_field(find_field(pairs, "title"));
        let author = required_field(find_field(pairs, "author"));
        match (map, title, author) {
            (Some(url_encoded_fmt_stream_map), Some(title), Some(author)) => Some(
                GetVideoInfo { url_encoded_fmt_stream_map, title, author },
            ),
            _ => None,
        }
    }
}

/// The streams of a format map, in its order; none where a record cannot be
/// read or does not describe a stream.
pub fn decode_streams(map: &str) -> (streams: Option<Vec<FmtStream>>)
    ensures
        opt_streams_view(streams) == streams_of_map(map@),
{
    let records = split(map, ',');
    let ghost all = strings_view(records@);
    let mut streams: Vec<FmtStream> = Vec::new();
    let mut i: usize = 0;
    proof {
        assert(all.take(0) =~= Seq::empty());
        assert(streams_view(streams@) =~= Seq::empty());
    }
    while i < records.len()
        invariant
            i <= records.len(),
            all == strings_view(records@),
            all == split_on(map@, ','),
            streams_of_records(all.take(i as int)) == Some(streams_view(streams@)),
        decreases records.len() - i,
    {
        proof {
            assert(all.take(i + 1).drop_last() =~= all.take(i as int));
            assert(all.take(i + 1).last() == records@[i as int]@);
        }
        let decoded = match parse_form(records[i].as_str()) {
            Ok(pairs) => FmtStream::from_pairs(&pairs),
            Err(_) => None,
        };
        match decoded {
            Some(stream) => {
                let ghost before = streams_view(streams@);
                streams.push(stream);
                proof {
                    assert(streams_view(streams@) =~= before.push(stream@));
                }
            },
            None => {
                proof {
                    lemma_streams_of_records_fail(all, i + 1);
                }
                return None;
            },
        }
        i += 1;
    }
    proof {
        assert(all.take(records.len() as int) =~= all);
    }
    Some(streams)
}

/// The place of the first stream with the identifier `itag`.
pub fn find_itag(streams: &Vec<FmtStream>, itag: &str) -> (place: Option<usize>)
    ensures
        match place {
            Some(i) => place_of(streams_view(streams@), itag@) == Some(i as int),
            None => place_of(streams_view(streams@), itag@) is None,
        },
{
    let wanted = String::from_str(itag);
    let ghost all = streams_view(streams@);
    let mut i: usize = 0;
    proof {
        assert(all.skip(0) =~= all);
    }
    while i < streams.len()
        invariant
            i <= streams.len(),
            all == streams_view(streams@),
            wanted@ == itag@,
            place_of(all, itag@) == match place_of(all.skip(i as int), itag@) {
                Some(k) => Some(k + i),
                None => None,
            },
        decreases streams.len() - i,
    {
        proof {
            assert(all.skip(i as int).first() == streams@[i as int]@);
            assert(all.skip(i as int).drop_first() =~= all.skip(i + 1));
        }
        if streams[i].itag == wanted {
            return Some(i);
        }
        i += 1;
    }
    None
}

/// The identifiers of the formats that can be transcoded, most wanted
/// first.
pub fn mp4_itags() -> (preference: Vec<&'static str>)
    ensures
        strs_view(preference@) == mp4_preference(),
{
    let mut preference: Vec<&'static str> = Vec::new();
    preference.push("22");
    preference.push("18");
    preference.push("37");
    preference.push("59");
    preference.push("78");
    assert(strs_view(preference@) =~= mp4_preference());
    preference
}

/// The text of each string slice of a list.
pub open spec fn strs_view(strs: Seq<&str>) -> Seq<Seq<char>> {
    Seq::new(strs.len(), |i: int| strs[i]@)
}

/// Chooses a stream: the identifiers of `preference` are tried in their
/// order, and the first stream with the first identifier that any stream
/// has is taken. None is chosen exactly where no stream has an identifier
/// of the list.
pub fn select_stream(streams: &Vec<FmtStream>, preference: &Vec<&str>) -> (place: Option<usize>)
    ensures
        match place {
            Some(i) => preferred(streams_view(streams@), strs_view(preference@)) == Some(i as int)
                && i < streams.len(),
            None => preferred(streams_view(streams@), strs_view(preference@)) is None,
        },
        place is None <==> forall|p: int, i: int|
            0 <= p < preference@.len() && 0 <= i < streams@.len() ==> (#[trigger] streams@[i]).itag@
                != (#[trigger] preference@[p])@,
{
    let ghost all = streams_view(streams@);
    let ghost wanted = strs_view(preference@);
    let mut p: usize = 0;
    proof {
        assert(wanted.skip(0) =~= wanted);
    }
    while p < preference.len()
        invariant
            p <= preference.len(),
            all == streams_view(streams@),
            wanted == strs_view(preference@),
            preferred(all, wanted) == preferred(all, wanted.skip(p as int)),
            forall|q: int, i: int|
                0 <= q < p && 0 <= i < streams@.len() ==> (#[trigger] streams@[i]).itag@ != (
                #[trigger] preference@[q])@,
        decreases preference.len() - p,
    {
        proof {
            assert(wanted.skip(p as int).first() == preference@[p as int]@);
            assert(wanted.skip(p as int).drop_first() =~= wanted.skip(p + 1));
            lemma_place_of(all, preference@[p as int]@);
        }
        match find_itag(streams, preference[p]) {
            Some(i) => {
                assert(all[i as int] == streams@[i as int]@);
                return Some(i);
            },
            None => {
                assert forall|i: int| 0 <= i < streams@.len() implies (#[trigger] streams@[i]).itag@
                    != preference@[p as int]@ by {
                    assert(all[i] == streams@[i]@);
                }
            },
        }
        p += 1;
    }
    None
}

/// A query with `signature` as its one signature, at the end.
pub fn replace_signature(pairs: Vec<(String, String)>, signature: &str) -> (replaced: Vec<(String, String)>)
    ensures
        pairs_view(replaced@) == with_signature(pairs_view(pairs@), signature@),
{
    let name = String::from_str("signature");
    let ghost all = pairs_view(pairs@);
    let mut replaced: Vec<(String, String)> = Vec::new();
    let mut i: usize = 0;
    proof {
        assert(all.take(0) =~= Seq::empty());
        assert(pairs_view(replaced@) =~= Seq::empty());
    }
    while i < pairs.len()
        invariant
            i <= pairs.len(),
            all == pairs_view(pairs@),
            name@ == "signature"@,
            pairs_view(replaced@) == without_name(all.take(i as int), "signature"@),
        decreases pairs.len() - i,
    {
        proof {
            assert(all.take(i + 1).drop_last() =~= all.take(i as int));
            assert(all.take(i + 1).last() == all[i as int]);
        }
        if !(pairs[i].0 == name) {
            let ghost before = pairs_view(replaced@);
            let pair = (pairs[i].0.clone(), pairs[i].1.clone());
            replaced.push(pair);
            proof {
                assert(pairs_view(replaced@) =~= before.push(all[i as int]));
            }
        }
        i += 1;
    }
    proof {
        assert(all.take(pairs.len() as int) =~= all);
    }
    let ghost before = pairs_view(replaced@);
    let last = (name, String::from_str(signature));
    replaced.push(last);
    proof {
        assert(pairs_view(replaced@) =~= before.push(("signature"@, signature@)));
    }
    replaced
}

/// The address `url` with `signature` put into its query.
pub fn sign_address(url: &str, signature: &str) -> (address: Option<String>)
    ensures
        opt_string_view(address) == signed_address(url@, signature@),
{
    if url.unicode_len() > ADDRESS_LIMIT {
        return None;
    }
    match query_of(url) {
        Ok(pairs) => {
            let query = write_form(&replace_signature(pairs, signature));
            if query.as_str().unicode_len() > ADDRESS_LIMIT {
                return None;
            }
            match replace_query(url, query.as_str()) {
                Ok(address) => Some(address),
                Err(_) => None,
            }
        },
        Err(_) => None,
    }
}

} // verus!
