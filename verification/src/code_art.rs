//! The gallery: pictures kept ready in a fixed set of sizes, and the
//! answers to requests for one of them.
use crate::base::Base;
use crate::err::unicode_error;
use crate::pictures::{
    picture_png, picture_resized, picture_size, resize_to_png, size_of, to_png, SIDE_LIMIT,
};
use crate::text::{uppercase, chars_of, decimal_digits, decimal_text, opt_string_view, string_of};
use crate::url_calls::{form_of, pairs_view, to_form};
use std::sync::Arc;
use vstd::prelude::*;
use vstd::string::StringExecFns;

verus! {

/// Where the pictures are asked for.
pub const RESIZER_PATH: &'static str = "/code_art/resizer?";

/// A request for a picture in a size.
#[derive(Debug, PartialEq, Eq, Clone)]
pub struct Resize {
    pub width: u32,
    pub height: u32,
    pub src: String,
}

/// A picture in one size, as PNG.
#[derive(Debug, PartialEq, Eq, Clone)]
pub struct SizedPng {
    pub width: u32,
    pub height: u32,
    pub bytes: Vec<u8>,
}

/// A picture of the gallery, ready in every size.
#[derive(Debug, PartialEq, Eq, Clone)]
pub struct Image {
    pub name: String,
    pub href: String,
    pub srcset: String,
    pub src: String,
    pub desc: String,
    pub size_to_image_bytes: Vec<SizedPng>,
}

/// The gallery page and its pictures.
pub struct Gallery {
    pub _parent: Arc<Base>,
    pub images: Vec<Image>,
}

/// Why a picture could not be taken into the gallery.
#[derive(Debug, PartialEq, Eq, Clone)]
pub enum ImageFault {
    /// The path of the file gives no address; the reason is the caller's.
    Src(String),
    /// The file holds no picture that can be read and written.
    Picture,
    /// The path of the file names no file.
    Name(String),
}

/// The answer to a request for a picture.
pub enum Resized<'a> {
    /// The size is none of the sizes that are kept.
    Unprocessable,
    /// No picture has the address.
    NotFound,
    /// The picture is there, but not in this size.
    Failed,
    /// The picture, to be cached for good.
    Png(&'a Vec<u8>),
}

/// What happened to a file of the gallery's directory.
pub enum Change {
    /// The file at the address `from` is now the picture `to`.
    Renamed { from: String, to: Image },
    /// A new picture.
    Created(Image),
    /// The file at this address is gone.
    Removed(String),
}

/// The sizes in which every picture is kept, all of them 16:9, largest
/// first.
pub open spec fn available_sizes() -> Seq<(u32, u32)> {
    seq![(1920u32, 1080u32), (1280u32, 720u32), (960u32, 540u32), (640u32, 360u32)]
}

/// A picture in one size as plain values.
pub struct SizedPngData {
    pub width: u32,
    pub height: u32,
    pub bytes: Seq<u8>,
}

/// A picture as plain values.
pub struct ImageData {
    pub name: Seq<char>,
    pub href: Seq<char>,
    pub srcset: Seq<char>,
    pub src: Seq<char>,
    pub desc: Seq<char>,
    pub size_to_image_bytes: Seq<SizedPngData>,
}

impl View for SizedPng {
    type V = SizedPngData;

    open spec fn view(&self) -> SizedPngData {
        SizedPngData { width: self.width, height: self.height, bytes: self.bytes@ }
    }
}

/// The plain values of each entry of a list.
pub open spec fn sized_view(entries: Seq<SizedPng>) -> Seq<SizedPngData> {
    Seq::new(entries.len(), |i: int| entries[i]@)
}

impl View for Image {
    type V = ImageData;

    open spec fn view(&self) -> ImageData {
        ImageData {
            name: self.name@,
            href: self.href@,
            srcset: self.srcset@,
            src: self.src@,
            desc: self.desc@,
            size_to_image_bytes: sized_view(self.size_to_image_bytes@),
        }
    }
}

/// The plain values of each picture of a list.
pub open spec fn images_view(images: Seq<Image>) -> Seq<ImageData> {
    Seq::new(images.len(), |i: int| images[i]@)
}

/// The name shown for a picture whose file is called `stem`: a space goes
/// in front of every uppercase character but the first character.
pub open spec fn spaced(stem: Seq<char>) -> Seq<char>
    decreases stem.len(),
{
    if stem.len() == 0 {
        stem
    } else if stem.len() > 1 && uppercase(stem.last()) {
        spaced(stem.drop_last()).push(' ').push(stem.last())
    } else {
        spaced(stem.drop_last()).push(stem.last())
    }
}

/// The fields of a request, as they are written into an address.
pub open spec fn resize_fields(width: u32, height: u32, src: Seq<char>) -> Seq<(Seq<char>, Seq<char>)> {
    seq![
        ("width"@, decimal_digits(width as nat)),
        ("height"@, decimal_digits(height as nat)),
        ("src"@, src),
    ]
}

/// One candidate of a source set: the address that asks for the picture
/// in a size, and the width that it then has.
pub open spec fn candidate(size: (u32, u32), src: Seq<char>) -> Option<Seq<char>> {
    match form_of(resize_fields(size.0, size.1, src)) {
        Some(query) => Some(RESIZER_PATH@ + query + " "@ + decimal_digits(size.0 as nat) + "w"@),
        None => None,
    }
}

/// The candidates for `sizes`, with a comma and a space between them; none
/// where one of them cannot be written.
pub open spec fn candidates(sizes: Seq<(u32, u32)>, src: Seq<char>) -> Option<Seq<char>>
    decreases sizes.len(),
{
    if sizes.len() == 0 {
        Some(Seq::empty())
    } else {
        match (candidates(sizes.drop_last(), src), candidate(sizes.last(), src)) {
            (Some(before), Some(last)) => if sizes.len() == 1 {
                Some(last)
            } else {
                Some(before + ", "@ + last)
            },
            _ => None,
        }
    }
}

/// The picture `encoded` in one size: written anew where it has that size,
/// resized where it has not.
pub open spec fn in_size(encoded: Seq<u8>, own: (u32, u32), size: (u32, u32)) -> Option<SizedPngData> {
    let png = if own == size {
        picture_png(encoded)
    } else {
        picture_resized(encoded, size.0, size.1)
    };
    match png {
        Some(bytes) => Some(SizedPngData { width: size.0, height: size.1, bytes }),
        None => None,
    }
}

/// The picture `encoded` in each of `sizes`; none where one size fails.
pub open spec fn in_sizes(encoded: Seq<u8>, own: (u32, u32), sizes: Seq<(u32, u32)>) -> Option<
    Seq<SizedPngData>,
>
    decreases sizes.len(),
{
    if sizes.len() == 0 {
        Some(Seq::empty())
    } else {
        match (in_sizes(encoded, own, sizes.drop_last()), in_size(encoded, own, sizes.last())) {
            (Some(before), Some(last)) => Some(before.push(last)),
            _ => None,
        }
    }
}

/// The picture `encoded` in every size that is kept; none where it cannot
/// be read or one size fails.
pub open spec fn in_available_sizes(encoded: Seq<u8>) -> Option<Seq<SizedPngData>> {
    match picture_size(encoded) {
        Some(own) => in_sizes(encoded, own, available_sizes()),
        None => None,
    }
}

/// The sizes of the entries, in their order.
pub open spec fn sizes_of(entries: Seq<SizedPngData>) -> Seq<(u32, u32)> {
    Seq::new(entries.len(), |i: int| (entries[i].width, entries[i].height))
}

/// No two of the sizes that are kept are the same.
pub proof fn lemma_available_sizes_differ()
    ensures
        available_sizes().no_duplicates(),
{
    let all = available_sizes();
    assert(all[0] == (1920u32, 1080u32) && all[1] == (1280u32, 720u32) && all[2] == (960u32, 540u32)
        && all[3] == (640u32, 360u32));
}

/// A picture brought to a list of sizes has one entry for each size, in the
/// order of the list.
pub proof fn lemma_in_sizes(encoded: Seq<u8>, own: (u32, u32), sizes: Seq<(u32, u32)>)
    requires
        in_sizes(encoded, own, sizes) is Some,
    ensures
        sizes_of(in_sizes(encoded, own, sizes)->0) == sizes,
    decreases sizes.len(),
{
    if sizes.len() == 0 {
        assert(sizes_of(in_sizes(encoded, own, sizes)->0) =~= sizes);
    } else {
        lemma_in_sizes(encoded, own, sizes.drop_last());
        let before = in_sizes(encoded, own, sizes.drop_last())->0;
        let last = in_size(encoded, own, sizes.last())->0;
        assert(sizes_of(before.push(last)) =~= sizes_of(before).push(sizes.last()));
        assert(sizes.drop_last().push(sizes.last()) =~= sizes);
    }
}

/// Once one size has failed, the list has.
pub proof fn lemma_in_sizes_fail(encoded: Seq<u8>, own: (u32, u32), sizes: Seq<(u32, u32)>, k: int)
    requires
        0 <= k <= sizes.len(),
        in_sizes(encoded, own, sizes.take(k)) is None,
    ensures
        in_sizes(encoded, own, sizes) is None,
    decreases sizes.len(),
{
    if k == sizes.len() {
        assert(sizes.take(k) =~= sizes);
    } else {
        assert(sizes.drop_last().take(k) =~= sizes.take(k));
        lemma_in_sizes_fail(encoded, own, sizes.drop_last(), k);
    }
}

/// Once one candidate has failed, the source set has.
pub proof fn lemma_candidates_fail(sizes: Seq<(u32, u32)>, src: Seq<char>, k: int)
    requires
        0 <= k <= sizes.len(),
        candidates(sizes.take(k), src) is None,
    ensures
        candidates(sizes, src) is None,
    decreases sizes.len(),
{
    if k == sizes.len() {
        assert(sizes.take(k) =~= sizes);
    } else {
        assert(sizes.drop_last().take(k) =~= sizes.take(k));
        lemma_candidates_fail(sizes.drop_last(), src, k);
    }
}

/// The place of the first picture with the address `src`.
pub open spec fn place_of_src(images: Seq<ImageData>, src: Seq<char>) -> Option<int>
    decreases images.len(),
{
    if images.len() == 0 {
        None
    } else if images.first().src == src {
        Some(0)
    } else {
        match place_of_src(images.drop_first(), src) {
            Some(i) => Some(i + 1),
            None => None,
        }
    }
}

/// The place of the first entry of the size `width` by `height`.
pub open spec fn place_of_size(entries: Seq<SizedPngData>, width: u32, height: u32) -> Option<int>
    decreases entries.len(),
{
    if entries.len() == 0 {
        None
    } else if entries.first().width == width && entries.first().height == height {
        Some(0)
    } else {
        match place_of_size(entries.drop_first(), width, height) {
            Some(i) => Some(i + 1),
            None => None,
        }
    }
}

/// What a request is answered with.
pub enum ResizedData {
    Unprocessable,
    NotFound,
    Failed,
    Png(Seq<u8>),
}

impl<'a> View for Resized<'a> {
    type V = ResizedData;

    open spec fn view(&self) -> ResizedData {
        match self {
            Resized::Unprocessable => ResizedData::Unprocessable,
            Resized::NotFound => ResizedData::NotFound,
            Resized::Failed => ResizedData::Failed,
            Resized::Png(bytes) => ResizedData::Png(bytes@),
        }
    }
}

/// The answer to the request for the picture `src` in `width` by `height`.
/// The size is looked at first: a request for another size is refused
/// whatever it asks for.
pub open spec fn resized(images: Seq<ImageData>, width: u32, height: u32, src: Seq<char>) -> ResizedData {
    if !available_sizes().contains((width, height)) {
        ResizedData::Unprocessable
    } else {
        match place_of_src(images, src) {
            None => ResizedData::NotFound,
            Some(i) => match place_of_size(images[i].size_to_image_bytes, width, height) {
                None => ResizedData::Failed,
                Some(k) => ResizedData::Png(images[i].size_to_image_bytes[k].bytes),
            },
        }
    }
}

/// The pictures after the one at place `i` has left: the last one takes its
/// place.
pub open spec fn swap_removed(images: Seq<ImageData>, i: int) -> Seq<ImageData> {
    images.update(i, images.last()).drop_last()
}

/// The pictures after the first one with the address `src` has left.
pub open spec fn without_src(images: Seq<ImageData>, src: Seq<char>) -> Seq<ImageData> {
    match place_of_src(images, src) {
        Some(i) => swap_removed(images, i),
        None => images,
    }
}

/// A change as plain values.
pub enum ChangeData {
    Renamed { from: Seq<char>, to: ImageData },
    Created(ImageData),
    Removed(Seq<char>),
}

impl View for Change {
    type V = ChangeData;

    open spec fn view(&self) -> ChangeData {
        match self {
            Change::Renamed { from, to } => ChangeData::Renamed { from: from@, to: to@ },
            Change::Created(image) => ChangeData::Created(image@),
            Change::Removed(src) => ChangeData::Removed(src@),
        }
    }
}

/// The pictures after a change. A change that speaks of a picture that is
/// not there changes nothing.
pub open spec fn changed(images: Seq<ImageData>, change: ChangeData) -> Seq<ImageData> {
    match change {
        ChangeData::Renamed { from, to } => match place_of_src(images, from) {
            Some(i) => swap_removed(images, i).push(to),
            None => images,
        },
        ChangeData::Created(image) => images.push(image),
        ChangeData::Removed(src) => without_src(images, src),
    }
}

/// Whether a change found the picture that it speaks of.
pub open spec fn applies(images: Seq<ImageData>, change: ChangeData) -> bool {
    match change {
        ChangeData::Renamed { from, to } => place_of_src(images, from) is Some,
        ChangeData::Created(image) => true,
        ChangeData::Removed(src) => place_of_src(images, src) is Some,
    }
}

/// A place that `place_of_src` gives is a place of the list.
pub proof fn lemma_place_of_src(images: Seq<ImageData>, src: Seq<char>)
    ensures
        match place_of_src(images, src) {
            Some(i) => 0 <= i < images.len() && images[i].src == src,
            None => forall|k: int| 0 <= k < images.len() ==> (#[trigger] images[k]).src != src,
        },
    decreases images.len(),
{
    if images.len() > 0 && images.first().src != src {
        lemma_place_of_src(images.drop_first(), src);
        let rest = images.drop_first();
        match place_of_src(rest, src) {
            Some(i) => {
                assert(images[i + 1] == rest[i]);
            },
            None => {
                assert forall|k: int| 0 <= k < images.len() implies (#[trigger] images[k]).src != src by {
                    if k > 0 {
                        assert(images[k] == rest[k - 1]);
                    }
                }
            },
        }
    }
}

/// The sizes in which every picture is kept.
pub fn sizes() -> (sizes: Vec<(u32, u32)>)
    ensures
        sizes@ == available_sizes(),
{
    let mut sizes: Vec<(u32, u32)> = Vec::new();
    sizes.push((1920, 1080));
    sizes.push((1280, 720));
    sizes.push((960, 540));
    sizes.push((640, 360));
    assert(sizes@ =~= available_sizes());
    sizes
}

/// Whether pictures are kept in the size `width` by `height`.
pub fn is_available(width: u32, height: u32) -> (kept: bool)
    ensures
        kept == available_sizes().contains((width, height)),
{
    let kept = (width == 1920 && height == 1080) || (width == 1280 && height == 720) || (width == 960
        && height == 540) || (width == 640 && height == 360);
    proof {
        let all = available_sizes();
        if kept {
            assert(all[0] == (1920u32, 1080u32) && all[1] == (1280u32, 720u32) && all[2] == (
                960u32,
                540u32,
            ) && all[3] == (640u32, 360u32));
        }
    }
    kept
}

impl Image {
    /// A picture is kept at most once in a size: a size then stands for one
    /// entry, as a key does.
    pub open spec fn wf(&self) -> bool {
        sizes_of(self@.size_to_image_bytes).no_duplicates()
    }

    /// The name shown for a picture whose file is called `stem`.
    pub fn path_to_name(stem: &str) -> (name: String)
        ensures
            name@ == spaced(stem@),
    {
        let chars = chars_of(stem);
        let mut name: Vec<char> = Vec::new();
        let mut i: usize = 0;
        proof {
            assert(chars@.take(0) =~= Seq::<char>::empty());
        }
        while i < chars.len()
            invariant
                i <= chars.len(),
                chars@ == stem@,
                name@ == spaced(chars@.take(i as int)),
            decreases chars.len() - i,
        {
            proof {
                assert(chars@.take(i + 1).drop_last() =~= chars@.take(i as int));
                assert(chars@.take(i + 1).last() == chars@[i as int]);
            }
            if i > 0 && chars[i].is_uppercase() {
                name.push(' ');
            }
            name.push(chars[i]);
            i += 1;
        }
        proof {
            assert(chars@.take(chars.len() as int) =~= chars@);
        }
        string_of(&name)
    }

    /// The description of a picture: none is kept yet.
    pub fn path_to_desc() -> (desc: Option<String>)
        ensures
            opt_string_view(desc) == Some(Seq::<char>::empty()),
    {
        Some(String::new())
    }

    /// The source set of the picture at the address `src`: one candidate
    /// for each size that is kept.
    pub fn src_to_srcset(src: &str) -> (srcset: Option<String>)
        ensures
            opt_string_view(srcset) == candidates(available_sizes(), src@),
    {
        let sizes = sizes();
        let mut srcset = String::new();
        let mut i: usize = 0;
        proof {
            assert(sizes@.take(0) =~= Seq::<(u32, u32)>::empty());
        }
        while i < sizes.len()
            invariant
                i <= sizes.len(),
                sizes@ == available_sizes(),
                candidates(sizes@.take(i as int), src@) == Some(srcset@),
            decreases sizes.len() - i,
        {
            let (width, height) = sizes[i];
            proof {
                assert(sizes@.take(i + 1).drop_last() =~= sizes@.take(i as int));
                assert(sizes@.take(i + 1).last() == sizes@[i as int]);
            }
            let mut fields: Vec<(String, String)> = Vec::new();
            fields.push((String::from_str("width"), decimal_text(width)));
            fields.push((String::from_str("height"), decimal_text(height)));
            fields.push((String::from_str("src"), String::from_str(src)));
            proof {
                assert(pairs_view(fields@) =~= resize_fields(width, height, src@));
            }
            let query = match to_form(&fields) {
                Ok(query) => query,
                Err(_) => {
                    proof {
                        lemma_candidates_fail(sizes@, src@, i + 1);
                    }
                    return None;
                },
            };
            if i > 0 {
                srcset.append(", ");
            }
            srcset.append(RESIZER_PATH);
            srcset.append(query.as_str());
            srcset.append(" ");
            srcset.append(decimal_text(width).as_str());
            srcset.append("w");
            proof {
                let last = candidate((width, height), src@)->0;
                let before = candidates(sizes@.take(i as int), src@)->0;
                if i > 0 {
                    assert(srcset@ =~= before + ", "@ + last);
                } else {
                    assert(before =~= Seq::<char>::empty());
                    assert(srcset@ =~= last);
                }
            }
            i += 1;
        }
        proof {
            assert(sizes@.take(sizes.len() as int) =~= sizes@);
        }
        Some(srcset)
    }

    /// The picture `encoded` in every size that is kept.
    pub fn path_to_resized_image_bytes(encoded: &Vec<u8>) -> (entries: Option<Vec<SizedPng>>)
        ensures
            match entries {
                Some(entries) => in_available_sizes(encoded@) == Some(sized_view(entries@))
                    && sizes_of(sized_view(entries@)) == available_sizes(),
                None => in_available_sizes(encoded@) is None,
            },
    {
        let own = match size_of(encoded) {
            Ok(own) => own,
            Err(_) => {
                return None;
            },
        };
        let sizes = sizes();
        let mut entries: Vec<SizedPng> = Vec::new();
        let mut i: usize = 0;
        proof {
            assert(sizes@.take(0) =~= Seq::<(u32, u32)>::empty());
            assert(sized_view(entries@) =~= Seq::<SizedPngData>::empty());
        }
        while i < sizes.len()
            invariant
                i <= sizes.len(),
                sizes@ == available_sizes(),
                picture_size(encoded@) == Some(own),
                in_sizes(encoded@, own, sizes@.take(i as int)) == Some(sized_view(entries@)),
            decreases sizes.len() - i,
        {
            let (width, height) = sizes[i];
            proof {
                assert(sizes@.take(i + 1).drop_last() =~= sizes@.take(i as int));
                assert(sizes@.take(i + 1).last() == sizes@[i as int]);
                let all = available_sizes();
                assert(all[0] == (1920u32, 1080u32) && all[1] == (1280u32, 720u32) && all[2] == (
                    960u32,
                    540u32,
                ) && all[3] == (640u32, 360u32));
                assert(0 < width <= SIDE_LIMIT && 0 < height <= SIDE_LIMIT);
            }
            let png = if own.0 == width && own.1 == height {
                to_png(encoded)
            } else {
                resize_to_png(encoded, width, height)
            };
            match png {
                Ok(bytes) => {
                    let ghost before = sized_view(entries@);
                    let entry = SizedPng { width, height, bytes };
                    entries.push(entry);
                    proof {
                        assert(sized_view(entries@) =~= before.push(entry@));
                    }
                },
                Err(_) => {
                    proof {
                        lemma_in_sizes_fail(encoded@, own, sizes@, i + 1);
                    }
                    return None;
                },
            }
            i += 1;
        }
        proof {
            assert(sizes@.take(sizes.len() as int) =~= sizes@);
            lemma_in_sizes(encoded@, own, sizes@);
        }
        Some(entries)
    }

    /// The picture of the file at `path`. `src` is the address that the path
    /// gives, or the reason why it gives none; `stem` is the name of the file
    /// without its extension, if the path names a file; `encoded` is what
    /// the file holds. A path without address is reported first, then a file
    /// without picture, then a path without file name.
    pub fn try_from(path: &str, src: Result<String, String>, stem: Option<&str>, encoded: &Vec<u8>) -> (image: Result<
        Image,
        ImageFault,
    >)
        ensures
            match image {
                Ok(image) => image.wf() && src is Ok && stem is Some && candidates(available_sizes(), src->Ok_0@)
                    is Some && in_available_sizes(encoded@) is Some && image@ == (ImageData {
                    name: spaced(stem->0@),
                    href: src->Ok_0@,
                    srcset: candidates(available_sizes(), src->Ok_0@)->0,
                    src: src->Ok_0@,
                    desc: Seq::<char>::empty(),
                    size_to_image_bytes: in_available_sizes(encoded@)->0,
                }),
                Err(ImageFault::Src(reason)) => src is Err && reason@ == src->Err_0@,
                Err(ImageFault::Picture) => src is Ok && (in_available_sizes(encoded@) is None
                    || candidates(available_sizes(), src->Ok_0@) is None),
                Err(ImageFault::Name(message)) => src is Ok && in_available_sizes(encoded@) is Some
                    && candidates(available_sizes(), src->Ok_0@) is Some && stem is None && message@
                    == crate::err::UNICODE_ERROR_PREFIX@ + crate::err::debug_text(path@),
            },
    {
        let src = match src {
            Ok(src) => src,
            Err(reason) => {
                return Err(ImageFault::Src(reason));
            },
        };
        let entries = match Image::path_to_resized_image_bytes(encoded) {
            Some(entries) => entries,
            None => {
                return Err(ImageFault::Picture);
            },
        };
        let srcset = match Image::src_to_srcset(src.as_str()) {
            Some(srcset) => srcset,
            None => {
                return Err(ImageFault::Picture);
            },
        };
        proof {
            lemma_available_sizes_differ();
        }
        match stem {
            Some(stem) => Ok(
                Image {
                    name: Image::path_to_name(stem),
                    href: src.clone(),
                    srcset,
                    src,
                    desc: String::new(),
                    size_to_image_bytes: entries,
                },
            ),
            None => Err(ImageFault::Name(unicode_error(path))),
        }
    }
}

impl Gallery {
    /// The plain values of the pictures.
    pub open spec fn pictures(&self) -> Seq<ImageData> {
        images_view(self.images@)
    }

    /// An empty gallery.
    pub fn new(parent: Arc<Base>) -> (gallery: Gallery)
        ensures
            gallery._parent == parent,
            gallery.images@.len() == 0,
    {
        Gallery { _parent: parent, images: Vec::new() }
    }

    /// The place of the first picture with the address `src`.
    pub fn find_image(&self, src: &str) -> (place: Option<usize>)
        ensures
            match place {
                Some(i) => place_of_src(self.pictures(), src@) == Some(i as int) && i
                    < self.images@.len(),
                None => place_of_src(self.pictures(), src@) is None,
            },
    {
        let wanted = String::from_str(src);
        let ghost all = self.pictures();
        let mut i: usize = 0;
        proof {
            assert(all.skip(0) =~= all);
        }
        while i < self.images.len()
            invariant
                i <= self.images.len(),
                all == self.pictures(),
                wanted@ == src@,
                place_of_src(all, src@) == match place_of_src(all.skip(i as int), src@) {
                    Some(k) => Some(k + i),
                    None => None,
                },
            decreases self.images.len() - i,
        {
            proof {
                assert(all.skip(i as int).first() == self.images@[i as int]@);
                assert(all.skip(i as int).drop_first() =~= all.skip(i + 1));
            }
            if self.images[i].src == wanted {
                return Some(i);
            }
            i += 1;
        }
        None
    }

    /// Answers the request for a picture in a size.
    pub fn get_resizer(&self, query: &Resize) -> (answer: Resized<'_>)
        ensures
            answer@ == resized(self.pictures(), query.width, query.height, query.src@),
    {
        if !is_available(query.width, query.height) {
            return Resized::Unprocessable;
        }
        let place = match self.find_image(query.src.as_str()) {
            Some(place) => place,
            None => {
                return Resized::NotFound;
            },
        };
        let image = &self.images[place];
        assert(self.pictures()[place as int] == image@);
        let ghost all = sized_view(image.size_to_image_bytes@);
        let mut k: usize = 0;
        proof {
            assert(all.skip(0) =~= all);
        }
        while k < image.size_to_image_bytes.len()
            invariant
                k <= image.size_to_image_bytes.len(),
                all == sized_view(image.size_to_image_bytes@),
                available_sizes().contains((query.width, query.height)),
                place_of_src(self.pictures(), query.src@) == Some(place as int),
                self.pictures()[place as int] == image@,
                place_of_size(all, query.width, query.height) == match place_of_size(
                    all.skip(k as int),
                    query.width,
                    query.height,
                ) {
                    Some(j) => Some(j + k),
                    None => None,
                },
            decreases image.size_to_image_bytes.len() - k,
        {
            let entry = &image.size_to_image_bytes[k];
            proof {
                assert(all.skip(k as int).first() == entry@);
                assert(all.skip(k as int).drop_first() =~= all.skip(k + 1));
                assert(all[k as int] == entry@);
            }
            if entry.width == query.width && entry.height == query.height {
                return Resized::Png(&entry.bytes);
            }
            k += 1;
        }
        Resized::Failed
    }

    /// Takes the first picture with the address `src_to_remove` out of the
    /// gallery; the last picture takes its place.
    pub fn remove_image(&mut self, src_to_remove: &str) -> (removed: Option<Image>)
        ensures
            final(self)._parent == old(self)._parent,
            final(self).pictures() == without_src(old(self).pictures(), src_to_remove@),
            match removed {
                Some(image) => place_of_src(old(self).pictures(), src_to_remove@) is Some && image@
                    == old(self).pictures()[place_of_src(old(self).pictures(), src_to_remove@)->0],
                None => place_of_src(old(self).pictures(), src_to_remove@) is None,
            },
    {
        match self.find_image(src_to_remove) {
            Some(place) => {
                let ghost before = self.pictures();
                let image = self.images.swap_remove(place);
                proof {
                    assert(before[place as int] == image@);
                    assert(self.pictures() =~= swap_removed(before, place as int));
                }
                Some(image)
            },
            None => None,
        }
    }

    /// Takes a picture into the gallery, behind the others.
    pub fn add_image(&mut self, image: Image)
        ensures
            final(self)._parent == old(self)._parent,
            final(self).pictures() == old(self).pictures().push(image@),
    {
        let ghost before = self.pictures();
        self.images.push(image);
        proof {
            assert(self.pictures() =~= before.push(image@));
        }
    }

    /// Follows a change in the gallery's directory, and tells whether the
    /// picture that the change speaks of was there.
    pub fn update(&mut self, change: Change) -> (found: bool)
        ensures
            final(self)._parent == old(self)._parent,
            final(self).pictures() == changed(old(self).pictures(), change@),
            found == applies(old(self).pictures(), change@),
    {
        match change {
            Change::Renamed { from, to } => match self.remove_image(from.as_str()) {
                Some(_) => {
                    self.add_image(to);
                    true
                },
                None => false,
            },
            Change::Created(image) => {
                self.add_image(image);
                true
            },
            Change::Removed(src) => self.remove_image(src.as_str()).is_some(),
        }
    }
}

} // verus!
