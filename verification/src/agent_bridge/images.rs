//! Images in messages. A stored message refers to an image by the name of a file;
//! everywhere else the image stands in the message itself, as a data URL.
//!
//! Reading and writing the files is left to the caller: the functions here say
//! which files are needed, and work on what was read.

use vstd::prelude::*;
use vstd::string::*;
use crate::json::{
    items_view, lemma_depth_insert, lemma_items, lemma_items_push, lemma_printable_insert,
    lemma_printable_item, lemma_printable_member, set_member, text_json, Json, JsonV,
};
use crate::text::{
    chars_of, deep, find_char, first_at, first_where, has_prefix, has_suffix, lemma_deep_push,
    lemma_first, lemma_no_first, lemma_take_next, opt, same_text, strip_prefix, strip_suffix, Dup,
};

verus! {

broadcast use lemma_deep_push;

/// What stands in front of a file's name in a message.
pub const IMAGE_REF_PREFIX: &'static str = "supercoder-image:";

/// Where a session's images are kept, as the parts of a path.
pub fn images_dir(app_data_dir: &str, session_id: &str) -> (r: Vec<String>)
    ensures
        deep(r@) == seq![app_data_dir@, "images"@, session_id@],
{
    let mut parts: Vec<String> = Vec::new();
    parts.push(app_data_dir.to_owned());
    parts.push("images".to_owned());
    parts.push(session_id.to_owned());
    assert(deep(parts@) =~= seq![app_data_dir@, "images"@, session_id@]);
    parts
}

// ── Kinds of image ──

pub open spec fn extension_for(media: Seq<char>) -> Seq<char> {
    if media == "image/png"@ {
        "png"@
    } else if media == "image/jpeg"@ || media == "image/jpg"@ {
        "jpg"@
    } else if media == "image/gif"@ {
        "gif"@
    } else if media == "image/webp"@ {
        "webp"@
    } else if media == "image/svg+xml"@ {
        "svg"@
    } else if media == "image/bmp"@ {
        "bmp"@
    } else {
        "img"@
    }
}

pub open spec fn media_for(ext: Seq<char>) -> Seq<char> {
    if ext == "png"@ {
        "image/png"@
    } else if ext == "jpg"@ || ext == "jpeg"@ {
        "image/jpeg"@
    } else if ext == "gif"@ {
        "image/gif"@
    } else if ext == "webp"@ {
        "image/webp"@
    } else if ext == "svg"@ {
        "image/svg+xml"@
    } else if ext == "bmp"@ {
        "image/bmp"@
    } else {
        "application/octet-stream"@
    }
}

/// The extension of a file that holds an image of this kind.
pub fn ext_for_media(media: &str) -> (r: &'static str)
    ensures
        r@ == extension_for(media@),
{
    if same_text(media, "image/png") {
        "png"
    } else if same_text(media, "image/jpeg") || same_text(media, "image/jpg") {
        "jpg"
    } else if same_text(media, "image/gif") {
        "gif"
    } else if same_text(media, "image/webp") {
        "webp"
    } else if same_text(media, "image/svg+xml") {
        "svg"
    } else if same_text(media, "image/bmp") {
        "bmp"
    } else {
        "img"
    }
}

/// The kind of image that a file with this extension holds.
pub fn media_for_ext(ext: &str) -> (r: String)
    ensures
        r@ == media_for(ext@),
{
    if same_text(ext, "png") {
        "image/png".to_owned()
    } else if same_text(ext, "jpg") || same_text(ext, "jpeg") {
        "image/jpeg".to_owned()
    } else if same_text(ext, "gif") {
        "image/gif".to_owned()
    } else if same_text(ext, "webp") {
        "image/webp".to_owned()
    } else if same_text(ext, "svg") {
        "image/svg+xml".to_owned()
    } else if same_text(ext, "bmp") {
        "image/bmp".to_owned()
    } else {
        "application/octet-stream".to_owned()
    }
}

/// The kinds of image that have an extension of their own.
pub open spec fn known_media(media: Seq<char>) -> bool {
    media == "image/png"@ || media == "image/jpeg"@ || media == "image/gif"@ || media
        == "image/webp"@ || media == "image/svg+xml"@ || media == "image/bmp"@
}

/// A kind of image is found again by its extension.
pub proof fn law_media_roundtrip(media: Seq<char>)
    requires
        known_media(media),
    ensures
        media_for(extension_for(media)) == media,
        !extension_for(media).contains('.'),
        extension_for(media).len() > 0,
{
    reveal_strlit("png");
    reveal_strlit("jpg");
    reveal_strlit("jpeg");
    reveal_strlit("gif");
    reveal_strlit("webp");
    reveal_strlit("svg");
    reveal_strlit("bmp");
    reveal_strlit("img");
    reveal_strlit("image/png");
    reveal_strlit("image/jpeg");
    reveal_strlit("image/jpg");
    reveal_strlit("image/gif");
    reveal_strlit("image/webp");
    reveal_strlit("image/svg+xml");
    reveal_strlit("image/bmp");
    assert("png"@[0] == 'p' && "jpg"@[0] == 'j' && "gif"@[0] == 'g' && "svg"@[0] == 's' && "bmp"@[0]
        == 'b');
    assert("image/png"@[6] == 'p' && "image/gif"@[6] == 'g' && "image/bmp"@[6] == 'b'
        && "image/jpg"@[6] == 'j');
    assert("image/jpeg"@[6] == 'j' && "image/webp"@[6] == 'w');
    assert("jpeg"@[0] == 'j' && "webp"@[0] == 'w');
}

/// The place of the last dot.
pub open spec fn last_dot(s: Seq<char>, i: int) -> bool {
    &&& 0 <= i < s.len()
    &&& s[i] == '.'
    &&& forall|j: int| i < j < s.len() ==> s[j] != '.'
}

/// What stands behind the last dot of a file's name, unless the name begins with
/// that dot.
pub open spec fn extension_of(file: Seq<char>) -> Option<Seq<char>> {
    if exists|i: int| last_dot(file, i) {
        let i = choose|i: int| last_dot(file, i);
        if i > 0 && file[i - 1] != '/' { Some(file.skip(i + 1)) } else { None }
    } else {
        None
    }
}

/// The kind of image that a file holds, by its name.
pub open spec fn media_of_file(file: Seq<char>) -> Seq<char> {
    match extension_of(file) {
        Some(ext) => media_for(ext),
        None => media_for("img"@),
    }
}

fn file_media(file: &str) -> (r: String)
    ensures
        r@ == media_of_file(file@),
{
    let v = chars_of(file);
    let mut i: usize = v.len();
    while i > 0 && v[i - 1] != '.'
        invariant
            v@ == file@,
            i <= v@.len(),
            forall|j: int| i <= j < v@.len() ==> file@[j] != '.',
        decreases i,
    {
        i -= 1;
    }
    if i == 0 {
        return media_for_ext("img");
    }
    proof {
        assert(last_dot(file@, i - 1));
        let k = choose|k: int| last_dot(file@, k);
        assert(k == i - 1) by {
            if k < i - 1 {
                assert(file@[i - 1] != '.');
            }
            if k > i - 1 {
                assert(file@[k] != '.');
            }
        }
    }
    if i > 1 && v[i - 2] != '/' {
        let ext = file.substring_char(i, v.len());
        assert(ext@ =~= file@.skip(i as int));
        media_for_ext(ext)
    } else {
        media_for_ext("img")
    }
}

// ── Data URLs ──

/// What `s` holds up to a comma, and behind it.
pub open spec fn split_comma(s: Seq<char>) -> Option<(Seq<char>, Seq<char>)> {
    if s.contains(',') {
        let i = choose|i: int| first_at(s, ',', i);
        Some((s.take(i), s.skip(i + 1)))
    } else {
        None
    }
}

/// The kind and the data of a data URL.
pub open spec fn data_uri(url: Seq<char>) -> Option<(Seq<char>, Seq<char>)> {
    if !has_prefix(url, "data:"@) {
        None
    } else {
        match split_comma(url.skip("data:"@.len() as int)) {
            None => None,
            Some((meta, data)) => {
                let media = if has_suffix(meta, ";base64"@) {
                    meta.take(meta.len() - ";base64"@.len())
                } else {
                    meta
                };
                if media.len() == 0 { None } else { Some((media, data)) }
            },
        }
    }
}

pub fn parse_data_uri(url: &str) -> (r: Option<(String, String)>)
    ensures
        match r {
            Some(p) => data_uri(url@) == Some((p.0@, p.1@)),
            None => data_uri(url@) is None,
        },
{
    let rest = match strip_prefix(url, "data:") {
        Some(s) => s,
        None => {
            return None;
        },
    };
    let at: usize = match find_char(rest, ',') {
        Some(i) => i,
        None => {
            return None;
        },
    };
    proof {
        assert(rest@.contains(','));
        let k = choose|k: int| first_at(rest@, ',', k);
        assert(first_at(rest@, ',', at as int));
        assert(k == at) by {
            if k < at {
                assert(rest@[k] != ',');
            }
            if k > at {
                assert(rest@[at as int] != ',');
            }
        }
    }
    let n: usize = rest.unicode_len();
    let meta = rest.substring_char(0, at);
    let data = rest.substring_char(at + 1, n);
    assert(meta@ =~= rest@.take(at as int));
    assert(data@ =~= rest@.skip(at + 1));
    let media = match strip_suffix(meta, ";base64") {
        Some(m) => m,
        None => meta,
    };
    if media.unicode_len() == 0 {
        None
    } else {
        Some((media.to_owned(), data.to_owned()))
    }
}

/// The bytes that a text stands for in standard base64.
pub uninterp spec fn b64_decoded(data: Seq<char>) -> Option<Seq<u8>>;

/// The text that stands for bytes in standard base64.
pub uninterp spec fn b64_encoded(bytes: Seq<u8>) -> Seq<char>;

/// `decode` of `base64`'s `STANDARD` engine: the bytes, or `None` for any error. The
/// engine takes a text only in its canonical form, so that encoding the bytes gives
/// the text back.
#[verifier::external_body]
fn b64_decode(data: &str) -> (r: Option<Vec<u8>>)
    ensures
        opt(r) == b64_decoded(data@),
        r matches Some(bytes) ==> b64_encoded(bytes@) == data@,
{
    base64::Engine::decode(&base64::engine::general_purpose::STANDARD, data.as_bytes()).ok()
}

/// `encode` of `base64`'s `STANDARD` engine: the text, which decodes to the bytes.
#[verifier::external_body]
fn b64_encode(bytes: &Vec<u8>) -> (r: String)
    ensures
        r@ == b64_encoded(bytes@),
        b64_decoded(r@) == Some(bytes@),
{
    base64::Engine::encode(&base64::engine::general_purpose::STANDARD, bytes)
}

/// The data URL of a file's bytes.
pub open spec fn data_url_of(file: Seq<char>, bytes: Seq<u8>) -> Seq<char> {
    "data:"@ + media_of_file(file) + ";base64,"@ + b64_encoded(bytes)
}

/// The image that a URL holds itself: its kind and its bytes.
pub open spec fn inline_image(url: Seq<char>) -> Option<(Seq<char>, Seq<u8>)> {
    match data_uri(url) {
        Some((media, data)) => match b64_decoded(data) {
            Some(bytes) => Some((media, bytes)),
            None => None,
        },
        None => None,
    }
}

proof fn lemma_extension(name: Seq<char>, ext: Seq<char>)
    requires
        name.len() > 0,
        name.last() != '/',
        !ext.contains('.'),
    ensures
        extension_of(name + "."@ + ext) == Some(ext),
{
    reveal_strlit(".");
    let f = name + "."@ + ext;
    let n = name.len() as int;
    assert(f[n] == '.');
    assert forall|j: int| n < j < f.len() implies f[j] != '.' by {
        assert(f[j] == ext[j - n - 1]);
    }
    assert(last_dot(f, n));
    let k = choose|k: int| last_dot(f, k);
    assert(k == n) by {
        if k < n {
            assert(f[n] != '.');
        }
        if k > n {
            assert(f[k] != '.');
        }
    }
    assert(f.skip(n + 1) =~= ext);
    assert(f[n - 1] == name.last());
}

/// An image of a known kind that is moved to a file, under a name with the
/// extension of its kind, and back again stands in the message as before. `data`
/// is the canonical text of the bytes, as it is of every text that was decoded.
pub proof fn law_image_roundtrip(media: Seq<char>, data: Seq<char>, bytes: Seq<u8>, name: Seq<char>)
    requires
        known_media(media),
        b64_encoded(bytes) == data,
        name.len() > 0,
        name.last() != '/',
    ensures
        data_url_of(name + "."@ + extension_for(media), bytes) == "data:"@ + media + ";base64,"@
            + data,
{
    law_media_roundtrip(media);
    lemma_extension(name, extension_for(media));
}

// ── Images in messages ──

/// An image that is to be put in a file.
#[derive(Debug, PartialEq)]
pub struct PendingImage {
    /// The block of the message that holds it.
    pub block: usize,
    /// The extension of the file.
    pub extension: String,
    pub bytes: Vec<u8>,
}

/// What a [`PendingImage`] stands for.
#[verifier::ext_equal]
pub struct PendingImageView {
    pub block: int,
    pub extension: Seq<char>,
    pub bytes: Seq<u8>,
}

impl View for PendingImage {
    type V = PendingImageView;

    open spec fn view(&self) -> PendingImageView {
        PendingImageView { block: self.block as int, extension: self.extension@, bytes: self.bytes@ }
    }
}

/// An image that was put in a file.
#[derive(Debug, PartialEq)]
pub struct SavedImage {
    pub block: usize,
    pub file: String,
}

/// What a [`SavedImage`] stands for.
#[verifier::ext_equal]
pub struct SavedImageView {
    pub block: int,
    pub file: Seq<char>,
}

impl View for SavedImage {
    type V = SavedImageView;

    open spec fn view(&self) -> SavedImageView {
        SavedImageView { block: self.block as int, file: self.file@ }
    }
}

/// A file of a session that could be read.
#[derive(Debug, PartialEq)]
pub struct ImageFile {
    pub session_id: String,
    pub file: String,
    pub bytes: Vec<u8>,
}

/// What an [`ImageFile`] stands for.
#[verifier::ext_equal]
pub struct ImageFileView {
    pub session_id: Seq<char>,
    pub file: Seq<char>,
    pub bytes: Seq<u8>,
}

impl View for ImageFile {
    type V = ImageFileView;

    open spec fn view(&self) -> ImageFileView {
        ImageFileView { session_id: self.session_id@, file: self.file@, bytes: self.bytes@ }
    }
}

/// The URL of the image in a block.
pub open spec fn block_url(b: JsonV) -> Option<Seq<char>> {
    match b.get("image_url"@) {
        Some(i) => match i.get("url"@) {
            Some(u) => u.as_str(),
            None => None,
        },
        None => None,
    }
}

/// The block with another URL.
pub open spec fn with_url(b: JsonV, url: Seq<char>) -> JsonV {
    match b {
        JsonV::Object(m) => match b.get("image_url"@) {
            Some(JsonV::Object(i)) => JsonV::Object(
                m.insert("image_url"@, JsonV::Object(i.insert("url"@, JsonV::Str(url)))),
            ),
            _ => b,
        },
        _ => b,
    }
}

/// The blocks of a message that consists of blocks.
pub open spec fn blocks_of(j: JsonV) -> Option<Seq<JsonV>> {
    match j.get("content"@) {
        Some(c) => c.as_array(),
        None => None,
    }
}

/// The message with other blocks.
pub open spec fn with_blocks(j: JsonV, bs: Seq<JsonV>) -> JsonV {
    match j {
        JsonV::Object(m) => JsonV::Object(m.insert("content"@, JsonV::Array(bs))),
        _ => j,
    }
}

/// The image that a block holds itself.
pub open spec fn block_image(b: JsonV) -> Option<(Seq<char>, Seq<u8>)> {
    match block_url(b) {
        Some(url) => inline_image(url),
        None => None,
    }
}

/// The base64 text in the URL of a block.
pub open spec fn block_data(b: JsonV) -> Option<Seq<char>> {
    match block_url(b) {
        Some(url) => match data_uri(url) {
            Some((_, data)) => Some(data),
            None => None,
        },
        None => None,
    }
}

/// The images that blocks hold themselves, in order.
pub open spec fn pending_in(bs: Seq<JsonV>) -> Seq<PendingImageView>
    decreases bs.len(),
{
    if bs.len() == 0 {
        Seq::empty()
    } else {
        let rest = pending_in(bs.drop_last());
        match block_image(bs.last()) {
            Some((media, bytes)) => rest.push(
                PendingImageView { block: bs.len() - 1, extension: extension_for(media), bytes },
            ),
            None => rest,
        }
    }
}

/// The file that the image of a block was put in.
pub open spec fn file_of_block(saved: Seq<SavedImageView>, i: int) -> Option<Seq<char>> {
    match first_where(saved.len() as int, |k: int| saved[k].block == i) {
        Some(k) => Some(saved[k].file),
        None => None,
    }
}

/// The message with the images that were put in files replaced by references.
pub open spec fn externalized(j: JsonV, saved: Seq<SavedImageView>) -> JsonV {
    match blocks_of(j) {
        Some(bs) => with_blocks(
            j,
            Seq::new(
                bs.len(),
                |i: int|
                    match file_of_block(saved, i) {
                        Some(file) => if block_image(bs[i]) is Some {
                            with_url(bs[i], IMAGE_REF_PREFIX@ + file)
                        } else {
                            bs[i]
                        },
                        None => bs[i],
                    },
            ),
        ),
        None => j,
    }
}

/// The file that a block refers to.
pub open spec fn block_ref(b: JsonV) -> Option<Seq<char>> {
    match block_url(b) {
        Some(url) => if has_prefix(url, IMAGE_REF_PREFIX@) {
            Some(url.skip(IMAGE_REF_PREFIX@.len() as int))
        } else {
            None
        },
        None => None,
    }
}

/// The files that blocks refer to, in order.
pub open spec fn refs_in(bs: Seq<JsonV>) -> Seq<Seq<char>>
    decreases bs.len(),
{
    if bs.len() == 0 {
        Seq::empty()
    } else {
        match block_ref(bs.last()) {
            Some(file) => refs_in(bs.drop_last()).push(file),
            None => refs_in(bs.drop_last()),
        }
    }
}

/// What was read of a file.
pub open spec fn bytes_of(files: Seq<ImageFileView>, session_id: Seq<char>, file: Seq<char>) -> Option<
    Seq<u8>,
> {
    match first_where(
        files.len() as int,
        |k: int| files[k].session_id == session_id && files[k].file == file,
    ) {
        Some(k) => Some(files[k].bytes),
        None => None,
    }
}

/// The block with its reference, if it has one and the file could be read, replaced
/// by the image.
pub open spec fn inlined_block(b: JsonV, session_id: Seq<char>, files: Seq<ImageFileView>) -> JsonV {
    match block_ref(b) {
        Some(file) => match bytes_of(files, session_id, file) {
            Some(bytes) => with_url(b, data_url_of(file, bytes)),
            None => b,
        },
        None => b,
    }
}

/// The message with its references replaced by images.
pub open spec fn inlined(j: JsonV, session_id: Seq<char>, files: Seq<ImageFileView>) -> JsonV {
    match blocks_of(j) {
        Some(bs) => with_blocks(
            j,
            Seq::new(bs.len(), |i: int| inlined_block(bs[i], session_id, files)),
        ),
        None => j,
    }
}

fn get_block_url(b: &Json) -> (r: Option<&str>)
    ensures
        match r {
            Some(u) => block_url(b.view()) == Some(u@),
            None => block_url(b.view()) is None,
        },
{
    match b.get("image_url") {
        Some(i) => match i.get("url") {
            Some(u) => u.as_str(),
            None => None,
        },
        None => None,
    }
}

fn set_block_url(b: &Json, url: &str) -> (r: Json)
    ensures
        r.view() == with_url(b.view(), url@),
{
    let inner = match b.get("image_url") {
        Some(i) => i.dup(),
        None => {
            return b.dup();
        },
    };
    match (b.dup(), inner) {
        (Json::Object(mut m), Json::Object(mut i)) => {
            set_member(&mut i, "url", text_json(url));
            set_member(&mut m, "image_url", Json::Object(i));
            Json::Object(m)
        },
        (whole, _) => whole,
    }
}

fn get_blocks(j: &Json) -> (r: Option<&Vec<Json>>)
    ensures
        match r {
            Some(a) => blocks_of(j.view()) == Some(items_view(a@)),
            None => blocks_of(j.view()) is None,
        },
{
    match j.get("content") {
        Some(c) => c.as_array(),
        None => None,
    }
}

fn set_blocks(j: &Json, blocks: Vec<Json>) -> (r: Json)
    ensures
        r.view() == with_blocks(j.view(), items_view(blocks@)),
{
    match j.dup() {
        Json::Object(mut m) => {
            set_member(&mut m, "content", Json::Array(blocks));
            Json::Object(m)
        },
        whole => whole,
    }
}

fn get_image(url: &str) -> (r: Option<(String, Vec<u8>)>)
    ensures
        match r {
            Some(p) => inline_image(url@) == Some((p.0@, p.1@)) && data_uri(url@) == Some(
                (p.0@, b64_encoded(p.1@)),
            ),
            None => inline_image(url@) is None,
        },
{
    match parse_data_uri(url) {
        Some(p) => match b64_decode(p.1.as_str()) {
            Some(bytes) => Some((p.0, bytes)),
            None => None,
        },
        None => None,
    }
}

/// The images of a message that are to be put in files.
pub fn images_to_store(j: &Json) -> (r: Vec<PendingImage>)
    ensures
        deep(r@) == match blocks_of(j.view()) {
            Some(bs) => pending_in(bs),
            None => Seq::empty(),
        },
        forall|k: int|
            0 <= k < r@.len() ==> block_data(blocks_of(j.view())->0[(#[trigger] deep(r@)[k]).block])
                == Some(b64_encoded(deep(r@)[k].bytes)),
{
    let mut out: Vec<PendingImage> = Vec::new();
    assert(deep(out@) =~= Seq::<PendingImageView>::empty());
    let blocks = match get_blocks(j) {
        Some(a) => a,
        None => {
            return out;
        },
    };
    proof {
        lemma_items(blocks@);
    }
    let ghost bs = items_view(blocks@);
    let mut i: usize = 0;
    assert(bs.take(0) =~= Seq::empty());
    while i < blocks.len()
        invariant
            i <= blocks@.len(),
            bs == items_view(blocks@),
            bs.len() == blocks@.len(),
            forall|k: int| 0 <= k < blocks@.len() ==> #[trigger] bs[k] == blocks@[k].view(),
            deep(out@) == pending_in(bs.take(i as int)),
            forall|k: int|
                0 <= k < out@.len() ==> block_data(bs[(#[trigger] deep(out@)[k]).block]) == Some(
                    b64_encoded(deep(out@)[k].bytes),
                ),
        decreases blocks@.len() - i,
    {
        proof {
            assert(bs[i as int] == blocks@[i as int].view());
            lemma_take_next(bs, i as int);
            assert(bs.take(i + 1).drop_last() =~= bs.take(i as int));
        }
        if let Some(url) = get_block_url(&blocks[i]) {
            if let Some(p) = get_image(url) {
                let extension = ext_for_media(p.0.as_str()).to_owned();
                let ghost before = deep(out@);
                out.push(PendingImage { block: i, extension, bytes: p.1 });
                proof {
                    assert forall|k: int| 0 <= k < out@.len() implies block_data(
                        bs[(#[trigger] deep(out@)[k]).block],
                    ) == Some(b64_encoded(deep(out@)[k].bytes)) by {
                        if k < before.len() {
                            assert(before[k] == deep(out@)[k]);
                        }
                    }
                }
            }
        }
        i += 1;
    }
    assert(bs.take(i as int) =~= bs);
    out
}

fn find_saved(saved: &Vec<SavedImage>, block: usize) -> (r: Option<usize>)
    ensures
        match r {
            Some(k) => k < saved@.len() && file_of_block(deep(saved@), block as int) == Some(
                saved@[k as int].file@,
            ),
            None => file_of_block(deep(saved@), block as int) is None,
        },
{
    let ghost all = deep(saved@);
    let ghost hit = |k: int| all[k].block == block as int;
    let mut k: usize = 0;
    while k < saved.len()
        invariant
            k <= saved@.len(),
            all == deep(saved@),
            hit == (|k: int| all[k].block == block as int),
            forall|x: int| 0 <= x < k ==> !#[trigger] hit(x),
        decreases saved@.len() - k,
    {
        assert(all[k as int] == saved@[k as int]@);
        if saved[k].block == block {
            proof {
                assert(hit(k as int));
                lemma_first(all.len() as int, hit, k as int);
            }
            return Some(k);
        }
        assert(!hit(k as int));
        k += 1;
    }
    proof {
        lemma_no_first(all.len() as int, hit);
    }
    None
}

/// Replaces the images that were put in files by references.
pub fn externalize_images(j: &Json, saved: &Vec<SavedImage>) -> (r: Json)
    ensures
        r.view() == externalized(j.view(), deep(saved@)),
{
    let blocks = match get_blocks(j) {
        Some(a) => a,
        None => {
            return j.dup();
        },
    };
    proof {
        lemma_items(blocks@);
    }
    let ghost bs = items_view(blocks@);
    let ghost sv = deep(saved@);
    let ghost want = externalized(j.view(), sv)->Object_0["content"@]->Array_0;
    let mut out: Vec<Json> = Vec::new();
    let mut i: usize = 0;
    assert(items_view(out@) =~= want.take(0));
    while i < blocks.len()
        invariant
            i <= blocks@.len(),
            bs == items_view(blocks@),
            bs.len() == blocks@.len(),
            blocks_of(j.view()) == Some(bs),
            forall|k: int| 0 <= k < blocks@.len() ==> #[trigger] bs[k] == blocks@[k].view(),
            sv == deep(saved@),
            want == externalized(j.view(), sv)->Object_0["content"@]->Array_0,
            want.len() == bs.len(),
            items_view(out@) == want.take(i as int),
        decreases blocks@.len() - i,
    {
        let b = &blocks[i];
        assert(bs[i as int] == b.view());
        let mut new_block = b.dup();
        if let Some(k) = find_saved(saved, i) {
            if let Some(url) = get_block_url(b) {
                if get_image(url).is_some() {
                    let mut link = IMAGE_REF_PREFIX.to_owned();
                    link.append(saved[k].file.as_str());
                    new_block = set_block_url(b, link.as_str());
                }
            }
        }
        proof {
            assert(new_block.view() == want[i as int]);
            lemma_items_push(out@, new_block);
            lemma_take_next(want, i as int);
        }
        out.push(new_block);
        i += 1;
    }
    assert(want.take(i as int) =~= want);
    set_blocks(j, out)
}

fn get_ref(b: &Json) -> (r: Option<&str>)
    ensures
        match r {
            Some(f) => block_ref(b.view()) == Some(f@),
            None => block_ref(b.view()) is None,
        },
{
    match get_block_url(b) {
        Some(url) => strip_prefix(url, IMAGE_REF_PREFIX),
        None => None,
    }
}

/// The files that a message refers to, in order.
pub fn image_refs(j: &Json) -> (r: Vec<String>)
    ensures
        deep(r@) == match blocks_of(j.view()) {
            Some(bs) => refs_in(bs),
            None => Seq::empty(),
        },
{
    let mut out: Vec<String> = Vec::new();
    assert(deep(out@) =~= Seq::<Seq<char>>::empty());
    let blocks = match get_blocks(j) {
        Some(a) => a,
        None => {
            return out;
        },
    };
    proof {
        lemma_items(blocks@);
    }
    let ghost bs = items_view(blocks@);
    let mut i: usize = 0;
    assert(bs.take(0) =~= Seq::empty());
    while i < blocks.len()
        invariant
            i <= blocks@.len(),
            bs == items_view(blocks@),
            bs.len() == blocks@.len(),
            forall|k: int| 0 <= k < blocks@.len() ==> #[trigger] bs[k] == blocks@[k].view(),
            deep(out@) == refs_in(bs.take(i as int)),
        decreases blocks@.len() - i,
    {
        proof {
            assert(bs[i as int] == blocks@[i as int].view());
            lemma_take_next(bs, i as int);
            assert(bs.take(i + 1).drop_last() =~= bs.take(i as int));
        }
        if let Some(f) = get_ref(&blocks[i]) {
            out.push(f.to_owned());
        }
        i += 1;
    }
    assert(bs.take(i as int) =~= bs);
    out
}

fn find_file(files: &Vec<ImageFile>, session_id: &str, file: &str) -> (r: Option<usize>)
    ensures
        match r {
            Some(k) => k < files@.len() && bytes_of(deep(files@), session_id@, file@) == Some(
                files@[k as int].bytes@,
            ),
            None => bytes_of(deep(files@), session_id@, file@) is None,
        },
{
    let ghost all = deep(files@);
    let ghost hit = |k: int| all[k].session_id == session_id@ && all[k].file == file@;
    let mut k: usize = 0;
    while k < files.len()
        invariant
            k <= files@.len(),
            all == deep(files@),
            hit == (|k: int| all[k].session_id == session_id@ && all[k].file == file@),
            forall|x: int| 0 <= x < k ==> !#[trigger] hit(x),
        decreases files@.len() - k,
    {
        assert(all[k as int] == files@[k as int]@);
        if same_text(files[k].session_id.as_str(), session_id) && same_text(
            files[k].file.as_str(),
            file,
        ) {
            proof {
                assert(hit(k as int));
                lemma_first(all.len() as int, hit, k as int);
            }
            return Some(k);
        }
        assert(!hit(k as int));
        k += 1;
    }
    proof {
        lemma_no_first(all.len() as int, hit);
    }
    None
}

/// Replaces a message's references by the images in the files that could be read.
pub fn inline_images(j: &Json, session_id: &str, files: &Vec<ImageFile>) -> (r: Json)
    ensures
        r.view() == inlined(j.view(), session_id@, deep(files@)),
{
    let blocks = match get_blocks(j) {
        Some(a) => a,
        None => {
            return j.dup();
        },
    };
    proof {
        lemma_items(blocks@);
    }
    let ghost bs = items_view(blocks@);
    let ghost fv = deep(files@);
    let ghost want = Seq::new(bs.len(), |i: int| inlined_block(bs[i], session_id@, fv));
    let mut out: Vec<Json> = Vec::new();
    let mut i: usize = 0;
    assert(items_view(out@) =~= want.take(0));
    while i < blocks.len()
        invariant
            i <= blocks@.len(),
            bs == items_view(blocks@),
            bs.len() == blocks@.len(),
            forall|k: int| 0 <= k < blocks@.len() ==> #[trigger] bs[k] == blocks@[k].view(),
            fv == deep(files@),
            want == Seq::new(bs.len(), |i: int| inlined_block(bs[i], session_id@, fv)),
            items_view(out@) == want.take(i as int),
        decreases blocks@.len() - i,
    {
        let b = &blocks[i];
        assert(bs[i as int] == b.view());
        let mut new_block = b.dup();
        if let Some(f) = get_ref(b) {
            if let Some(k) = find_file(files, session_id, f) {
                let mut url = "data:".to_owned();
                let media = file_media(f);
                url.append(media.as_str());
                url.append(";base64,");
                let data = b64_encode(&files[k].bytes);
                url.append(data.as_str());
                new_block = set_block_url(b, url.as_str());
            }
        }
        proof {
            assert(new_block.view() == want[i as int]);
            lemma_items_push(out@, new_block);
            lemma_take_next(want, i as int);
        }
        out.push(new_block);
        i += 1;
    }
    assert(want.take(i as int) =~= want);
    set_blocks(j, out)
}

/// A block whose image was put in a file, and whose file could be read, is shown
/// as it was.
pub proof fn law_block_roundtrip(
    b: JsonV,
    media: Seq<char>,
    data: Seq<char>,
    bytes: Seq<u8>,
    name: Seq<char>,
    session_id: Seq<char>,
    files: Seq<ImageFileView>,
)
    requires
        block_url(b) == Some("data:"@ + media + ";base64,"@ + data),
        known_media(media),
        b64_encoded(bytes) == data,
        name.len() > 0,
        name.last() != '/',
        bytes_of(files, session_id, name + "."@ + extension_for(media)) == Some(bytes),
    ensures
        inlined_block(
            with_url(b, IMAGE_REF_PREFIX@ + (name + "."@ + extension_for(media))),
            session_id,
            files,
        ) == b,
{
    let file = name + "."@ + extension_for(media);
    let link = IMAGE_REF_PREFIX@ + file;
    law_image_roundtrip(media, data, bytes, name);
    let url = "data:"@ + media + ";base64,"@ + data;
    let c = with_url(b, link);
    let m = b->Object_0;
    let i = m["image_url"@]->Object_0;
    assert(c.get("image_url"@) == Some(JsonV::Object(i.insert("url"@, JsonV::Str(link)))));
    assert(block_url(c) == Some(link));
    assert(link.take(IMAGE_REF_PREFIX@.len() as int) =~= IMAGE_REF_PREFIX@);
    assert(link.skip(IMAGE_REF_PREFIX@.len() as int) =~= file);
    assert(block_ref(c) == Some(file));
    assert(i.insert("url"@, JsonV::Str(link)).insert("url"@, JsonV::Str(url)) =~= i);
    assert(c->Object_0.insert("image_url"@, JsonV::Object(i)) =~= m);
}

/// A block that holds its image itself is shown as it is.
pub proof fn law_data_urls_stay(b: JsonV, session_id: Seq<char>, files: Seq<ImageFileView>)
    requires
        block_url(b) matches Some(url) && has_prefix(url, "data:"@),
    ensures
        inlined_block(b, session_id, files) == b,
{
    reveal_strlit("data:");
    reveal_strlit("supercoder-image:");
    let url = block_url(b)->0;
    assert(url.take(5)[0] == 'd');
    if has_prefix(url, IMAGE_REF_PREFIX@) {
        assert(url.take(IMAGE_REF_PREFIX@.len() as int)[0] == 's');
    }
}

/// How the image of a block that was put in the file `file` comes back: it is of a
/// known kind, the file is named after that kind, and could be read. What was not
/// put in a file is no reference to one.
pub open spec fn image_comes_back(
    b: JsonV,
    file: Option<Seq<char>>,
    session_id: Seq<char>,
    files: Seq<ImageFileView>,
) -> bool {
    match (file, block_image(b)) {
        (Some(f), Some(_)) => exists|media: Seq<char>, bytes: Seq<u8>, name: Seq<char>|
            #![trigger known_media(media), b64_encoded(bytes), name.last()]
            {
                &&& known_media(media)
                &&& block_url(b) == Some("data:"@ + media + ";base64,"@ + b64_encoded(bytes))
                &&& name.len() > 0
                &&& name.last() != '/'
                &&& f == name + "."@ + extension_for(media)
                &&& bytes_of(files, session_id, f) == Some(bytes)
            },
        _ => block_ref(b) is None,
    }
}

/// Every image of a message comes back.
pub open spec fn images_come_back(
    j: JsonV,
    saved: Seq<SavedImageView>,
    session_id: Seq<char>,
    files: Seq<ImageFileView>,
) -> bool {
    blocks_of(j) matches Some(bs) ==> forall|i: int|
        0 <= i < bs.len() ==> image_comes_back(
            #[trigger] bs[i],
            file_of_block(saved, i),
            session_id,
            files,
        )
}

/// A message whose images come back is shown as it was.
pub proof fn law_message_images_roundtrip(
    j: JsonV,
    saved: Seq<SavedImageView>,
    session_id: Seq<char>,
    files: Seq<ImageFileView>,
)
    requires
        images_come_back(j, saved, session_id, files),
    ensures
        inlined(externalized(j, saved), session_id, files) == j,
{
    if let Some(bs) = blocks_of(j) {
        let e = externalized(j, saved);
        let m = j->Object_0;
        let es = e->Object_0["content"@]->Array_0;
        assert(blocks_of(e) == Some(es));
        assert(es.len() == bs.len());
        assert forall|i: int| 0 <= i < bs.len() implies inlined_block(
            #[trigger] es[i],
            session_id,
            files,
        ) == bs[i] by {
            assert(image_comes_back(bs[i], file_of_block(saved, i), session_id, files));
            match (file_of_block(saved, i), block_image(bs[i])) {
                (Some(f), Some(_)) => {
                    let (media, bytes, name) = choose|media: Seq<char>, bytes: Seq<u8>, name: Seq<char>|
                        #![trigger known_media(media), b64_encoded(bytes), name.last()]
                        {
                            &&& known_media(media)
                            &&& block_url(bs[i]) == Some(
                                "data:"@ + media + ";base64,"@ + b64_encoded(bytes),
                            )
                            &&& name.len() > 0
                            &&& name.last() != '/'
                            &&& f == name + "."@ + extension_for(media)
                            &&& bytes_of(files, session_id, f) == Some(bytes)
                        };
                    law_block_roundtrip(
                        bs[i],
                        media,
                        b64_encoded(bytes),
                        bytes,
                        name,
                        session_id,
                        files,
                    );
                },
                _ => {},
            }
        }
        let back = Seq::new(es.len(), |i: int| inlined_block(es[i], session_id, files));
        assert(back =~= bs);
        assert(m["content"@] == JsonV::Array(bs));
        assert(e->Object_0.insert("content"@, JsonV::Array(bs)) =~= m);
    }
}

proof fn lemma_url_writable(b: JsonV, n: nat)
    requires
        b.printable(),
    ensures
        forall|url: Seq<char>| (#[trigger] with_url(b, url)).printable(),
        b.depth_at_most(n) ==> forall|url: Seq<char>| (#[trigger] with_url(b, url)).depth_at_most(n),
{
    assert forall|url: Seq<char>|
        (#[trigger] with_url(b, url)).printable() && (b.depth_at_most(n) ==> with_url(
            b,
            url,
        ).depth_at_most(n)) by {
        if let JsonV::Object(m) = b {
            if let Some(JsonV::Object(i)) = b.get("image_url"@) {
                let inner = JsonV::Object(i.insert("url"@, JsonV::Str(url)));
                lemma_printable_member(b, "image_url"@);
                lemma_printable_insert(i, "url"@, JsonV::Str(url));
                lemma_printable_insert(m, "image_url"@, inner);
                if b.depth_at_most(n) {
                    assert(b->Object_0.dom().contains("image_url"@));
                    assert(JsonV::Object(i).depth_at_most((n - 1) as nat));
                    lemma_depth_insert(i, "url"@, JsonV::Str(url), (n - 1) as nat);
                    lemma_depth_insert(m, "image_url"@, inner, n);
                }
            }
        }
    }
}

/// A message that can be written as text can be so with its images in files.
pub proof fn lemma_externalized_writable(j: JsonV, saved: Seq<SavedImageView>, n: nat)
    requires
        j.printable(),
    ensures
        externalized(j, saved).printable(),
        j.depth_at_most(n) ==> externalized(j, saved).depth_at_most(n),
{
    if let Some(bs) = blocks_of(j) {
        let m = j->Object_0;
        let e = externalized(j, saved);
        let a = e->Object_0["content"@];
        let es = a->Array_0;
        let c = j->Object_0["content"@];
        lemma_printable_member(j, "content"@);
        assert(c == JsonV::Array(bs));
        assert forall|i: int| 0 <= i < a->Array_0.len() implies (#[trigger] a->Array_0[i]).printable() by {
            lemma_printable_item(c, i);
            lemma_url_writable(bs[i], 0);
        }
        lemma_printable_insert(m, "content"@, a);
        if j.depth_at_most(n) {
            assert(j->Object_0.dom().contains("content"@));
            assert(c.depth_at_most((n - 1) as nat));
            assert forall|i: int| 0 <= i < a->Array_0.len() implies (
            #[trigger] a->Array_0[i]).depth_at_most((n - 2) as nat) by {
                lemma_printable_item(c, i);
                assert(c->Array_0[i].depth_at_most((n - 2) as nat));
                lemma_url_writable(bs[i], (n - 2) as nat);
            }
            lemma_depth_insert(m, "content"@, a, n);
        }
    }
}

} // verus!
