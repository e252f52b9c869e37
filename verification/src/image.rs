//! Image relocation logic: which URL of an image block is fetched, how the
//! downloaded file is named and typed, and what the all-or-nothing (strict)
//! relocation of an article's images reports.
use std::collections::HashMap;

use vstd::prelude::*;

use crate::http::BinaryResponse;
use crate::models::{ContentBlock, ImageProcessingResult};
use crate::strapi::MediaUploadItem;
use crate::text::{
    after_last, after_last_char, ascii_lower_seq, ascii_lowercase, before_first, before_first_char,
    char_len_utf8, chars_eq, chars_of, drop_while_start, extend_chars, extend_str, i64_decimal,
    int_decimal, is_ascii_alnum, is_ascii_alphanumeric, is_whitespace, is_ws, lemma_utf8_take,
    nat_digits, slice_chars, starts_with_seq, starts_with_str, string_of, u64_digits, utf8_len,
    utf8_len_at_most, utf8_units, ws_pred,
};

verus! {

broadcast use vstd::std_specs::hash::group_hash_axioms;

// ---------------- URLs ----------------

/// Protocol-relative URLs (`//host/...`) get `https:`; others are kept.
pub open spec fn normalize_image_url_spec(url: Seq<char>) -> Seq<char> {
    if starts_with_seq(url, "http://"@) || starts_with_seq(url, "https://"@) {
        url
    } else if starts_with_seq(url, "//"@) {
        "https://"@ + url.skip(2)
    } else {
        url
    }
}

/// The first whitespace-separated word of `s` (`split_whitespace().next()`), or empty.
pub open spec fn first_word(s: Seq<char>) -> Seq<char> {
    let t = drop_while_start(s, ws_pred());
    t.take(word_end(t, 0))
}

pub open spec fn word_end(t: Seq<char>, k: int) -> int
    decreases t.len() - k,
{
    if 0 <= k < t.len() && !is_ws(t[k]) {
        word_end(t, k + 1)
    } else {
        k
    }
}

/// The URL fetched for an image block: its `src`, else the URL of its first
/// `srcset` candidate, normalized; empty when it has neither.
pub open spec fn best_image_url_spec(src: Seq<char>, srcset: Seq<Seq<char>>) -> Seq<char> {
    if src.len() > 0 {
        normalize_image_url_spec(src)
    } else if srcset.len() > 0 {
        normalize_image_url_spec(first_word(srcset[0]))
    } else {
        Seq::empty()
    }
}

// ---------------- file names ----------------

/// Longest prefix whose UTF-8 length stays within `limit` bytes.
pub open spec fn byte_fit(s: Seq<char>, limit: nat, k: int, bytes: nat) -> int
    decreases s.len() - k,
{
    if 0 <= k < s.len() && bytes + utf8_units(s[k]) <= limit {
        byte_fit(s, limit, k + 1, bytes + utf8_units(s[k]))
    } else {
        k
    }
}

/// Base name and `.ext` suffix: the extension after the last `.` counts only
/// when it is non-empty and at most 8 bytes long.
pub open spec fn split_ext(name: Seq<char>) -> (Seq<char>, Seq<char>) {
    match crate::text::last_index_of(name, '.') {
        Some(d) => {
            let e = name.skip(d + 1);
            if utf8_len(e) <= 8 && e.len() > 0 {
                (name.take(d), seq!['.'] + e)
            } else {
                (name, Seq::empty())
            }
        },
        None => (name, Seq::empty()),
    }
}

/// File names longer than 80 bytes are cut to 80 bytes, keeping a short
/// extension (Strapi's derived names must stay under the OS limit).
pub open spec fn cap_filename_spec(name: Seq<char>) -> Seq<char> {
    if utf8_len(name) <= 80 {
        name
    } else {
        let (base, ext) = split_ext(name);
        let take: nat = if utf8_len(ext) <= 80 {
            (80 - utf8_len(ext)) as nat
        } else {
            0
        };
        base.take(byte_fit(base, take, 0, 0)) + ext
    }
}

/// The last path segment of a URL without query or fragment, capped.
pub open spec fn filename_from_url_spec(url: Seq<char>) -> Option<Seq<char>> {
    let name = after_last(before_first(before_first(url, '?'), '#'), '/');
    if name.len() == 0 {
        None
    } else {
        Some(cap_filename_spec(name))
    }
}

pub open spec fn safe_filename_char(c: char) -> char {
    if is_ascii_alnum(c) || c == '.' || c == '-' || c == '_' {
        c
    } else {
        '_'
    }
}

/// Every character other than ASCII letters, digits, `.`, `-` and `_` becomes `_`.
pub open spec fn sanitize_filename_spec(name: Seq<char>) -> Seq<char> {
    name.map_values(|c: char| safe_filename_char(c))
}

/// What `mime_guess::from_path(..).first_or_octet_stream()` renders to for a file name.
pub uninterp spec fn guessed_mime(file_name: Seq<char>) -> Seq<char>;

/// `mime_guess::from_path(file_name).first_or_octet_stream().to_string()`: the
/// first MIME type known for the name's extension, else
/// `application/octet-stream`. The contract claims only that the result is a
/// function of the name's characters, named `guessed_mime`.
#[verifier::external_body]
pub(crate) fn mime_from_path(file_name: &str) -> (r: String)
    ensures
        r@ == guessed_mime(file_name@),
{
    mime_guess::from_path(file_name).first_or_octet_stream().to_string()
}

/// MIME type of an upload: common image extensions (any ASCII case) directly,
/// others as guessed from the extension.
pub open spec fn infer_mime_spec(file_name: Seq<char>) -> Seq<char> {
    let ext = after_last(ascii_lower_seq(file_name), '.');
    if ext == "jpg"@ || ext == "jpeg"@ {
        "image/jpeg"@
    } else if ext == "png"@ {
        "image/png"@
    } else if ext == "webp"@ {
        "image/webp"@
    } else if ext == "gif"@ {
        "image/gif"@
    } else {
        guessed_mime(file_name)
    }
}

/// Extension for a downloaded avatar: the URL's (query dropped) text after the
/// last `.` when at most 5 bytes long, else sniffed from the data's magic bytes.
pub open spec fn guess_extension_spec(url: Seq<char>, data: Seq<u8>) -> Seq<char> {
    let ext = after_last(before_first(url, '?'), '.');
    if utf8_len(ext) <= 5 {
        ext
    } else if data.len() >= 4 && data[0] == 0x89 && data[1] == 0x50 && data[2] == 0x4E && data[3]
        == 0x47 {
        "png"@
    } else if data.len() >= 3 && data[0] == 0xFF && data[1] == 0xD8 && data[2] == 0xFF {
        "jpg"@
    } else if data.len() >= 4 && data[0] == 0x47 && data[1] == 0x49 && data[2] == 0x46 && data[3]
        == 0x38 {
        "gif"@
    } else if data.len() >= 4 && data[0] == 0x52 && data[1] == 0x49 && data[2] == 0x46 && data[3]
        == 0x46 {
        "webp"@
    } else {
        "bin"@
    }
}

// ---------------- strict relocation ----------------

#[derive(Debug, Clone)]
pub struct DownloadedImageItem {
    pub block_index: i32,
    pub source_url: String,
    pub file_name: String,
    pub data: Vec<u8>,
}

/// Requested URLs that no downloaded item came from, in request order.
pub open spec fn missing_downloads(requests: Seq<(i32, String)>, items: Seq<DownloadedImageItem>) -> Seq<
    Seq<char>,
>
    decreases requests.len(),
{
    if requests.len() == 0 {
        Seq::empty()
    } else {
        let rest = missing_downloads(requests.drop_last(), items);
        let url = requests.last().1@;
        if exists|j: int| 0 <= j < items.len() && items[j].source_url@ == url {
            rest
        } else {
            rest.push(url)
        }
    }
}

/// Downloaded items whose block got no uploaded URL, by source URL in item order.
pub open spec fn missing_uploads(items: Seq<DownloadedImageItem>, urls: Map<i32, String>) -> Seq<
    Seq<char>,
>
    decreases items.len(),
{
    if items.len() == 0 {
        Seq::empty()
    } else {
        let rest = missing_uploads(items.drop_last(), urls);
        if urls.contains_key(items.last().block_index) {
            rest
        } else {
            rest.push(items.last().source_url@)
        }
    }
}

/// Abstract contents of an image-processing result.
pub struct ImageResultView {
    pub success: bool,
    pub total_image_blocks_required: i32,
    pub successfully_processed_count: i32,
    pub url_mapping: Map<i32, String>,
    pub failed_image_urls: Seq<Seq<char>>,
    pub failure_reason: Seq<char>,
}

pub open spec fn image_result_view(r: ImageProcessingResult) -> ImageResultView {
    ImageResultView {
        success: r.success,
        total_image_blocks_required: r.total_image_blocks_required,
        successfully_processed_count: r.successfully_processed_count,
        url_mapping: r.url_mapping@,
        failed_image_urls: r.failed_image_urls@.map_values(|s: String| s@),
        failure_reason: r.failure_reason@,
    }
}

/// Outcome when some requested image could not be downloaded, if any:
/// `Failed to download <n> of <total> images`.
pub open spec fn download_failure_spec(requests: Seq<(i32, String)>, items: Seq<DownloadedImageItem>) -> Option<
    ImageResultView,
> {
    let missing = missing_downloads(requests, items);
    if missing.len() == 0 {
        None
    } else {
        Some(
            ImageResultView {
                success: false,
                total_image_blocks_required: requests.len() as i32,
                successfully_processed_count: 0,
                url_mapping: Map::empty(),
                failed_image_urls: missing,
                failure_reason: "Failed to download "@ + nat_digits(missing.len()) + " of "@
                    + nat_digits(requests.len()) + " images"@,
            },
        )
    }
}

/// Outcome once the downloads were uploaded: a failure naming the images without
/// an uploaded URL (`Failed to upload <n> images to Strapi`), or success with
/// the uploaded URLs.
pub open spec fn upload_outcome_spec(total: nat, items: Seq<DownloadedImageItem>, urls: Map<i32, String>) -> ImageResultView {
    let missing = missing_uploads(items, urls);
    if missing.len() > 0 {
        ImageResultView {
            success: false,
            total_image_blocks_required: total as i32,
            successfully_processed_count: 0,
            url_mapping: Map::empty(),
            failed_image_urls: missing,
            failure_reason: "Failed to upload "@ + nat_digits(missing.len()) + " images to Strapi"@,
        }
    } else {
        ImageResultView {
            success: true,
            total_image_blocks_required: total as i32,
            successfully_processed_count: urls.len() as i32,
            url_mapping: urls,
            failed_image_urls: Seq::empty(),
            failure_reason: Seq::empty(),
        }
    }
}

pub struct ImageService;

impl ImageService {
    /// Protocol-relative URLs get `https:`.
    pub fn normalize_image_url(url: &str) -> (r: String)
        ensures
            r@ == normalize_image_url_spec(url@),
    {
        let v = chars_of(url);
        let r = Self::normalize_chars(&v);
        string_of(&r)
    }

    fn normalize_chars(v: &Vec<char>) -> (r: Vec<char>)
        ensures
            r@ == normalize_image_url_spec(v@),
    {
        if starts_with_str(v, "http://") || starts_with_str(v, "https://") {
            slice_chars(v, 0, v.len())
        } else if starts_with_str(v, "//") {
            proof {
                reveal_strlit("//");
            }
            let mut out = chars_of("https://");
            let rest = slice_chars(v, 2, v.len());
            extend_chars(&mut out, &rest);
            out
        } else {
            slice_chars(v, 0, v.len())
        }
    }

    /// The URL fetched for an image block (see `best_image_url_spec`).
    pub fn choose_best_image_url(block: &ContentBlock) -> (r: String)
        ensures
            r@ == best_image_url_spec(block.src@, block.srcset@.map_values(|s: String| s@)),
    {
        let src = chars_of(block.src.as_str());
        if src.len() > 0 {
            let r = Self::normalize_chars(&src);
            return string_of(&r);
        }
        if block.srcset.len() > 0 {
            let first = chars_of(block.srcset[0].as_str());
            let word = Self::first_word_of(&first);
            let r = Self::normalize_chars(&word);
            return string_of(&r);
        }
        String::new()
    }

    fn first_word_of(s: &Vec<char>) -> (r: Vec<char>)
        ensures
            r@ == first_word(s@),
    {
        let mut i: usize = 0;
        while i < s.len() && is_whitespace(s[i])
            invariant
                i <= s.len(),
                forall|k: int| 0 <= k < i ==> is_ws(s@[k]),
            decreases s.len() - i,
        {
            i += 1;
        }
        proof {
            crate::text::lemma_drop_while_start(s@, ws_pred(), i as int);
        }
        let ghost t = s@.subrange(i as int, s.len() as int);
        assert(drop_while_start(t, ws_pred()) == t);
        let mut j = i;
        while j < s.len() && !is_whitespace(s[j])
            invariant
                i <= j <= s.len(),
                t == s@.subrange(i as int, s.len() as int),
                word_end(t, 0) == word_end(t, (j - i) as int),
            decreases s.len() - j,
        {
            j += 1;
        }
        let r = slice_chars(s, i, j);
        assert(r@ =~= t.take((j - i) as int));
        r
    }

    /// File name of a URL (see `filename_from_url_spec`).
    pub fn filename_from_url(url: &str) -> (r: Option<String>)
        ensures
            match r {
                Some(n) => filename_from_url_spec(url@) == Some(n@),
                None => filename_from_url_spec(url@) is None,
            },
    {
        let v = chars_of(url);
        let a = before_first_char(&v, '?');
        let b = before_first_char(&a, '#');
        let name = after_last_char(&b, '/');
        if name.len() == 0 {
            None
        } else {
            let s = string_of(&name);
            Some(Self::cap_filename(s.as_str()))
        }
    }

    /// File name capped to 80 bytes (see `cap_filename_spec`).
    pub fn cap_filename(name: &str) -> (r: String)
        ensures
            r@ == cap_filename_spec(name@),
    {
        let v = chars_of(name);
        if utf8_len_at_most(&v, 80) {
            return string_of(&v);
        }
        let (base, ext) = match crate::text::last_index(&v, '.') {
            Some(d) => {
                let e = slice_chars(&v, d + 1, v.len());
                assert(e@ == v@.skip(d + 1));
                if utf8_len_at_most(&e, 8) && e.len() > 0 {
                    let mut x: Vec<char> = Vec::new();
                    x.push('.');
                    extend_chars(&mut x, &e);
                    assert(x@ =~= seq!['.'] + e@);
                    (slice_chars(&v, 0, d), x)
                } else {
                    (slice_chars(&v, 0, v.len()), Vec::new())
                }
            },
            None => (slice_chars(&v, 0, v.len()), Vec::new()),
        };
        assert(base@ == split_ext(v@).0 && ext@ == split_ext(v@).1) by {
            assert(v@.subrange(0, v.len() as int) =~= v@);
        }
        let take: usize = if utf8_len_at_most(&ext, 80) {
            proof {
                lemma_utf8_le(ext@);
            }
            80 - Self::utf8_length_small(&ext)
        } else {
            0
        };
        let mut bytes: usize = 0;
        let mut k: usize = 0;
        let mut more = true;
        while more && k < base.len()
            invariant
                k <= base.len(),
                bytes <= take,
                more ==> byte_fit(base@, take as nat, 0, 0) == byte_fit(base@, take as nat, k as int, bytes as nat),
                !more ==> byte_fit(base@, take as nat, 0, 0) == k,
            decreases (base.len() - k) as int + (if more { 1int } else { 0int }),
        {
            let n = char_len_utf8(base[k]);
            if n > take - bytes {
                more = false;
            } else {
                bytes = bytes + n;
                k += 1;
            }
        }
        let mut out = slice_chars(&base, 0, k);
        extend_chars(&mut out, &ext);
        string_of(&out)
    }

    /// UTF-8 length of a short character sequence (at most 80 bytes).
    fn utf8_length_small(v: &Vec<char>) -> (r: usize)
        requires
            utf8_len(v@) <= 80,
        ensures
            r == utf8_len(v@),
    {
        let mut total: usize = 0;
        for k in 0..v.len()
            invariant
                total == utf8_len(v@.take(k as int)),
                utf8_len(v@) <= 80,
        {
            proof {
                lemma_utf8_take(v@, k as int);
                crate::text::lemma_utf8_prefix_mono(v@, k + 1);
            }
            total = total + char_len_utf8(v[k]);
        }
        assert(v@.take(v.len() as int) == v@);
        total
    }

    /// Replaces characters unsafe in file names by `_`.
    pub fn sanitize_filename(name: &str) -> (r: String)
        ensures
            r@ == sanitize_filename_spec(name@),
    {
        let v = chars_of(name);
        let mut out: Vec<char> = Vec::new();
        for i in 0..v.len()
            invariant
                v@ == name@,
                out@ == sanitize_filename_spec(v@.take(i as int)),
        {
            let c = v[i];
            let d = if is_ascii_alphanumeric(c) || c == '.' || c == '-' || c == '_' {
                c
            } else {
                '_'
            };
            out.push(d);
            assert(sanitize_filename_spec(v@.take(i + 1)) =~= sanitize_filename_spec(v@.take(i as int)).push(d));
        }
        assert(v@.take(v.len() as int) == v@);
        string_of(&out)
    }

    /// MIME type of an upload (see `infer_mime_spec`).
    pub fn infer_mime(file_name: &str) -> (r: String)
        ensures
            r@ == infer_mime_spec(file_name@),
    {
        let v = chars_of(file_name);
        let lower = ascii_lowercase(&v);
        let ext = after_last_char(&lower, '.');
        let jpg = chars_of("jpg");
        let jpeg = chars_of("jpeg");
        let png = chars_of("png");
        let webp = chars_of("webp");
        let gif = chars_of("gif");
        if chars_eq(&ext, &jpg) || chars_eq(&ext, &jpeg) {
            "image/jpeg".to_owned()
        } else if chars_eq(&ext, &png) {
            "image/png".to_owned()
        } else if chars_eq(&ext, &webp) {
            "image/webp".to_owned()
        } else if chars_eq(&ext, &gif) {
            "image/gif".to_owned()
        } else {
            mime_from_path(file_name)
        }
    }

    /// Extension for a downloaded avatar (see `guess_extension_spec`).
    pub fn guess_extension(url: &str, data: &[u8]) -> (r: String)
        ensures
            r@ == guess_extension_spec(url@, data@),
    {
        let v = chars_of(url);
        let part = before_first_char(&v, '?');
        let ext = after_last_char(&part, '.');
        if utf8_len_at_most(&ext, 5) {
            return string_of(&ext);
        }
        if data.len() >= 4 && data[0] == 0x89 && data[1] == 0x50 && data[2] == 0x4E && data[3] == 0x47 {
            return "png".to_owned();
        }
        if data.len() >= 3 && data[0] == 0xFF && data[1] == 0xD8 && data[2] == 0xFF {
            return "jpg".to_owned();
        }
        if data.len() >= 4 && data[0] == 0x47 && data[1] == 0x49 && data[2] == 0x46 && data[3] == 0x38 {
            return "gif".to_owned();
        }
        if data.len() >= 4 && data[0] == 0x52 && data[1] == 0x49 && data[2] == 0x46 && data[3] == 0x46 {
            return "webp".to_owned();
        }
        "bin".to_owned()
    }

    /// `(block index, URL)` of every image block with a URL to fetch, in order.
    pub fn collect_requests(blocks: &[&ContentBlock]) -> (r: Vec<(i32, String)>)
        ensures
            forall|k: int| 0 <= k < r.len() ==> r@[k].1@.len() > 0,
            r@.map_values(|p: (i32, String)| (p.0, p.1@)) == image_requests(blocks@),
    {
        let mut out: Vec<(i32, String)> = Vec::new();
        for i in 0..blocks.len()
            invariant
                forall|k: int| 0 <= k < out.len() ==> out@[k].1@.len() > 0,
                out@.map_values(|p: (i32, String)| (p.0, p.1@)) == image_requests(blocks@.take(i as int)),
        {
            assert(blocks@.take(i + 1).drop_last() =~= blocks@.take(i as int));
            let blk = blocks[i];
            if blk.is_image() {
                let url = Self::choose_best_image_url(blk);
                if !url.as_str().is_empty() {
                    let ghost before = out@;
                    out.push((blk.index, url));
                    assert(out@.map_values(|p: (i32, String)| (p.0, p.1@)) =~= before.map_values(
                        |p: (i32, String)| (p.0, p.1@),
                    ).push((blk.index, url@)));
                }
            }
        }
        assert(blocks@.take(blocks.len() as int) =~= blocks@);
        out
    }

    /// Whether a download counts: a 2xx status and a non-empty body.
    pub fn accept_download(resp: &BinaryResponse) -> (r: bool)
        ensures
            r == (200 <= resp.status_code < 300 && resp.data@.len() > 0),
    {
        resp.status_code >= 200 && resp.status_code < 300 && resp.data.len() > 0
    }

    /// Name under which a downloaded body image is uploaded: the URL's file name,
    /// else `image-<index>.bin`.
    pub fn download_file_name(src: &str, index: i32) -> (r: String)
        ensures
            r@ == match filename_from_url_spec(src@) {
                Some(n) => n,
                None => "image-"@ + int_decimal(index as int) + ".bin"@,
            },
    {
        match Self::filename_from_url(src) {
            Some(n) => n,
            None => {
                let mut v = chars_of("image-");
                let d = i64_decimal(index as i64);
                extend_chars(&mut v, &d);
                extend_str(&mut v, ".bin");
                string_of(&v)
            },
        }
    }

    /// The upload of an article's cover downloaded from `url` (already
    /// normalised): named after the URL's file name (else `cover.bin`), typed by
    /// that name, outside any block (index -1). An empty body is an error.
    pub fn cover_item(url: &str, data: Vec<u8>) -> (r: Result<MediaUploadItem, String>)
        ensures
            data@.len() == 0 ==> (r matches Err(e) && e@ == "cover image: empty body from "@ + url@),
            data@.len() > 0 ==> (r matches Ok(item) && ({
                let name = match filename_from_url_spec(url@) {
                    Some(n) => n,
                    None => "cover.bin"@,
                };
                &&& item.block_index == -1
                &&& item.file_name@ == name
                &&& item.mime_type@ == infer_mime_spec(name)
                &&& item.data@ == data@
            })),
    {
        if data.len() == 0 {
            let mut m = chars_of("cover image: empty body from ");
            extend_str(&mut m, url);
            return Err(string_of(&m));
        }
        let file_name = match Self::filename_from_url(url) {
            Some(n) => n,
            None => "cover.bin".to_owned(),
        };
        let mime_type = Self::infer_mime(file_name.as_str());
        Ok(MediaUploadItem { block_index: -1, file_name, mime_type, data })
    }

    /// Upload items for downloaded images, typed by file name.
    pub fn upload_items(items: &[DownloadedImageItem]) -> (r: Vec<MediaUploadItem>)
        ensures
            r.len() == items.len(),
            forall|k: int|
                0 <= k < r.len() ==> r@[k].block_index == items@[k].block_index && r@[k].file_name
                    == items@[k].file_name && r@[k].mime_type@ == infer_mime_spec(items@[k].file_name@)
                    && r@[k].data@ == items@[k].data@,
    {
        let mut out: Vec<MediaUploadItem> = Vec::new();
        for i in 0..items.len()
            invariant
                out.len() == i,
                forall|k: int|
                    0 <= k < i ==> out@[k].block_index == items@[k].block_index && out@[k].file_name
                        == items@[k].file_name && out@[k].mime_type@ == infer_mime_spec(
                        items@[k].file_name@,
                    ) && out@[k].data@ == items@[k].data@,
        {
            let it = &items[i];
            let m = MediaUploadItem {
                block_index: it.block_index,
                file_name: it.file_name.clone(),
                mime_type: Self::infer_mime(it.file_name.as_str()),
                data: it.data.clone(),
            };
            out.push(m);
        }
        out
    }

    /// Strict relocation after the downloads: the failure outcome when some
    /// requested image is missing (see `download_failure_spec`).
    pub fn strict_download_failure(
        requests: &Vec<(i32, String)>,
        items: &Vec<DownloadedImageItem>,
    ) -> (r: Option<ImageProcessingResult>)
        ensures
            match r {
                Some(x) => download_failure_spec(requests@, items@) == Some(image_result_view(x)),
                None => download_failure_spec(requests@, items@) is None,
            },
    {
        let mut missing: Vec<String> = Vec::new();
        for i in 0..requests.len()
            invariant
                missing@.map_values(|s: String| s@) == missing_downloads(requests@.take(i as int), items@),
        {
            assert(requests@.take(i + 1).drop_last() =~= requests@.take(i as int));
            let url = chars_of(requests[i].1.as_str());
            let mut found = false;
            for j in 0..items.len()
                invariant
                    url@ == requests@[i as int].1@,
                    found == exists|m: int| 0 <= m < j && items@[m].source_url@ == url@,
            {
                let s = chars_of(items[j].source_url.as_str());
                if chars_eq(&s, &url) {
                    found = true;
                }
            }
            if !found {
                let ghost before = missing@;
                missing.push(requests[i].1.clone());
                assert(missing@.map_values(|s: String| s@) =~= before.map_values(|s: String| s@).push(url@));
            }
        }
        assert(requests@.take(requests.len() as int) =~= requests@);
        if missing.len() == 0 {
            return None;
        }
        let mut reason = chars_of("Failed to download ");
        let a = u64_digits(missing.len() as u64);
        extend_chars(&mut reason, &a);
        extend_str(&mut reason, " of ");
        let b = u64_digits(requests.len() as u64);
        extend_chars(&mut reason, &b);
        extend_str(&mut reason, " images");
        let r = ImageProcessingResult {
            success: false,
            total_image_blocks_required: requests.len() as i32,
            successfully_processed_count: 0,
            url_mapping: HashMap::new(),
            failed_image_urls: missing,
            failure_reason: string_of(&reason),
        };
        assert(image_result_view(r).url_mapping =~= Map::<i32, String>::empty());
        Some(r)
    }

    /// Strict relocation after the uploads (see `upload_outcome_spec`).
    pub fn strict_upload_outcome(
        total: usize,
        items: &Vec<DownloadedImageItem>,
        url_mapping: HashMap<i32, String>,
    ) -> (r: ImageProcessingResult)
        ensures
            image_result_view(r) == upload_outcome_spec(total as nat, items@, url_mapping@),
    {
        let mut missing: Vec<String> = Vec::new();
        for i in 0..items.len()
            invariant
                missing@.map_values(|s: String| s@) == missing_uploads(items@.take(i as int), url_mapping@),
        {
            assert(items@.take(i + 1).drop_last() =~= items@.take(i as int));
            if !url_mapping.contains_key(&items[i].block_index) {
                let ghost before = missing@;
                missing.push(items[i].source_url.clone());
                assert(missing@.map_values(|s: String| s@) =~= before.map_values(|s: String| s@).push(
                    items@[i as int].source_url@,
                ));
            }
        }
        assert(items@.take(items.len() as int) =~= items@);
        if missing.len() > 0 {
            let mut reason = chars_of("Failed to upload ");
            let a = u64_digits(missing.len() as u64);
            extend_chars(&mut reason, &a);
            extend_str(&mut reason, " images to Strapi");
            let r = ImageProcessingResult {
                success: false,
                total_image_blocks_required: total as i32,
                successfully_processed_count: 0,
                url_mapping: HashMap::new(),
                failed_image_urls: missing,
                failure_reason: string_of(&reason),
            };
            assert(image_result_view(r).url_mapping =~= Map::<i32, String>::empty());
            return r;
        }
        let count = url_mapping.len() as i32;
        let r = ImageProcessingResult {
            success: true,
            total_image_blocks_required: total as i32,
            successfully_processed_count: count,
            url_mapping,
            failed_image_urls: missing,
            failure_reason: String::new(),
        };
        assert(image_result_view(r).failed_image_urls =~= Seq::<Seq<char>>::empty());
        r
    }

    /// Result of a strict relocation with nothing to relocate.
    pub fn strict_nothing_to_do() -> (r: ImageProcessingResult)
        ensures
            image_result_view(r) == upload_outcome_spec(0, Seq::empty(), Map::empty()),
    {
        let r = ImageProcessingResult {
            success: true,
            total_image_blocks_required: 0,
            successfully_processed_count: 0,
            url_mapping: HashMap::new(),
            failed_image_urls: Vec::new(),
            failure_reason: String::new(),
        };
        assert(image_result_view(r).failed_image_urls =~= Seq::<Seq<char>>::empty());
        assert(image_result_view(r).url_mapping =~= Map::<i32, String>::empty());
        r
    }
}

/// Image requests of the blocks: `(index, best URL)` of each image block whose
/// best URL is non-empty.
pub open spec fn image_requests(blocks: Seq<&ContentBlock>) -> Seq<(i32, Seq<char>)>
    decreases blocks.len(),
{
    if blocks.len() == 0 {
        Seq::empty()
    } else {
        let rest = image_requests(blocks.drop_last());
        let b = blocks.last();
        let url = best_image_url_spec(b.src@, b.srcset@.map_values(|s: String| s@));
        if b.block_type == crate::models::BlockType::Image && url.len() > 0 {
            rest.push((b.index, url))
        } else {
            rest
        }
    }
}

proof fn lemma_utf8_le(s: Seq<char>)
    ensures
        utf8_len(s) >= 0,
{
}

} // verus!
