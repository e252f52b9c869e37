//! User avatars: which images the image-variables file lists (in any of its
//! accepted shapes), what a download produces, and the totals of the download
//! and upload passes.
use vstd::prelude::*;

use crate::http::BinaryResponse;
use crate::image::{guess_extension_spec, guessed_mime, mime_from_path, ImageService};
use crate::text::{chars_eq, chars_of, extend_str, string_of};

verus! {

/// The result of fetching one avatar.
#[derive(Debug, Clone)]
pub struct ImageDownloadResult {
    pub image_id: String,
    pub url: String,
    pub local_file_path: String,
    pub success: bool,
    pub error_message: String,
    pub file_size_bytes: usize,
}

/// A value of an image-variables object: the value itself when it is a string,
/// and its `url` member when it is an object whose `url` is a string.
#[derive(Debug, Clone)]
pub struct VarLeaf {
    pub text: Option<String>,
    pub url: Option<String>,
}

/// A member of the file's top-level object: its key, its value as a leaf, and,
/// when the value is an object, that object's members as leaves.
#[derive(Debug, Clone)]
pub struct VarEntry {
    pub key: String,
    pub leaf: VarLeaf,
    pub object: Option<Vec<(String, VarLeaf)>>,
}

/// The shape of the image-variables file.
#[derive(Debug, Clone)]
pub enum ImageVariables {
    /// An array; per element its `id` and `url` when they are strings.
    Array(Vec<(Option<String>, Option<String>)>),
    /// An object, members in file order.
    Object(Vec<VarEntry>),
    /// Anything else.
    Other,
}

pub open spec fn pair_view(p: (String, String)) -> (Seq<char>, Seq<char>) {
    (p.0@, p.1@)
}

/// The array elements that have both an id and a URL.
pub open spec fn array_pairs(s: Seq<(Option<String>, Option<String>)>) -> Seq<(Seq<char>, Seq<char>)>
    decreases s.len(),
{
    if s.len() == 0 {
        Seq::empty()
    } else {
        let rest = array_pairs(s.drop_last());
        match s.last() {
            (Some(id), Some(url)) => rest.push((id@, url@)),
            _ => rest,
        }
    }
}

/// The URL a leaf gives: a string value, else the `url` of an object value.
pub open spec fn leaf_url(l: VarLeaf) -> Option<Seq<char>> {
    match l.text {
        Some(t) => Some(t@),
        None => match l.url {
            Some(u) => Some(u@),
            None => None,
        },
    }
}

pub open spec fn leaf_pairs(s: Seq<(String, VarLeaf)>) -> Seq<(Seq<char>, Seq<char>)>
    decreases s.len(),
{
    if s.len() == 0 {
        Seq::empty()
    } else {
        let rest = leaf_pairs(s.drop_last());
        match leaf_url(s.last().1) {
            Some(u) => rest.push((s.last().0@, u)),
            None => rest,
        }
    }
}

/// Position of the first member named `key`.
pub open spec fn member_index(s: Seq<VarEntry>, key: Seq<char>) -> Option<int>
    decreases s.len(),
{
    if s.len() == 0 {
        None
    } else {
        match member_index(s.drop_last(), key) {
            Some(i) => Some(i),
            None => if s.last().key@ == key {
                Some(s.len() - 1)
            } else {
                None
            },
        }
    }
}

/// The member chosen as the list of images: `images`, else `data`, else `items`.
pub open spec fn chosen_member(s: Seq<VarEntry>) -> Option<int> {
    match member_index(s, "images"@) {
        Some(i) => Some(i),
        None => match member_index(s, "data"@) {
            Some(i) => Some(i),
            None => member_index(s, "items"@),
        },
    }
}

/// `(image id, URL)` pairs listed by the file; `None` for an unknown shape.
pub open spec fn image_variables_spec(v: ImageVariables) -> Option<Seq<(Seq<char>, Seq<char>)>> {
    match v {
        ImageVariables::Array(items) => Some(array_pairs(items@)),
        ImageVariables::Object(entries) => match chosen_member(entries@) {
            Some(i) => match entries@[i].object {
                Some(o) => Some(leaf_pairs(o@)),
                None => Some(Seq::empty()),
            },
            None => Some(leaf_pairs(entries@.map_values(|e: VarEntry| (e.key, e.leaf)))),
        },
        ImageVariables::Other => None,
    }
}

fn find_member(entries: &Vec<VarEntry>, key: &str) -> (r: Option<usize>)
    ensures
        match r {
            Some(i) => member_index(entries@, key@) == Some(i as int) && i < entries@.len(),
            None => member_index(entries@, key@) is None,
        },
{
    let k = chars_of(key);
    for i in 0..entries.len()
        invariant
            k@ == key@,
            member_index(entries@.take(i as int), key@) is None,
    {
        assert(entries@.take(i + 1).drop_last() =~= entries@.take(i as int));
        let cur = chars_of(entries[i].key.as_str());
        if chars_eq(&cur, &k) {
            proof {
                lemma_member_index_prefix(entries@, key@, i + 1);
            }
            return Some(i);
        }
    }
    assert(entries@.take(entries.len() as int) =~= entries@);
    None
}

proof fn lemma_member_index_prefix(s: Seq<VarEntry>, key: Seq<char>, n: int)
    requires
        0 <= n <= s.len(),
        member_index(s.take(n), key) is Some,
    ensures
        member_index(s, key) == member_index(s.take(n), key),
    decreases s.len() - n,
{
    if n < s.len() {
        assert(s.take(n + 1).drop_last() =~= s.take(n));
        lemma_member_index_prefix(s, key, n + 1);
    } else {
        assert(s.take(n) =~= s);
    }
}

fn leaves_to_pairs(s: &Vec<(String, VarLeaf)>) -> (r: Vec<(String, String)>)
    ensures
        r@.map_values(|p: (String, String)| pair_view(p)) == leaf_pairs(s@),
{
    let mut out: Vec<(String, String)> = Vec::new();
    for i in 0..s.len()
        invariant
            out@.map_values(|p: (String, String)| pair_view(p)) == leaf_pairs(s@.take(i as int)),
    {
        assert(s@.take(i + 1).drop_last() =~= s@.take(i as int));
        let ghost before = out@;
        let leaf = &s[i].1;
        let u = match &leaf.text {
            Some(t) => Some(t.clone()),
            None => match &leaf.url {
                Some(u) => Some(u.clone()),
                None => None,
            },
        };
        match u {
            Some(u) => {
                let p = (s[i].0.clone(), u);
                out.push(p);
                assert(out@.map_values(|p: (String, String)| pair_view(p)) =~= before.map_values(
                    |p: (String, String)| pair_view(p),
                ).push(pair_view(p)));
            },
            None => {},
        }
    }
    assert(s@.take(s.len() as int) =~= s@);
    out
}

/// The `(image id, URL)` pairs of an image-variables file: an array lists
/// objects with `id` and `url`; an object lists its `images`, `data` or `items`
/// member (the first present), or else its own members, each a URL or an object
/// with a `url`. `None` when the file is neither.
pub fn image_variables(v: &ImageVariables) -> (r: Option<Vec<(String, String)>>)
    ensures
        match r {
            Some(pairs) => image_variables_spec(*v) == Some(
                pairs@.map_values(|p: (String, String)| pair_view(p)),
            ),
            None => image_variables_spec(*v) is None,
        },
{
    match v {
        ImageVariables::Array(items) => {
            let mut out: Vec<(String, String)> = Vec::new();
            for i in 0..items.len()
                invariant
                    out@.map_values(|p: (String, String)| pair_view(p)) == array_pairs(
                        items@.take(i as int),
                    ),
            {
                assert(items@.take(i + 1).drop_last() =~= items@.take(i as int));
                let ghost before = out@;
                match &items[i] {
                    (Some(id), Some(url)) => {
                        let p = (id.clone(), url.clone());
                        out.push(p);
                        assert(out@.map_values(|p: (String, String)| pair_view(p))
                            =~= before.map_values(|p: (String, String)| pair_view(p)).push(
                            pair_view(p),
                        ));
                    },
                    _ => {},
                }
            }
            assert(items@.take(items.len() as int) =~= items@);
            Some(out)
        },
        ImageVariables::Object(entries) => {
            let chosen = match find_member(entries, "images") {
                Some(i) => Some(i),
                None => match find_member(entries, "data") {
                    Some(i) => Some(i),
                    None => find_member(entries, "items"),
                },
            };
            match chosen {
                Some(i) => match &entries[i].object {
                    Some(o) => Some(leaves_to_pairs(o)),
                    None => {
                        let out: Vec<(String, String)> = Vec::new();
                        assert(out@.map_values(|p: (String, String)| pair_view(p)) =~= Seq::<
                            (Seq<char>, Seq<char>),
                        >::empty());
                        Some(out)
                    },
                },
                None => {
                    let mut root: Vec<(String, VarLeaf)> = Vec::new();
                    for j in 0..entries.len()
                        invariant
                            root@.len() == j,
                            forall|k: int|
                                0 <= k < j ==> #[trigger] root@[k] == (entries@[k].key, entries@[k].leaf),
                    {
                        root.push((entries[j].key.clone(), entries[j].leaf.clone_leaf()));
                    }
                    assert(root@ =~= entries@.map_values(|e: VarEntry| (e.key, e.leaf)));
                    Some(leaves_to_pairs(&root))
                },
            }
        },
        ImageVariables::Other => None,
    }
}

impl VarLeaf {
    /// A copy of the leaf.
    pub fn clone_leaf(&self) -> (r: Self)
        ensures
            r == *self,
    {
        VarLeaf {
            text: match &self.text {
                Some(t) => Some(t.clone()),
                None => None,
            },
            url: match &self.url {
                Some(u) => Some(u.clone()),
                None => None,
            },
        }
    }
}

// ---------------- downloads ----------------

/// Whether a fetched avatar is kept: a response with a 2xx status and a
/// non-empty body.
pub open spec fn avatar_usable(bin: Option<BinaryResponse>) -> bool {
    bin matches Some(b) && 200 <= b.status_code < 300 && b.data@.len() > 0
}

pub fn avatar_usable_exec(bin: &Option<BinaryResponse>) -> (r: bool)
    ensures
        r == avatar_usable(*bin),
{
    match bin {
        Some(b) => ImageService::accept_download(b),
        None => false,
    }
}

/// File name of a kept avatar: its image id, a dot, and the extension guessed
/// from its URL or content.
pub fn avatar_file_name(image_id: &str, url: &str, data: &[u8]) -> (r: String)
    ensures
        r@ == image_id@ + "."@ + guess_extension_spec(url@, data@),
{
    let ext = ImageService::guess_extension(url, data);
    let mut v = chars_of(image_id);
    extend_str(&mut v, ".");
    extend_str(&mut v, ext.as_str());
    string_of(&v)
}

/// An avatar written to `local_file_path`.
pub fn avatar_downloaded(image_id: String, url: String, local_file_path: String, size: usize) -> (r:
    ImageDownloadResult)
    ensures
        r == (ImageDownloadResult {
            image_id,
            url,
            local_file_path,
            success: true,
            error_message: r.error_message,
            file_size_bytes: size,
        }),
        r.error_message@.len() == 0,
{
    ImageDownloadResult {
        image_id,
        url,
        local_file_path,
        success: true,
        error_message: String::new(),
        file_size_bytes: size,
    }
}

/// An avatar that was fetched but could not be written.
pub fn avatar_write_failed(image_id: String, url: String, error: &str) -> (r: ImageDownloadResult)
    ensures
        r.image_id == image_id,
        r.url == url,
        r.local_file_path@.len() == 0,
        !r.success,
        r.error_message@ == "write: "@ + error@,
        r.file_size_bytes == 0,
{
    let mut m = chars_of("write: ");
    extend_str(&mut m, error);
    ImageDownloadResult {
        image_id,
        url,
        local_file_path: String::new(),
        success: false,
        error_message: string_of(&m),
        file_size_bytes: 0,
    }
}

/// An avatar whose download failed or came back empty.
pub fn avatar_download_failed(image_id: String, url: String) -> (r: ImageDownloadResult)
    ensures
        r.image_id == image_id,
        r.url == url,
        r.local_file_path@.len() == 0,
        !r.success,
        r.error_message@ == "download empty or HTTP error"@,
        r.file_size_bytes == 0,
{
    ImageDownloadResult {
        image_id,
        url,
        local_file_path: String::new(),
        success: false,
        error_message: "download empty or HTTP error".to_owned(),
        file_size_bytes: 0,
    }
}

/// Number of successful results among the first `n`.
pub open spec fn successes_upto(s: Seq<ImageDownloadResult>, n: int) -> nat
    decreases n,
{
    if n <= 0 {
        0
    } else {
        successes_upto(s, n - 1) + if s[n - 1].success {
            1nat
        } else {
            0nat
        }
    }
}

proof fn lemma_successes_bound(s: Seq<ImageDownloadResult>, n: int)
    requires
        0 <= n <= s.len(),
    ensures
        successes_upto(s, n) <= n,
    decreases n,
{
    if n > 0 {
        lemma_successes_bound(s, n - 1);
    }
}

/// `(requested, succeeded, failed)` of a download pass.
pub fn download_totals(results: &Vec<ImageDownloadResult>) -> (r: (usize, usize, usize))
    ensures
        r.0 == results@.len(),
        r.1 == successes_upto(results@, results@.len() as int),
        r.2 == results@.len() - successes_upto(results@, results@.len() as int),
{
    let mut ok: usize = 0;
    for i in 0..results.len()
        invariant
            ok == successes_upto(results@, i as int),
            ok <= i,
    {
        if results[i].success {
            ok = ok + 1;
        }
    }
    (results.len(), ok, results.len() - ok)
}

/// Positions of the successful downloads, in order: the avatars to upload.
pub fn upload_candidates(results: &Vec<ImageDownloadResult>) -> (r: Vec<usize>)
    ensures
        r@.len() == successes_upto(results@, results@.len() as int),
        forall|k: int| 0 <= k < r@.len() ==> (#[trigger] r@[k]) < results@.len() && results@[r@[k] as int].success,
        forall|k: int, l: int| 0 <= k < l < r@.len() ==> r@[k] < r@[l],
{
    let mut out: Vec<usize> = Vec::new();
    for i in 0..results.len()
        invariant
            out@.len() == successes_upto(results@, i as int),
            forall|k: int| 0 <= k < out@.len() ==> (#[trigger] out@[k]) < i && results@[out@[k] as int].success,
            forall|k: int, l: int| 0 <= k < l < out@.len() ==> out@[k] < out@[l],
    {
        if results[i].success {
            out.push(i);
        }
    }
    out
}

/// MIME type of an avatar file, as guessed from its path.
pub fn avatar_mime(path: &str) -> (r: String)
    ensures
        r@ == guessed_mime(path@),
{
    mime_from_path(path)
}

/// Avatars that failed to upload: those requested and not returned.
pub fn upload_failed_count(requested: usize, uploaded: usize) -> (r: usize)
    requires
        uploaded <= requested,
    ensures
        r == requested - uploaded,
{
    requested - uploaded
}

} // verus!
