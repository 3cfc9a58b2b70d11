//! Finding generated images: which files count as images, when the output
//! directory is scanned again, and which found images are new.

use vstd::prelude::*;
use crate::classic::views;
use crate::state::{GalleryState, Job, JobStatus};

verus! {

/// Directory scanned for generated images.
pub const DEFAULT_GALLERY_DIR: &'static str = "../outputs";

/// Seconds between two scans.
pub const SCAN_INTERVAL_SECS: u64 = 2;

/// When the output directory was last scanned, and which directory.
#[derive(Debug, Clone)]
pub struct GalleryScanState {
    /// Milliseconds since 1970 of the last scan (zero: never).
    pub last_scan: u64,
    pub gallery_dir: String,
}

impl Default for GalleryScanState {
    /// Never scanned, the default directory.
    fn default() -> (s: GalleryScanState)
        ensures
            s.last_scan == 0,
            s.gallery_dir@ == DEFAULT_GALLERY_DIR@,
    {
        GalleryScanState { last_scan: 0, gallery_dir: String::from_str(DEFAULT_GALLERY_DIR) }
    }
}

impl GalleryScanState {
    /// The same state for another directory.
    pub fn with_directory(self, dir: String) -> (s: GalleryScanState)
        ensures
            s.gallery_dir == dir,
            s.last_scan == self.last_scan,
    {
        GalleryScanState { last_scan: self.last_scan, gallery_dir: dir }
    }

    /// Whether a scan is due at `now` (milliseconds since 1970): the
    /// interval has passed, or the clock went back.
    pub fn should_scan(&self, now: u64) -> (b: bool)
        ensures
            b == (now < self.last_scan || now - self.last_scan >= SCAN_INTERVAL_SECS * 1000),
    {
        if now < self.last_scan {
            true
        } else {
            now - self.last_scan >= SCAN_INTERVAL_SECS * 1000
        }
    }

    /// Note a scan at `now`.
    pub fn mark_scanned(&mut self, now: u64)
        ensures
            final(self).last_scan == now,
            final(self).gallery_dir == old(self).gallery_dir,
    {
        self.last_scan = now;
    }
}

/// ASCII lower case of a character.
pub open spec fn ascii_lower(c: char) -> char {
    if 'A' <= c && c <= 'Z' {
        ((c as u32) + 32) as char
    } else {
        c
    }
}

/// Whether `ext`, in lower case, is one of the image extensions read.
pub open spec fn image_extension(ext: Seq<char>) -> bool {
    let l = ext.map_values(|c: char| ascii_lower(c));
    l == "png"@ || l == "jpg"@ || l == "jpeg"@ || l == "webp"@
}

fn lower_char(c: char) -> (r: char)
    ensures
        r == ascii_lower(c),
{
    if 'A' <= c && c <= 'Z' {
        let n: u8 = (c as u8) + 32;
        n as char
    } else {
        c
    }
}

/// Whether a file extension names an image (png, jpg, jpeg or webp, in any
/// case). Lower-casing by `str::to_lowercase` gives the same answer, as no
/// other character lower-cases to one of these letters.
pub fn is_image_extension(ext: &str) -> (b: bool)
    ensures
        b == image_extension(ext@),
{
    let chars = crate::text::chars_of(ext);
    let mut lower: Vec<char> = Vec::new();
    let mut i: usize = 0;
    while i < chars.len()
        invariant
            i <= chars@.len(),
            chars@ == ext@,
            lower@ == ext@.take(i as int).map_values(|c: char| ascii_lower(c)),
        decreases chars@.len() - i,
    {
        lower.push(lower_char(chars[i]));
        i = i + 1;
        assert(lower@ =~= ext@.take(i as int).map_values(|c: char| ascii_lower(c)));
    }
    assert(ext@.take(ext@.len() as int) =~= ext@);
    let s = crate::text::string_of(&lower);
    let png = String::from_str("png");
    let jpg = String::from_str("jpg");
    let jpeg = String::from_str("jpeg");
    let webp = String::from_str("webp");
    s == png || s == jpg || s == jpeg || s == webp
}

/// The extension of a path, as `std::path::Path::extension` gives it.
pub uninterp spec fn extension_of(p: Seq<char>) -> Option<Seq<char>>;

/// The extension of a path, if it has one.
///
/// Trusted: calls `std::path::Path::extension` and turns it into a `String`
/// (lossless, as it comes from a `&str`). The result is named by
/// `extension_of`, a function of the path alone; the standard library
/// documents it as the part of the file name after its last dot, if any.
#[verifier::external_body]
pub fn path_extension(p: &str) -> (r: Option<String>)
    ensures
        r matches Some(s) ==> extension_of(p@) == Some(s@),
        r is None ==> extension_of(p@) is None,
{
    match std::path::Path::new(p).extension() {
        Some(e) => Some(e.to_string_lossy().into_owned()),
        None => None,
    }
}

/// A path names an image file: its extension is an image extension.
pub open spec fn image_path(p: Seq<char>) -> bool {
    extension_of(p) matches Some(e) && image_extension(e)
}

/// Whether a file's path names an image the gallery shows.
pub fn is_image_path(p: &str) -> (b: bool)
    ensures
        b == image_path(p@),
{
    match path_extension(p) {
        Some(e) => is_image_extension(e.as_str()),
        None => false,
    }
}

/// The images found by a scan that the gallery does not have yet and that
/// have no preview, in the order found (each at most once).
pub open spec fn new_images(found: Seq<Seq<char>>, known: Seq<Seq<char>>, previews: Seq<Seq<char>>) -> Seq<Seq<char>>
    decreases found.len(),
{
    if found.len() == 0 {
        Seq::empty()
    } else {
        let before = new_images(found.drop_last(), known, previews);
        let p = found.last();
        if known.contains(p) || before.contains(p) || previews.contains(p) {
            before
        } else {
            before.push(p)
        }
    }
}

/// Add the images found by a scan to the gallery, skipping those it has and
/// those that already have a preview; the result lists the added paths, for
/// which the caller loads the images.
pub fn register_found_images(found: &Vec<String>, gallery: &mut GalleryState, previews: &Vec<String>) -> (added: Vec<String>)
    requires
        old(gallery).wf(),
    ensures
        final(gallery).wf(),
        final(gallery).selected == old(gallery).selected,
        views(added@) == new_images(views(found@), views(old(gallery).images@), views(previews@)),
        views(final(gallery).images@) == views(old(gallery).images@) + views(added@),
{
    let ghost known = views(gallery.images@);
    let mut added: Vec<String> = Vec::new();
    let mut i: usize = 0;
    while i < found.len()
        invariant
            i <= found@.len(),
            gallery.wf(),
            gallery.selected == old(gallery).selected,
            known == views(old(gallery).images@),
            views(added@) == new_images(views(found@).take(i as int), known, views(previews@)),
            views(gallery.images@) == known + views(added@),
        decreases found@.len() - i,
    {
        proof {
            assert(views(found@).take(i + 1).drop_last() =~= views(found@).take(i as int));
            assert(views(found@).take(i + 1).last() == found@[i as int]@);
        }
        let p = &found[i];
        let in_gallery = contains_text_of(&gallery.images, p.as_str());
        let has_preview = contains_text_of(previews, p.as_str());
        let ghost before = views(added@);
        let ghost gbefore = gallery.images@;
        if !in_gallery && !has_preview {
            gallery.add_image(p.clone());
            added.push(p.clone());
            assert(views(added@) =~= before.push(p@));
            assert(views(gallery.images@) =~= views(gbefore).push(p@));
            assert(views(gallery.images@) =~= known + views(added@));
        }
        proof {
            if !in_gallery {
                if known.contains(p@) {
                    let k = choose|k: int| 0 <= k < known.len() && known[k] == p@;
                    assert((known + before)[k] == p@);
                }
                if before.contains(p@) {
                    let k = choose|k: int| 0 <= k < before.len() && before[k] == p@;
                    assert((known + before)[known.len() + k] == p@);
                }
            }
            if in_gallery {
                assert((known + views(added@)).contains(p@));
                let k = choose|k: int| 0 <= k < (known + views(added@)).len() && (known + views(added@))[k] == p@;
                if k >= known.len() {
                    assert(views(added@)[k - known.len()] == p@);
                    assert(views(added@).contains(p@));
                } else {
                    assert(known.contains(p@));
                }
            }
        }
        i = i + 1;
    }
    assert(views(found@).take(found@.len() as int) =~= views(found@));
    added
}

/// Whether `items` holds the text `t`.
pub fn contains_text_of(items: &Vec<String>, t: &str) -> (b: bool)
    ensures
        b == views(items@).contains(t@),
{
    let key: String = t.to_owned();
    let mut i: usize = 0;
    while i < items.len()
        invariant
            key@ == t@,
            i <= items@.len(),
            forall|j: int| 0 <= j < i ==> #[trigger] items@[j]@ != t@,
        decreases items@.len() - i,
    {
        if items[i] == key {
            assert(views(items@)[i as int] == t@);
            return true;
        }
        i = i + 1;
    }
    assert forall|j: int| 0 <= j < views(items@).len() implies views(items@)[j] != t@ by {
        assert(items@[j]@ != t@);
    }
    false
}

/// The image a job's preview shows once it is complete.
pub fn preview_to_load(job: &Job) -> (r: Option<String>)
    ensures
        job.status matches JobStatus::Complete { image_path, .. } ==> (r matches Some(p) && p@ == image_path@),
        !(job.status is Complete) ==> r is None,
{
    match &job.status {
        JobStatus::Complete { image_path, .. } => Some(image_path.clone()),
        _ => None,
    }
}


/// The gallery images that have no preview yet, in gallery order.
pub open spec fn spec_missing_previews(images: Seq<Seq<char>>, previews: Seq<Seq<char>>) -> Seq<Seq<char>>
    decreases images.len(),
{
    if images.len() == 0 {
        Seq::empty()
    } else {
        let before = spec_missing_previews(images.drop_last(), previews);
        if previews.contains(images.last()) {
            before
        } else {
            before.push(images.last())
        }
    }
}

/// The gallery images whose previews still have to be created (the caller
/// skips files that no longer exist).
pub fn missing_previews(images: &Vec<String>, previews: &Vec<String>) -> (r: Vec<String>)
    ensures
        views(r@) == spec_missing_previews(views(images@), views(previews@)),
{
    let mut r: Vec<String> = Vec::new();
    let mut i: usize = 0;
    while i < images.len()
        invariant
            i <= images@.len(),
            views(r@) == spec_missing_previews(views(images@).take(i as int), views(previews@)),
        decreases images@.len() - i,
    {
        proof {
            assert(views(images@).take(i + 1).drop_last() =~= views(images@).take(i as int));
            assert(views(images@).take(i + 1).last() == images@[i as int]@);
        }
        if !contains_text_of(previews, images[i].as_str()) {
            let ghost before = views(r@);
            r.push(images[i].clone());
            assert(views(r@) =~= before.push(images@[i as int]@));
        }
        i = i + 1;
    }
    assert(views(images@).take(images@.len() as int) =~= views(images@));
    r
}

} // verus!
