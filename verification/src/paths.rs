//! File paths of generated images, as text.

use vstd::prelude::*;

verus! {

/// On Unix a path is absolute when it starts with `/`.
pub open spec fn absolute_path(p: Seq<char>) -> bool {
    p.len() > 0 && p[0] == '/'
}

/// Whether a path is absolute.
///
/// Trusted: calls `std::path::Path::is_absolute`, which the standard
/// library documents, for Unix, as "starts with the root", that is with `/`.
#[verifier::external_body]
pub fn path_is_absolute(p: &str) -> (b: bool)
    ensures
        b == absolute_path(p@),
{
    std::path::Path::new(p).is_absolute()
}

/// The final component of a path, as `std::path::Path::file_name` gives it.
pub uninterp spec fn file_name_of(p: Seq<char>) -> Option<Seq<char>>;

/// The final component of a path, if it has one.
///
/// Trusted: calls `std::path::Path::file_name` and turns the component into
/// a `String` (lossless, as it comes from a `&str`). The result is named by
/// `file_name_of`, a function of the path alone; the standard library
/// documents it as the last component, and `None` for a path that ends in
/// `..`. Nothing more of it is stated here.
#[verifier::external_body]
pub fn path_file_name(p: &str) -> (r: Option<String>)
    ensures
        r matches Some(s) ==> file_name_of(p@) == Some(s@),
        r is None ==> file_name_of(p@) is None,
{
    match std::path::Path::new(p).file_name() {
        Some(n) => Some(n.to_string_lossy().into_owned()),
        None => None,
    }
}

/// Directory under which the gallery finds generated images.
pub const GALLERY_OUTPUT_DIR: &'static str = "../outputs";

/// Where the gallery looks for an image the backend reports: an absolute
/// path is replaced by its file name under `../outputs`; other paths (and
/// absolute paths without a file name) are kept.
pub open spec fn spec_gallery_path(p: Seq<char>) -> Seq<char> {
    if absolute_path(p) {
        match file_name_of(p) {
            Some(name) => GALLERY_OUTPUT_DIR@ + "/"@ + name,
            None => p,
        }
    } else {
        p
    }
}

/// The gallery path of an image path reported by the backend.
pub fn gallery_path(p: &str) -> (r: String)
    ensures
        r@ == spec_gallery_path(p@),
{
    if path_is_absolute(p) {
        match path_file_name(p) {
            Some(name) => {
                let mut r = String::from_str(GALLERY_OUTPUT_DIR);
                r.append("/");
                r.append(name.as_str());
                r
            },
            None => p.to_owned(),
        }
    } else {
        p.to_owned()
    }
}

} // verus!
