//! Which paths may name an input image.

use vstd::prelude::*;
use vstd::string::StringExecFns;
use crate::error::DeltaError;

verus! {

/// Whether `s` ends with `suffix`.
pub open spec fn ends_with_text(s: Seq<char>, suffix: Seq<char>) -> bool {
    suffix.len() <= s.len() && s.subrange(s.len() - suffix.len(), s.len() as int) == suffix
}

/// Whether a path carries the PNG extension.
pub open spec fn has_png_suffix(path: Seq<char>) -> bool {
    ends_with_text(path, ".png"@)
}

/// Relies on str::ends_with with a `&str` pattern: whether `s` ends with `suffix`.
#[verifier::external_body]
fn ends_with(s: &str, suffix: &str) -> (r: bool)
    ensures
        r == ends_with_text(s@, suffix@),
{
    s.ends_with(suffix)
}

/// Checks that a path may name an input image: it must end in `.png`, and
/// `exists` must say that a file stands there. The extension is checked first.
pub fn validate_image_path(img_path: &str, exists: bool) -> (r: Result<(), DeltaError>)
    ensures
        !has_png_suffix(img_path@) ==> (r matches Err(DeltaError::InvalidFormat { path }) && path@
            == img_path@),
        has_png_suffix(img_path@) && !exists ==> (r matches Err(DeltaError::NotFound { path })
            && path@ == img_path@),
        has_png_suffix(img_path@) && exists ==> r is Ok,
{
    if !ends_with(img_path, ".png") {
        return Err(DeltaError::InvalidFormat { path: String::from_str(img_path) });
    }
    if !exists {
        return Err(DeltaError::NotFound { path: String::from_str(img_path) });
    }
    Ok(())
}

} // verus!
