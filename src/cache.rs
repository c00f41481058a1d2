use crate::text::{decimal, decimal_text};
use vstd::prelude::*;
use vstd::string::{StrSliceExecFns, StringExecFns};

verus! {

/// The name of a rendered forecast file: `long.pdf` for the long-range view,
/// `{day_idx}.pdf` for a single day.
pub open spec fn pdf_name(day_idx: usize, show_long: bool) -> Seq<char> {
    if show_long {
        "long.pdf"@
    } else {
        decimal_text(day_idx as nat) + ".pdf"@
    }
}

/// `name` placed inside `folder`, with one separator between them.
pub open spec fn joined_path(folder: Seq<char>, name: Seq<char>) -> Seq<char> {
    if folder.len() == 0 {
        name
    } else if folder.last() == '/' {
        folder + name
    } else {
        folder + "/"@ + name
    }
}

/// The path of a rendered forecast file in the cache folder.
pub fn pdf_path(cache_folder: &str, day_idx: usize, show_long: bool) -> (r: String)
    ensures
        r@ == joined_path(cache_folder@, pdf_name(day_idx, show_long)),
{
    let name = if show_long {
        String::from_str("long.pdf")
    } else {
        let mut s = decimal(day_idx as u64);
        s.append(".pdf");
        s
    };
    let len = cache_folder.unicode_len();
    if len == 0 {
        return name;
    }
    let mut path = String::from_str(cache_folder);
    if cache_folder.get_char(len - 1) != '/' {
        path.append("/");
    }
    path.append(name.as_str());
    path
}

/// Relies on `std::path::Path::is_file`: whether a regular file exists at
/// the path. The answer depends on the disk.
#[verifier::external_body]
fn is_file(path: &str) -> bool {
    std::path::Path::new(path).is_file()
}

/// Whether the rendered file of a day, or of the long-range view, is in the
/// cache folder.
pub fn is_pdf_cached(cache_folder: &str, day_idx: usize, show_long: bool) -> bool {
    let path = pdf_path(cache_folder, day_idx, show_long);
    is_file(path.as_str())
}

} // verus!
