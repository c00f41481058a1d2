use vstd::prelude::*;
use vstd::string::StrSliceExecFns;

verus! {

/// The program's settings.
#[derive(Clone, Debug)]
pub struct Settings {
    pub icon_path: String,
    pub location_plz: u32,
    pub template_file: String,
    pub template_long_file: String,
    pub cache_folder: String,
    pub pdf_viewer: String,
    pub pdf_viewer_args: Vec<String>,
}

/// Some `$` in `s` is followed by a character outside ASCII.
pub open spec fn dollar_before_non_ascii(s: Seq<char>) -> bool {
    exists|i: int| 0 <= i < s.len() - 1 && #[trigger] s[i] == '$' && (s[i + 1] as u32) >= 128
}

/// `s` holds no `$` and does not start with `~`: nothing in it expands.
pub open spec fn plain_path(s: Seq<char>) -> bool {
    &&& forall|i: int| 0 <= i < s.len() ==> s[i] != '$'
    &&& (s.len() == 0 || s[0] != '~')
}

/// Whether `path` can be handed to the path expansion: no `$` in it is
/// followed by a character outside ASCII.
pub fn expandable(path: &str) -> (r: bool)
    ensures
        r == !dollar_before_non_ascii(path@),
{
    let n = path.unicode_len();
    let mut i: usize = 0;
    while i < n && i + 1 < n
        invariant
            n == path@.len(),
            i <= n,
            forall|j: int|
                0 <= j < i && j < n - 1 ==> !(#[trigger] path@[j] == '$' && (path@[j + 1] as u32)
                    >= 128),
        decreases n - i,
    {
        if path.get_char(i) == '$' && (path.get_char(i + 1) as u32) >= 128 {
            return false;
        }
        i = i + 1;
    }
    true
}

/// Relies on `shellexpand::full`: expands a leading `~` and environment
/// variables, and fails where a variable is not set. The result depends on
/// the environment. A `$` followed by a multi-byte character that counts as
/// alphanumeric makes it slice inside that character and panic, so such
/// paths are left out.
///
/// A path with no `$` passes the variable expansion untouched, and one that
/// does not start with `~` passes the tilde expansion untouched; such a path
/// comes back as it is.
#[verifier::external_body]
fn expand_path(path: &str) -> (r: Option<String>)
    requires
        !dollar_before_non_ascii(path@),
    ensures
        plain_path(path@) ==> r is Some,
        r matches Some(p) ==> (plain_path(path@) ==> p@ == path@),
{
    shellexpand::full(path).ok().map(|p| p.into_owned())
}

impl Settings {
    /// The settings with every path expanded; `None` where a path does not
    /// expand, or holds a `$` followed by a character outside ASCII.
    pub fn expand(self) -> (r: Option<Settings>)
        ensures
            (dollar_before_non_ascii(self.icon_path@) || dollar_before_non_ascii(
                self.template_file@,
            ) || dollar_before_non_ascii(self.template_long_file@) || dollar_before_non_ascii(
                self.cache_folder@,
            )) ==> r is None,
            (plain_path(self.icon_path@) && plain_path(self.template_file@) && plain_path(
                self.template_long_file@,
            ) && plain_path(self.cache_folder@)) ==> (r matches Some(s) && s.icon_path@
                == self.icon_path@ && s.template_file@ == self.template_file@
                && s.template_long_file@ == self.template_long_file@ && s.cache_folder@
                == self.cache_folder@),
            r matches Some(s) ==> s.location_plz == self.location_plz && s.pdf_viewer
                == self.pdf_viewer && s.pdf_viewer_args == self.pdf_viewer_args,
    {
        if !expandable(self.icon_path.as_str()) || !expandable(self.template_file.as_str())
            || !expandable(self.template_long_file.as_str()) || !expandable(
            self.cache_folder.as_str(),
        ) {
            return None;
        }
        let icon_path = expand_path(self.icon_path.as_str())?;
        let template_file = expand_path(self.template_file.as_str())?;
        let template_long_file = expand_path(self.template_long_file.as_str())?;
        let cache_folder = expand_path(self.cache_folder.as_str())?;
        Some(
            Settings {
                icon_path,
                location_plz: self.location_plz,
                template_file,
                template_long_file,
                cache_folder,
                pdf_viewer: self.pdf_viewer,
                pdf_viewer_args: self.pdf_viewer_args,
            },
        )
    }
}

} // verus!
