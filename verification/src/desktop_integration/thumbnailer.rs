use vstd::prelude::*;
use crate::desktop_integration::desktop_entry::DesktopEntry;
use crate::desktop_integration::integrator::entry_value;
use crate::error::DesktopIntegrationError;
use crate::text::{chars_of, concat, contains_text, owned, push_char, push_str, str_contains};

verus! {

/// Directory of normal-size thumbnails under the cache directory.
pub const NORMAL_THUMBNAILS_PREFIX: &'static str = "thumbnails/normal";
/// Directory of large thumbnails under the cache directory.
pub const LARGE_THUMBNAIL_PREFIX: &'static str = "thumbnails/large";
/// Extension of thumbnail files.
pub const THUMBNAIL_FILE_EXTENSION: &'static str = ".png";

/// `b` appended to path `a` as `Path::join` does for a relative `b`: with
/// a slash between them unless `a` is empty or already ends in one.
pub open spec fn path_join(a: Seq<char>, b: Seq<char>) -> Seq<char> {
    if a.len() == 0 {
        b
    } else if a.last() == '/' {
        a + b
    } else {
        a + seq!['/'] + b
    }
}

/// `dirs::cache_dir`: the user's cache directory (on Linux
/// `$XDG_CACHE_HOME` where it is absolute, else `~/.cache`), as text; it
/// depends on the environment, so nothing is claimed of it.
#[verifier::external_body]
fn user_cache_dir() -> Option<String> {
    dirs::cache_dir().map(|p| p.to_string_lossy().into_owned())
}

/// Creates and removes the thumbnails of AppImages under a cache
/// directory, as the FreeDesktop thumbnail rules place them.
pub struct Thumbnailer {
    pub xdg_cache_home: String,
}

pub fn join(a: &str, b: &str) -> (r: String)
    ensures
        r@ == path_join(a@, b@),
{
    let c = chars_of(a);
    if c.len() == 0 {
        return owned(b);
    }
    let mut r = owned(a);
    if c[c.len() - 1] != '/' {
        push_char(&mut r, '/');
    }
    push_str(&mut r, b);
    r
}

impl Thumbnailer {
    /// A thumbnailer for the user's cache directory: an error where there
    /// is none.
    pub fn new() -> (r: Result<Self, DesktopIntegrationError>)
        ensures
            r matches Ok(t) ==> t.xdg_cache_home@.len() > 0,
            r matches Err(e) ==> (e matches DesktopIntegrationError::NotFound(m) && m@
                == "XDG_CACHE_HOME not found"@) || (e matches DesktopIntegrationError::InvalidParameter(
                m,
            ) && m@ == "Invalid XDG_CACHE_HOME"@),
    {
        match user_cache_dir() {
            None => Err(DesktopIntegrationError::NotFound(String::from_str("XDG_CACHE_HOME not found"))),
            Some(d) => Self::with_xdg_cache_home(d.as_str()),
        }
    }

    /// A thumbnailer for the cache directory `xdg_cache_home`, which must
    /// be given.
    pub fn with_xdg_cache_home(xdg_cache_home: &str) -> (r: Result<Self, DesktopIntegrationError>)
        ensures
            xdg_cache_home@.len() == 0 ==> (r matches Err(DesktopIntegrationError::InvalidParameter(m))
                && m@ == "Invalid XDG_CACHE_HOME"@),
            xdg_cache_home@.len() > 0 ==> (r matches Ok(t) && t.xdg_cache_home@ == xdg_cache_home@),
    {
        if chars_of(xdg_cache_home).len() == 0 {
            return Err(DesktopIntegrationError::InvalidParameter(String::from_str("Invalid XDG_CACHE_HOME")));
        }
        Ok(Thumbnailer { xdg_cache_home: owned(xdg_cache_home) })
    }

    /// Where the normal-size thumbnail of the file whose canonical path has
    /// MD5 sum `canonical_path_md5` lies.
    pub fn get_normal_thumbnail_path(&self, canonical_path_md5: &str) -> (r: String)
        ensures
            r@ == path_join(
                path_join(self.xdg_cache_home@, NORMAL_THUMBNAILS_PREFIX@),
                canonical_path_md5@ + THUMBNAIL_FILE_EXTENSION@,
            ),
    {
        let dir = join(self.xdg_cache_home.as_str(), NORMAL_THUMBNAILS_PREFIX);
        let name = concat(canonical_path_md5, THUMBNAIL_FILE_EXTENSION);
        join(dir.as_str(), name.as_str())
    }

    /// Where the large thumbnail of the file whose canonical path has MD5
    /// sum `canonical_path_md5` lies.
    pub fn get_large_thumbnail_path(&self, canonical_path_md5: &str) -> (r: String)
        ensures
            r@ == path_join(
                path_join(self.xdg_cache_home@, LARGE_THUMBNAIL_PREFIX@),
                canonical_path_md5@ + THUMBNAIL_FILE_EXTENSION@,
            ),
    {
        let dir = join(self.xdg_cache_home.as_str(), LARGE_THUMBNAIL_PREFIX);
        let name = concat(canonical_path_md5, THUMBNAIL_FILE_EXTENSION);
        join(dir.as_str(), name.as_str())
    }

    /// The application's icon, as its desktop entry names it; an error
    /// where it names none.
    pub fn get_app_icon_name(&self, desktop_entry: &DesktopEntry) -> (r: Result<String, DesktopIntegrationError>)
        ensures
            entry_value(*desktop_entry, "Desktop Entry/Icon"@).len() == 0 ==> (r matches Err(
                DesktopIntegrationError::NotFound(m),
            ) && m@ == "Icon field not found in desktop entry"@),
            entry_value(*desktop_entry, "Desktop Entry/Icon"@).len() > 0 ==> (r matches Ok(n) && n@
                == entry_value(*desktop_entry, "Desktop Entry/Icon"@)),
    {
        let icon = desktop_entry.get("Desktop Entry/Icon");
        if chars_of(icon).len() == 0 {
            return Err(DesktopIntegrationError::NotFound(String::from_str("Icon field not found in desktop entry")));
        }
        Ok(owned(icon))
    }

    /// The first icon path that holds `size` (such as `128x128`); an error
    /// where none does.
    pub fn get_icon_path(&self, app_icons: &[String], size: &str) -> (r: Result<String, DesktopIntegrationError>)
        ensures
            match r {
                Ok(p) => exists|i: int|
                    0 <= i < app_icons@.len() && p@ == app_icons@[i]@ && contains_text(p@, size@)
                        && forall|j: int| 0 <= j < i ==> !contains_text(#[trigger] app_icons@[j]@, size@),
                Err(DesktopIntegrationError::NotFound(m)) => m@ == "No icon found with size "@ + size@
                    && forall|j: int| 0 <= j < app_icons@.len() ==> !contains_text(#[trigger] app_icons@[j]@, size@),
                _ => false,
            },
    {
        let mut i: usize = 0;
        while i < app_icons.len()
            invariant
                i <= app_icons@.len(),
                forall|j: int| 0 <= j < i ==> !contains_text(#[trigger] app_icons@[j]@, size@),
            decreases app_icons@.len() - i,
        {
            if str_contains(app_icons[i].as_str(), size) {
                return Ok(owned(app_icons[i].as_str()));
            }
            i = i + 1;
        }
        Err(DesktopIntegrationError::NotFound(concat("No icon found with size ", size)))
    }
}

} // verus!
