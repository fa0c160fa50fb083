use vstd::prelude::*;
use crate::desktop_integration::desktop_entry::DesktopEntry;
use crate::desktop_integration::integrator::{entry_value, flag_is_set, flag_set};
use crate::desktop_integration::thumbnailer::Thumbnailer;
use crate::error::DesktopIntegrationError;
use crate::text::{chars_of, concat, owned};

verus! {

/// Whether an AppImage whose desktop entry is `e` should be registered: it
/// must not ask not to be integrated (`X-AppImage-Integrate` false) nor
/// run in a terminal (`Terminal` true).
pub open spec fn should_register(e: DesktopEntry) -> bool {
    !(entry_value(e, "Desktop Entry/X-AppImage-Integrate"@).len() > 0 && !flag_set(
        e,
        "Desktop Entry/X-AppImage-Integrate"@,
        true,
    )) && !flag_set(e, "Desktop Entry/Terminal"@, false)
}

/// `dirs::data_dir`: the user's data directory (on Linux `$XDG_DATA_HOME`
/// where it is absolute, else `~/.local/share`), as text; it depends on the
/// environment, so nothing is claimed of it.
#[verifier::external_body]
fn user_data_dir() -> Option<String> {
    dirs::data_dir().map(|p| p.to_string_lossy().into_owned())
}

/// `std::path::Path::is_dir`: whether a directory is at `path`; it
/// depends on the disk, so nothing is claimed of it.
#[verifier::external_body]
pub(crate) fn path_is_dir(path: &str) -> bool {
    std::path::Path::new(path).is_dir()
}

/// Registers AppImages with the desktop: the data directory, and the
/// thumbnailer that goes with it.
pub struct IntegrationManager {
    pub xdg_data_home: String,
    pub thumbnailer: Option<Thumbnailer>,
}

impl IntegrationManager {
    /// A manager for the user's data directory: an error where there is
    /// none, or where it is not a directory.
    pub fn new() -> (r: Result<Self, DesktopIntegrationError>)
        ensures
            r matches Ok(x) ==> x.xdg_data_home@.len() > 0 && x.thumbnailer is None,
            r matches Err(e) ==> (e matches DesktopIntegrationError::NotFound(m) && m@
                == "XDG_DATA_HOME not found"@) || (e matches DesktopIntegrationError::InvalidParameter(
                m,
            ) && "Invalid XDG_DATA_HOME: "@.is_prefix_of(m@)),
    {
        match user_data_dir() {
            None => Err(DesktopIntegrationError::NotFound(String::from_str("XDG_DATA_HOME not found"))),
            Some(d) => {
                let is_dir = path_is_dir(d.as_str());
                let r = Self::with_xdg_data_home(d.as_str(), is_dir);
                assert(("Invalid XDG_DATA_HOME: "@ + d@).take("Invalid XDG_DATA_HOME: "@.len() as int)
                    =~= "Invalid XDG_DATA_HOME: "@);
                r
            },
        }
    }

    /// A manager for the data directory `xdg_data_home`, which must be
    /// given and be a directory (`is_dir` tells whether it is one).
    pub fn with_xdg_data_home(xdg_data_home: &str, is_dir: bool) -> (r: Result<Self, DesktopIntegrationError>)
        ensures
            xdg_data_home@.len() == 0 || !is_dir ==> (r matches Err(
                DesktopIntegrationError::InvalidParameter(m),
            ) && m@ == "Invalid XDG_DATA_HOME: "@ + xdg_data_home@),
            xdg_data_home@.len() > 0 && is_dir ==> (r matches Ok(x) && x.xdg_data_home@
                == xdg_data_home@ && x.thumbnailer is None),
    {
        if chars_of(xdg_data_home).len() == 0 || !is_dir {
            return Err(
                DesktopIntegrationError::InvalidParameter(concat("Invalid XDG_DATA_HOME: ", xdg_data_home)),
            );
        }
        Ok(IntegrationManager { xdg_data_home: owned(xdg_data_home), thumbnailer: None })
    }

    /// Whether the AppImage whose desktop entry is `desktop_entry` should
    /// be registered.
    pub fn should_register_app_image(&self, desktop_entry: &DesktopEntry) -> (r: Result<bool, DesktopIntegrationError>)
        ensures
            r matches Ok(b) && b == should_register(*desktop_entry),
    {
        let integrate = desktop_entry.get("Desktop Entry/X-AppImage-Integrate");
        if chars_of(integrate).len() > 0 && !flag_is_set(desktop_entry, "Desktop Entry/X-AppImage-Integrate", true) {
            return Ok(false);
        }
        if flag_is_set(desktop_entry, "Desktop Entry/Terminal", false) {
            return Ok(false);
        }
        Ok(true)
    }

    /// The identifier under which the files of an AppImage are deployed,
    /// from the hash of its path: the vendor prefix, `_`, the hash.
    pub fn generate_app_image_id(&self, path_hash: &str) -> (r: String)
        ensures
            r@ == "appimagekit_"@ + path_hash@,
    {
        concat("appimagekit_", path_hash)
    }
}

} // verus!
