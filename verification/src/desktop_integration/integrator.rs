use vstd::prelude::*;
use crate::desktop_integration::desktop_entry::{entry_lookup, entry_paths, entry_text, split_key_path, DesktopEntry};
use crate::desktop_integration::editor::{
    exec_paths_set, exec_paths_settable, icon_paths, icons_renamed, sanitize_for_path,
    sanitized_for_path, set_at, version_appended, DesktopEntryEditor, EntryView,
};
use crate::desktop_integration::thumbnailer::{join, path_join};
use crate::error::DesktopIntegrationError;
use crate::squashfs_tools::pager::{file_name, file_name_of};
use crate::text::{chars_of, owned, push_char, push_str, str_eq, string_from_chars, u64_to_decimal, decimal};

verus! {

/// Prefix of the names of the files deployed for AppImages.
pub const VENDOR_PREFIX: &'static str = "appimagekit";

/// What `str::parse::<bool>` gives: `true` and `false` only.
pub open spec fn parsed_bool(s: Seq<char>) -> Option<bool> {
    if s == "true"@ {
        Some(true)
    } else if s == "false"@ {
        Some(false)
    } else {
        None
    }
}

/// `str::parse::<bool>`.
pub fn parse_bool(s: &str) -> (r: Option<bool>)
    ensures
        r == parsed_bool(s@),
{
    if str_eq(s, "true") {
        Some(true)
    } else if str_eq(s, "false") {
        Some(false)
    } else {
        None
    }
}

/// The value of a desktop entry at a key path, empty where it has none.
pub open spec fn entry_value(e: DesktopEntry, key_path: Seq<char>) -> Seq<char> {
    match entry_lookup(e@, split_key_path(key_path).0, split_key_path(key_path).1) {
        Some(v) => v,
        None => Seq::empty(),
    }
}

/// Whether the flag at `key_path` is set: a value that reads as `true`,
/// or `default` for a value that reads as neither; an empty value never is.
pub open spec fn flag_set(e: DesktopEntry, key_path: Seq<char>, default: bool) -> bool {
    let v = entry_value(e, key_path);
    v.len() > 0 && match parsed_bool(v) {
        Some(b) => b,
        None => default,
    }
}

/// Whether the flag at `key_path` of `entry` is set.
pub fn flag_is_set(entry: &DesktopEntry, key_path: &str, default: bool) -> (r: bool)
    ensures
        r == flag_set(*entry, key_path@, default),
{
    let v = entry.get(key_path);
    let n = chars_of(v).len();
    if n == 0 {
        return false;
    }
    match parse_bool(v) {
        Some(b) => b,
        None => default,
    }
}

/// Whether an AppImage whose desktop entry is `e` may be integrated: it
/// must not ask not to be (`X-AppImage-Integrate` false) nor hide itself
/// (`NoDisplay` true).
pub open spec fn may_integrate(e: DesktopEntry) -> bool {
    !(entry_value(e, "Desktop Entry/X-AppImage-Integrate"@).len() > 0 && !flag_set(
        e,
        "Desktop Entry/X-AppImage-Integrate"@,
        true,
    )) && !flag_set(e, "Desktop Entry/NoDisplay"@, false)
}

/// An AppImage whose desktop entry hides it (its `Desktop Entry` group
/// has `NoDisplay=true`) is never integrated, whatever else the entry says.
pub proof fn law_hidden_appimage_not_integrated(e: DesktopEntry)
    requires
        entry_lookup(e@, "Desktop Entry"@, "NoDisplay"@) == Some("true"@),
    ensures
        !may_integrate(e),
{
    reveal_strlit("Desktop Entry/NoDisplay");
    reveal_strlit("Desktop Entry");
    reveal_strlit("NoDisplay");
    reveal_strlit("true");
    assert("Desktop Entry/NoDisplay"@ =~= "Desktop Entry"@ + seq!['/'] + "NoDisplay"@);
    assert(!"Desktop Entry"@.contains('/')) by {
        assert forall|i: int| 0 <= i < "Desktop Entry"@.len() implies "Desktop Entry"@[i] != '/' by {}
    }
    lemma_split_group_key("Desktop Entry/NoDisplay"@, "Desktop Entry"@, "NoDisplay"@);
    assert(entry_value(e, "Desktop Entry/NoDisplay"@) == "true"@);
    assert(flag_set(e, "Desktop Entry/NoDisplay"@, false));
}

/// A key path `group/key` whose group holds no slash splits into that
/// group and key.
pub proof fn lemma_split_group_key(kp: Seq<char>, g: Seq<char>, k: Seq<char>)
    requires
        kp == g + seq!['/'] + k,
        !g.contains('/'),
    ensures
        split_key_path(kp) == (g, k),
{
    crate::desktop_integration::desktop_entry::lemma_first_char_index(kp, '/', g.len() as int);
    assert(kp.take(g.len() as int) =~= g);
    assert(kp.skip(g.len() as int + 1) =~= k);
}

/// What `std::path::Path::with_file_name` gives: the path with its last
/// name replaced by `name` (or `name` added).
pub uninterp spec fn std_with_file_name(path: Seq<char>, name: Seq<char>) -> Seq<char>;

/// `Path::with_file_name`, as text: the result is named
/// `std_with_file_name`.
#[verifier::external_body]
fn path_with_file_name(path: &str, name: &str) -> (r: String)
    ensures
        r@ == std_with_file_name(path@, name@),
{
    std::path::Path::new(path).with_file_name(name).to_string_lossy().into_owned()
}

/// `b` appended to `a` as `Path::join` does: an absolute `b` stands alone.
pub open spec fn path_join_any(a: Seq<char>, b: Seq<char>) -> Seq<char> {
    if b.len() > 0 && b[0] == '/' {
        b
    } else {
        path_join(a, b)
    }
}

fn join_any(a: &str, b: &str) -> (r: String)
    ensures
        r@ == path_join_any(a@, b@),
{
    let c = chars_of(b);
    if c.len() > 0 && c[0] == '/' {
        owned(b)
    } else {
        join(a, b)
    }
}

/// The name under which a file called `name` is deployed for the
/// AppImage known by `id`.
pub open spec fn deployed_name(id: Seq<char>, name: Seq<char>) -> Seq<char> {
    "appimagekit"@ + seq!['_'] + id + seq!['_'] + sanitized_for_path(name)
}

/// Where the application icon named `icon` is deployed under the data
/// directory `xdg`: an SVG icon among the scalable icons, any other among
/// the icons of its size.
pub open spec fn application_icon_path(xdg: Seq<char>, id: Seq<char>, icon: Seq<char>, svg: bool, size: u32) -> Seq<char> {
    let dir = if svg {
        "icons/hicolor"@ + seq!['/'] + "scalable"@
    } else {
        "icons/hicolor"@ + seq!['/'] + decimal(size as nat) + seq!['x'] + decimal(size as nat)
    };
    let file = deployed_name(id, icon + if svg { ".svg"@ } else { ".png"@ });
    path_join(xdg, dir + seq!['/'] + "apps"@ + seq!['/'] + file)
}

/// Where the file at `path` inside the AppImage is deployed under the
/// data directory `xdg` for the AppImage known by `id`, where the path
/// names a file.
pub open spec fn deploy_target(xdg: Seq<char>, id: Seq<char>, path: Seq<char>) -> Option<Seq<char>> {
    match file_name_of(path) {
        Some(n) => Some(path_join_any(xdg, std_with_file_name(path, deployed_name(id, n)))),
        None => None,
    }
}

/// How the icons of an AppImage are deployed: each icon file to its
/// deployed path, or, where the AppImage has none, its `.DirIcon` as the
/// application icon.
pub enum IconDeployment {
    Files(Vec<(String, String)>),
    UseDirIcon,
}

/// Integrates an AppImage into a desktop environment that follows the XDG
/// rules: its path, the data directory, its identifier and its desktop entry.
pub struct Integrator {
    pub app_image_path: String,
    pub xdg_data_home: String,
    pub app_image_id: String,
    pub desktop_entry: DesktopEntry,
}

impl Integrator {
    /// An integrator into `xdg_data_home` for the AppImage at
    /// `app_image_path`, known by `app_image_id`, whose desktop entry is
    /// `desktop_entry`; the data directory must be given.
    pub fn new(app_image_path: &str, xdg_data_home: &str, app_image_id: &str, desktop_entry: DesktopEntry) -> (r: Result<Self, DesktopIntegrationError>)
        ensures
            xdg_data_home@.len() == 0 ==> (r matches Err(DesktopIntegrationError::InvalidParameter(m))
                && m@ == "Invalid XDG_DATA_HOME"@),
            xdg_data_home@.len() > 0 ==> (r matches Ok(i) && i.app_image_path@ == app_image_path@
                && i.xdg_data_home@ == xdg_data_home@ && i.app_image_id@ == app_image_id@
                && i.desktop_entry@ == desktop_entry@),
    {
        if chars_of(xdg_data_home).len() == 0 {
            return Err(DesktopIntegrationError::InvalidParameter(String::from_str("Invalid XDG_DATA_HOME")));
        }
        Ok(
            Integrator {
                app_image_path: owned(app_image_path),
                xdg_data_home: owned(xdg_data_home),
                app_image_id: owned(app_image_id),
                desktop_entry,
            },
        )
    }

    /// Refuse an AppImage that asks not to be integrated or hides itself.
    fn assert_it_should_be_integrated(&self) -> (r: Result<(), DesktopIntegrationError>)
        ensures
            entry_lookup(self.desktop_entry@, "Desktop Entry"@, "NoDisplay"@) == Some("true"@) ==> (r matches Err(
                DesktopIntegrationError::NotSupported(m),
            ) && m@ == "The AppImage explicitly requested to not be integrated"@),
            may_integrate(self.desktop_entry) ==> r is Ok,
            !may_integrate(self.desktop_entry) ==> (r matches Err(
                DesktopIntegrationError::NotSupported(m),
            ) && m@ == "The AppImage explicitly requested to not be integrated"@),
    {
        proof {
            if entry_lookup(self.desktop_entry@, "Desktop Entry"@, "NoDisplay"@) == Some("true"@) {
                law_hidden_appimage_not_integrated(self.desktop_entry);
            }
        }
        let integrate = self.desktop_entry.get("Desktop Entry/X-AppImage-Integrate");
        if chars_of(integrate).len() > 0 && !flag_is_set(&self.desktop_entry, "Desktop Entry/X-AppImage-Integrate", true) {
            return Err(
                DesktopIntegrationError::NotSupported(
                    String::from_str("The AppImage explicitly requested to not be integrated"),
                ),
            );
        }
        if flag_is_set(&self.desktop_entry, "Desktop Entry/NoDisplay", false) {
            return Err(
                DesktopIntegrationError::NotSupported(
                    String::from_str("The AppImage explicitly requested to not be integrated"),
                ),
            );
        }
        Ok(())
    }

    /// The name of the icon to deploy: the `Icon` value of the desktop
    /// entry, which must be given and must not be a path.
    #[verifier::loop_isolation(false)]
    fn icon_name(&self) -> (r: Result<String, DesktopIntegrationError>)
        ensures
            ({
                let icon = entry_value(self.desktop_entry, "Desktop Entry/Icon"@);
                &&& icon.len() == 0 ==> (r matches Err(DesktopIntegrationError::NotFound(m)) && m@
                    == "Missing icon field in the desktop entry"@)
                &&& icon.len() > 0 && icon.contains('/') ==> (r matches Err(
                    DesktopIntegrationError::InvalidParameter(m),
                ) && m@ == "Icon field contains path"@)
                &&& icon.len() > 0 && !icon.contains('/') ==> (r matches Ok(n) && n@ == icon)
            }),
    {
        let icon = self.desktop_entry.get("Desktop Entry/Icon");
        let c = chars_of(icon);
        if c.len() == 0 {
            return Err(
                DesktopIntegrationError::NotFound(String::from_str("Missing icon field in the desktop entry")),
            );
        }
        let mut i: usize = 0;
        while i < c.len()
            invariant
                c@ == icon@,
                i <= c@.len(),
                forall|k: int| 0 <= k < i ==> c@[k] != '/',
            decreases c@.len() - i,
        {
            if c[i] == '/' {
                assert(icon@[i as int] == '/');
                assert(icon@.contains('/'));
                return Err(DesktopIntegrationError::InvalidParameter(String::from_str("Icon field contains path")));
            }
            i = i + 1;
        }
        proof {
            if icon@.contains('/') {
                let k = choose|k: int| 0 <= k < icon@.len() && icon@[k] == '/';
                assert(c@[k] == '/');
            }
        }
        Ok(owned(icon))
    }

    /// Where the desktop file is deployed: under `applications` of the data
    /// directory, named after the vendor, the identifier and the
    /// application's name; an error where the entry has no name.
    pub fn build_desktop_file_path(&self) -> (r: Result<String, DesktopIntegrationError>)
        ensures
            entry_value(self.desktop_entry, "Desktop Entry/Name"@).len() == 0 ==> (r matches Err(
                DesktopIntegrationError::NotFound(m),
            ) && m@ == "Desktop file does not contain Name entry"@),
            entry_value(self.desktop_entry, "Desktop Entry/Name"@).len() > 0 ==> (r matches Ok(p)
                && p@ == desktop_file_path(
                self.xdg_data_home@,
                self.app_image_id@,
                entry_value(self.desktop_entry, "Desktop Entry/Name"@),
            )),
    {
        let name = self.desktop_entry.get("Desktop Entry/Name");
        if chars_of(name).len() == 0 {
            return Err(
                DesktopIntegrationError::NotFound(String::from_str("Desktop file does not contain Name entry")),
            );
        }
        let clean = sanitize_for_path(name);
        let mut file = String::from_str(VENDOR_PREFIX);
        push_char(&mut file, '_');
        push_str(&mut file, self.app_image_id.as_str());
        push_char(&mut file, '-');
        push_str(&mut file, clean.as_str());
        push_str(&mut file, ".desktop");
        let dir = join(self.xdg_data_home.as_str(), "applications");
        proof {
            reveal_strlit("appimagekit");
        }
        Ok(join(dir.as_str(), file.as_str()))
    }

    /// Edit a copy of the desktop entry for deployment: commands point to
    /// the AppImage and the identifier is recorded.
    pub fn edit_desktop_entry(&self, entry: &mut DesktopEntry) -> (r: Result<(), DesktopIntegrationError>)
        requires
            entry_lookup(old(entry)@, "Desktop Entry"@, "Exec"@) is Some ==> exec_paths_settable(
                old(entry)@,
                self.app_image_path@,
            ),
        ensures
            entry_lookup(old(entry)@, "Desktop Entry"@, "Exec"@) is None ==> (r matches Err(
                DesktopIntegrationError::DesktopIntegration(m),
            ) && m@ == "Invalid data: Missing Desktop Entry"@),
            entry_lookup(old(entry)@, "Desktop Entry"@, "Exec"@) is Some && self.app_image_id@.len()
                == 0 ==> (r matches Err(DesktopIntegrationError::DesktopIntegration(m)) && m@
                == "Invalid data: Missing AppImage UUID"@),
            entry_lookup(old(entry)@, "Desktop Entry"@, "Exec"@) is Some && self.app_image_id@.len()
                > 0 ==> (r is Ok && final(entry)@ == deployed_entry(
                old(entry)@,
                self.app_image_path@,
                self.app_image_id@,
            )),
    {
        let mut editor = DesktopEntryEditor::new();
        editor.set_app_image_path(self.app_image_path.as_str());
        editor.set_identifier(self.app_image_id.as_str());
        proof {
            reveal_strlit("appimagekit");
            reveal_strlit("Missing Desktop Entry");
            reveal_strlit("Missing AppImage UUID");
            reveal_strlit("Invalid data: ");
            reveal_strlit("Invalid data: Missing Desktop Entry");
            reveal_strlit("Invalid data: Missing AppImage UUID");
            assert("Invalid data: "@ + "Missing Desktop Entry"@ =~= "Invalid data: Missing Desktop Entry"@);
            assert("Invalid data: "@ + "Missing AppImage UUID"@ =~= "Invalid data: Missing AppImage UUID"@);
        }
        match editor.edit(entry) {
            Ok(()) => Ok(()),
            Err(e) => Err(DesktopIntegrationError::from_app_error(e)),
        }
    }

    /// Where the icon file at `path` inside the AppImage is deployed: the
    /// same path under the data directory, with the file renamed after the
    /// vendor and the identifier; an error where the path names no file.
    pub fn generate_deploy_path(&self, path: &str) -> (r: Result<String, DesktopIntegrationError>)
        ensures
            file_name_of(path@) is None ==> (r matches Err(DesktopIntegrationError::InvalidParameter(m))
                && m@ == "Invalid file path"@),
            file_name_of(path@) matches Some(n) ==> (r matches Ok(p) && p@ == path_join_any(
                self.xdg_data_home@,
                std_with_file_name(path@, deployed_name(self.app_image_id@, n)),
            )),
    {
        let cs = chars_of(path);
        let name = match file_name(cs.as_slice()) {
            None => {
                return Err(DesktopIntegrationError::InvalidParameter(String::from_str("Invalid file path")));
            },
            Some(n) => string_from_chars(n.as_slice()),
        };
        let clean = sanitize_for_path(name.as_str());
        let mut new_name = String::from_str(VENDOR_PREFIX);
        push_char(&mut new_name, '_');
        push_str(&mut new_name, self.app_image_id.as_str());
        push_char(&mut new_name, '_');
        push_str(&mut new_name, clean.as_str());
        proof {
            reveal_strlit("appimagekit");
        }
        assert(new_name@ =~= deployed_name(self.app_image_id@, name@));
        let renamed = path_with_file_name(path, new_name.as_str());
        Ok(join_any(self.xdg_data_home.as_str(), renamed.as_str()))
    }

    /// Where the application icon is deployed when it comes from the
    /// AppImage's `.DirIcon`: see `application_icon_path`; `svg` and `size`
    /// are the icon's format and size.
    pub fn application_icon_deploy_path(&self, icon_name: &str, svg: bool, size: u32) -> (r: String)
        ensures
            r@ == application_icon_path(self.xdg_data_home@, self.app_image_id@, icon_name@, svg, size),
    {
        let mut dir = String::from_str("icons/hicolor");
        push_char(&mut dir, '/');
        let mut file_name = owned(icon_name);
        if svg {
            push_str(&mut dir, "scalable");
            push_str(&mut file_name, ".svg");
        } else {
            let n = u64_to_decimal(size as u64);
            push_str(&mut dir, n.as_str());
            push_char(&mut dir, 'x');
            push_str(&mut dir, n.as_str());
            push_str(&mut file_name, ".png");
        }
        let clean = sanitize_for_path(file_name.as_str());
        let mut rel = dir;
        push_char(&mut rel, '/');
        push_str(&mut rel, "apps");
        push_char(&mut rel, '/');
        push_str(&mut rel, VENDOR_PREFIX);
        push_char(&mut rel, '_');
        push_str(&mut rel, self.app_image_id.as_str());
        push_char(&mut rel, '_');
        push_str(&mut rel, clean.as_str());
        proof {
            reveal_strlit("appimagekit");
            reveal_strlit("icons/hicolor");
            reveal_strlit("scalable");
            reveal_strlit("apps");
        }
        join(self.xdg_data_home.as_str(), rel.as_str())
    }

    /// How to deploy the icons, given the paths of the AppImage's icon
    /// files for its icon name: each to its deployed path (see
    /// `generate_deploy_path`), or the `.DirIcon` where there are none. The
    /// icon name is checked first: it must be given and not be a path.
    #[verifier::loop_isolation(false)]
    #[verifier::spinoff_prover]
    pub fn plan_icon_deployment(&self, icon_paths: &Vec<String>) -> (r: Result<IconDeployment, DesktopIntegrationError>)
        ensures
            ({
                let icon = entry_value(self.desktop_entry, "Desktop Entry/Icon"@);
                &&& icon.len() == 0 ==> (r matches Err(DesktopIntegrationError::NotFound(m)) && m@
                    == "Missing icon field in the desktop entry"@)
                &&& icon.len() > 0 && icon.contains('/') ==> (r matches Err(
                    DesktopIntegrationError::InvalidParameter(m),
                ) && m@ == "Icon field contains path"@)
                &&& icon.len() > 0 && !icon.contains('/') && icon_paths@.len() == 0 ==> (r matches Ok(
                    IconDeployment::UseDirIcon,
                ))
                &&& icon.len() > 0 && !icon.contains('/') && icon_paths@.len() > 0 ==> {
                    &&& (exists|k: int| 0 <= k < icon_paths@.len() && #[trigger] file_name_of(icon_paths@[k]@) is None)
                        <==> (r matches Err(DesktopIntegrationError::InvalidParameter(m)) && m@ == "Invalid file path"@)
                    &&& (r matches Ok(IconDeployment::Files(v)) ==> v@.len() == icon_paths@.len() && forall|k: int|
                        0 <= k < v@.len() ==> #[trigger] v@[k].0@ == icon_paths@[k]@ && deploy_target(
                            self.xdg_data_home@,
                            self.app_image_id@,
                            icon_paths@[k]@,
                        ) == Some(v@[k].1@))
                    &&& (r matches Ok(IconDeployment::Files(_)) || (r matches Err(
                        DesktopIntegrationError::InvalidParameter(m),
                    ) && m@ == "Invalid file path"@))
                }
            }),
    {
        match self.icon_name() {
            Err(e) => {
                return Err(e);
            },
            Ok(_) => {},
        }
        if icon_paths.len() == 0 {
            return Ok(IconDeployment::UseDirIcon);
        }
        let mut out: Vec<(String, String)> = Vec::new();
        let mut i: usize = 0;
        while i < icon_paths.len()
            invariant
                i <= icon_paths@.len(),
                out@.len() == i,
                forall|k: int| 0 <= k < i ==> #[trigger] file_name_of(icon_paths@[k]@) is Some,
                forall|k: int|
                    0 <= k < i ==> #[trigger] out@[k].0@ == icon_paths@[k]@ && deploy_target(
                        self.xdg_data_home@,
                        self.app_image_id@,
                        icon_paths@[k]@,
                    ) == Some(out@[k].1@),
            decreases icon_paths@.len() - i,
        {
            let target = match self.generate_deploy_path(icon_paths[i].as_str()) {
                Err(e) => {
                    assert(file_name_of(icon_paths@[i as int]@) is None);
                    return Err(e);
                },
                Ok(t) => t,
            };
            let src = owned(icon_paths[i].as_str());
            assert(deploy_target(self.xdg_data_home@, self.app_image_id@, icon_paths@[i as int]@) == Some(target@));
            let ghost before = out@;
            let ghost sv = src@;
            let ghost tv = target@;
            assert(sv == icon_paths@[i as int]@);
            out.push((src, target));
            assert(out@[i as int].0@ == sv && out@[i as int].1@ == tv);
            assert forall|k: int| 0 <= k < i + 1 implies #[trigger] out@[k].0@ == icon_paths@[k]@ && deploy_target(
                self.xdg_data_home@,
                self.app_image_id@,
                icon_paths@[k]@,
            ) == Some(out@[k].1@) by {
                if k < i {
                    assert(out@[k] == before[k]);
                }
            }
            i = i + 1;
        }
        proof {
            assert forall|k: int| 0 <= k < icon_paths@.len() implies !(#[trigger] file_name_of(icon_paths@[k]@) is None) by {}
        }
        Ok(IconDeployment::Files(out))
    }

    /// Plan the integration: check that the AppImage may be integrated,
    /// then work out where its desktop file goes, what it holds (the entry
    /// edited for deployment) and which icon to deploy. Writing the files
    /// is left to the caller.
    pub fn integrate(&self) -> (r: Result<IntegrationPlan, DesktopIntegrationError>)
        requires
            entry_lookup(self.desktop_entry@, "Desktop Entry"@, "Exec"@) is Some
                ==> exec_paths_settable(self.desktop_entry@, self.app_image_path@),
        ensures
            entry_lookup(self.desktop_entry@, "Desktop Entry"@, "NoDisplay"@) == Some("true"@) ==> (r matches Err(
                DesktopIntegrationError::NotSupported(m),
            ) && m@ == "The AppImage explicitly requested to not be integrated"@),
            !may_integrate(self.desktop_entry) ==> (r matches Err(
                DesktopIntegrationError::NotSupported(m),
            ) && m@ == "The AppImage explicitly requested to not be integrated"@),
            may_integrate(self.desktop_entry) ==> ({
                let e = self.desktop_entry@;
                let name = entry_value(self.desktop_entry, "Desktop Entry/Name"@);
                let icon = entry_value(self.desktop_entry, "Desktop Entry/Icon"@);
                let has_exec = entry_lookup(e, "Desktop Entry"@, "Exec"@) is Some;
                &&& name.len() == 0 ==> (r matches Err(DesktopIntegrationError::NotFound(m)) && m@
                    == "Desktop file does not contain Name entry"@)
                &&& name.len() > 0 && !has_exec ==> (r matches Err(
                    DesktopIntegrationError::DesktopIntegration(m),
                ) && m@ == "Invalid data: Missing Desktop Entry"@)
                &&& name.len() > 0 && has_exec && self.app_image_id@.len() == 0 ==> (r matches Err(
                    DesktopIntegrationError::DesktopIntegration(m),
                ) && m@ == "Invalid data: Missing AppImage UUID"@)
                &&& name.len() > 0 && has_exec && self.app_image_id@.len() > 0 ==> {
                    &&& icon.len() == 0 ==> (r matches Err(DesktopIntegrationError::NotFound(m))
                        && m@ == "Missing icon field in the desktop entry"@)
                    &&& icon.len() > 0 && icon.contains('/') ==> (r matches Err(
                        DesktopIntegrationError::InvalidParameter(m),
                    ) && m@ == "Icon field contains path"@)
                    &&& icon.len() > 0 && !icon.contains('/') ==> (r matches Ok(p)
                        && p.desktop_file_path@ == desktop_file_path(
                        self.xdg_data_home@,
                        self.app_image_id@,
                        name,
                    ) && p.desktop_file_contents@ == entry_text(
                        deployed_entry(e, self.app_image_path@, self.app_image_id@),
                    ) && p.icon_name@ == icon)
                }
            }),
    {
        proof {
            if entry_lookup(self.desktop_entry@, "Desktop Entry"@, "NoDisplay"@) == Some("true"@) {
                law_hidden_appimage_not_integrated(self.desktop_entry);
            }
        }
        match self.assert_it_should_be_integrated() {
            Err(e) => {
                return Err(e);
            },
            Ok(()) => {},
        }
        let path = match self.build_desktop_file_path() {
            Err(e) => {
                return Err(e);
            },
            Ok(p) => p,
        };
        let mut edited = self.desktop_entry.duplicate();
        match self.edit_desktop_entry(&mut edited) {
            Err(e) => {
                return Err(e);
            },
            Ok(()) => {},
        }
        let contents = edited.to_string();
        let icon = match self.icon_name() {
            Err(e) => {
                return Err(e);
            },
            Ok(n) => n,
        };
        Ok(IntegrationPlan { desktop_file_path: path, desktop_file_contents: contents, icon_name: icon })
    }
}

/// Where the desktop file of an application named `name` is deployed.
pub open spec fn desktop_file_path(xdg: Seq<char>, id: Seq<char>, name: Seq<char>) -> Seq<char> {
    path_join(
        path_join(xdg, "applications"@),
        "appimagekit"@ + seq!['_'] + id + seq!['-'] + sanitized_for_path(name) + ".desktop"@,
    )
}

/// A desktop entry as it is deployed: commands point to the AppImage at
/// `path`, icons get their deployed names, and the identifier `id` is
/// recorded.
pub open spec fn deployed_entry(e: EntryView, path: Seq<char>, id: Seq<char>) -> EntryView {
    let e2 = exec_paths_set(e, path);
    set_at(
        version_appended(icons_renamed(e2, icon_paths(entry_paths(e2)), 0, "appimagekit"@, id), Seq::empty()),
        "Desktop Entry/X-AppImage-Identifier"@,
        id,
    )
}

/// What integrating an AppImage writes: the desktop file's path and
/// contents, and the name of the icon to deploy.
pub struct IntegrationPlan {
    pub desktop_file_path: String,
    pub desktop_file_contents: String,
    pub icon_name: String,
}

} // verus!
