use vstd::prelude::*;
use crate::desktop_integration::desktop_entry::{
    entry_lookup, entry_paths, entry_set, exec_parts, exec_text, split_key_path, strings_list,
    strings_view, DesktopEntry, DesktopEntryExecValue, DesktopEntryStringsValue,
};
use crate::error::AppImageError;
use crate::text::{
    chars_of, concat, contains_text, occurs_at, owned, push_char, push_str, replace_all, replace_text,
    str_contains, string_from_chars,
};

verus! {

/// Settings for editing the desktop entry that an AppImage carries.
pub struct DesktopEntryEditor {
    /// Path of the AppImage file.
    pub app_image_path: String,
    /// Version of the AppImage.
    pub app_image_version: String,
    /// Prefix of the names of the deployed files.
    pub vendor_prefix: String,
    /// Unique identifier of the AppImage.
    pub identifier: String,
}

impl DesktopEntryEditor {
    /// An editor with no path, version or identifier and the vendor prefix
    /// `appimagekit`.
    pub fn new() -> (r: Self)
        ensures
            r.app_image_path@ == Seq::<char>::empty(),
            r.app_image_version@ == Seq::<char>::empty(),
            r.vendor_prefix@ == "appimagekit"@,
            r.identifier@ == Seq::<char>::empty(),
    {
        DesktopEntryEditor {
            app_image_path: String::new(),
            app_image_version: String::new(),
            vendor_prefix: String::from_str("appimagekit"),
            identifier: String::new(),
        }
    }

    /// Set the path of the AppImage file.
    pub fn set_app_image_path(&mut self, path: &str)
        ensures
            final(self).app_image_path@ == path@,
            final(self).app_image_version == old(self).app_image_version,
            final(self).vendor_prefix == old(self).vendor_prefix,
            final(self).identifier == old(self).identifier,
    {
        self.app_image_path = owned(path);
    }

    /// Set the version of the AppImage.
    pub fn set_app_image_version(&mut self, version: &str)
        ensures
            final(self).app_image_version@ == version@,
            final(self).app_image_path == old(self).app_image_path,
            final(self).vendor_prefix == old(self).vendor_prefix,
            final(self).identifier == old(self).identifier,
    {
        self.app_image_version = owned(version);
    }

    /// Set the prefix of the names of the deployed files.
    pub fn set_vendor_prefix(&mut self, prefix: &str)
        ensures
            final(self).vendor_prefix@ == prefix@,
            final(self).app_image_path == old(self).app_image_path,
            final(self).app_image_version == old(self).app_image_version,
            final(self).identifier == old(self).identifier,
    {
        self.vendor_prefix = owned(prefix);
    }

    /// Set the unique identifier of the AppImage.
    pub fn set_identifier(&mut self, id: &str)
        ensures
            final(self).identifier@ == id@,
            final(self).app_image_path == old(self).app_image_path,
            final(self).app_image_version == old(self).app_image_version,
            final(self).vendor_prefix == old(self).vendor_prefix,
    {
        self.identifier = owned(id);
    }
}

/// The view of a desktop entry.
pub type EntryView = Seq<(Seq<char>, Seq<(Seq<char>, Seq<char>)>)>;

/// The value at key path `kp`, or the empty text.
pub open spec fn value_at(e: EntryView, kp: Seq<char>) -> Seq<char> {
    match entry_lookup(e, split_key_path(kp).0, split_key_path(kp).1) {
        Some(v) => v,
        None => Seq::empty(),
    }
}

/// The entry with the value at key path `kp` set to `v`.
pub open spec fn set_at(e: EntryView, kp: Seq<char>, v: Seq<char>) -> EntryView {
    entry_set(e, split_key_path(kp).0, split_key_path(kp).1, v)
}

/// An `Exec` value with its command replaced by `path`.
pub open spec fn with_command(v: Seq<char>, path: Seq<char>) -> Seq<char> {
    exec_text(exec_parts(v).update(0, path))
}

/// The key path of the `Exec` value of desktop action `a`.
pub open spec fn action_exec_path(a: Seq<char>) -> Seq<char> {
    "Desktop Action "@ + a + "/Exec"@
}

/// The entry after the `Exec` value of each action of `acts`, from the
/// `i`-th on, gets the command `path`.
pub open spec fn actions_with_command(e: EntryView, acts: Seq<Seq<char>>, i: int, path: Seq<char>) -> EntryView
    decreases acts.len() - i,
{
    if i < 0 || i >= acts.len() {
        e
    } else {
        let kp = action_exec_path(acts[i]);
        actions_with_command(set_at(e, kp, with_command(value_at(e, kp), path)), acts, i + 1, path)
    }
}

/// Whether every action of `acts`, from the `i`-th on, has a command when
/// its turn comes.
pub open spec fn actions_have_command(e: EntryView, acts: Seq<Seq<char>>, i: int, path: Seq<char>) -> bool
    decreases acts.len() - i,
{
    if i < 0 || i >= acts.len() {
        true
    } else {
        let kp = action_exec_path(acts[i]);
        exec_parts(value_at(e, kp)).len() > 0 && actions_have_command(
            set_at(e, kp, with_command(value_at(e, kp), path)),
            acts,
            i + 1,
            path,
        )
    }
}

/// The entry with the command `path` in `Exec`, `TryExec` set to `path`,
/// then the command `path` in the `Exec` of each listed action.
pub open spec fn exec_paths_set(e: EntryView, path: Seq<char>) -> EntryView {
    let e1 = set_at(e, "Desktop Entry/Exec"@, with_command(value_at(e, "Desktop Entry/Exec"@), path));
    let e2 = set_at(e1, "Desktop Entry/TryExec"@, path);
    actions_with_command(e2, strings_list(value_at(e2, "Desktop Entry/Actions"@)), 0, path)
}

/// Whether the `Exec` values that `exec_paths_set` edits all have a
/// command.
pub open spec fn exec_paths_settable(e: EntryView, path: Seq<char>) -> bool {
    let e1 = set_at(e, "Desktop Entry/Exec"@, with_command(value_at(e, "Desktop Entry/Exec"@), path));
    let e2 = set_at(e1, "Desktop Entry/TryExec"@, path);
    &&& exec_parts(value_at(e, "Desktop Entry/Exec"@)).len() > 0
    &&& actions_have_command(e2, strings_list(value_at(e2, "Desktop Entry/Actions"@)), 0, path)
}

/// Whether a character may stay in a file name: an ASCII letter or digit,
/// `-`, `_` or `.`.
pub open spec fn path_safe(c: char) -> bool {
    ('a' <= c && c <= 'z') || ('A' <= c && c <= 'Z') || ('0' <= c && c <= '9') || c == '-' || c
        == '_' || c == '.'
}

/// `s` with each character that may not stay in a file name replaced by
/// `_`.
pub open spec fn sanitized_for_path(s: Seq<char>) -> Seq<char> {
    Seq::new(s.len(), |i: int| if path_safe(s[i]) { s[i] } else { '_' })
}

/// Make `s` fit for a file name.
pub fn sanitize_for_path(s: &str) -> (r: String)
    ensures
        r@ == sanitized_for_path(s@),
{
    let c = chars_of(s);
    let mut out: Vec<char> = Vec::new();
    let mut i: usize = 0;
    while i < c.len()
        invariant
            c@ == s@,
            i <= c@.len(),
            out@ == sanitized_for_path(s@).take(i as int),
        decreases c@.len() - i,
    {
        let ch = c[i];
        let safe = ('a' <= ch && ch <= 'z') || ('A' <= ch && ch <= 'Z') || ('0' <= ch && ch <= '9')
            || ch == '-' || ch == '_' || ch == '.';
        if safe {
            out.push(ch);
        } else {
            out.push('_');
        }
        assert(out@ =~= sanitized_for_path(s@).take(i + 1));
        i = i + 1;
    }
    assert(sanitized_for_path(s@).take(c@.len() as int) =~= sanitized_for_path(s@));
    string_from_chars(out.as_slice())
}

/// The paths of `ps` that hold `/Icon`, in order.
pub open spec fn icon_paths(ps: Seq<Seq<char>>) -> Seq<Seq<char>>
    decreases ps.len(),
{
    if ps.len() == 0 {
        Seq::empty()
    } else if contains_text(ps.last(), "/Icon"@) {
        icon_paths(ps.drop_last()).push(ps.last())
    } else {
        icon_paths(ps.drop_last())
    }
}

/// The name an icon is deployed under.
pub open spec fn deployed_icon(vendor: Seq<char>, id: Seq<char>, icon: Seq<char>) -> Seq<char> {
    vendor + seq!['_'] + id + seq!['_'] + sanitized_for_path(icon)
}

/// The entry after each icon path of `ps`, from the `i`-th on, keeps its
/// old value under `X-AppImage-Old-Icon` and gets the deployed name.
pub open spec fn icons_renamed(e: EntryView, ps: Seq<Seq<char>>, i: int, vendor: Seq<char>, id: Seq<char>) -> EntryView
    decreases ps.len() - i,
{
    if i < 0 || i >= ps.len() {
        e
    } else {
        let icon = value_at(e, ps[i]);
        let e1 = set_at(e, replace_all(ps[i], "/Icon"@, "/X-AppImage-Old-Icon"@), icon);
        icons_renamed(set_at(e1, ps[i], deployed_icon(vendor, id, icon)), ps, i + 1, vendor, id)
    }
}

/// The paths of `ps` that hold `Desktop Entry/Name`, in order.
pub open spec fn name_paths(ps: Seq<Seq<char>>) -> Seq<Seq<char>>
    decreases ps.len(),
{
    if ps.len() == 0 {
        Seq::empty()
    } else if contains_text(ps.last(), "Desktop Entry/Name"@) {
        name_paths(ps.drop_last()).push(ps.last())
    } else {
        name_paths(ps.drop_last())
    }
}

/// A change of a name: the key that keeps the old name, the name's key
/// path, the old name and the new one.
pub type NameChange = (Seq<char>, Seq<char>, Seq<char>, Seq<char>);

/// The changes that append ` (version)` to each name at a path of `ps`
/// whose value in `snap` does not hold `version`, keeping the old name
/// under `X-AppImage-Old-Name`.
pub open spec fn name_changes(snap: EntryView, ps: Seq<Seq<char>>, version: Seq<char>) -> Seq<NameChange>
    decreases ps.len(),
{
    if ps.len() == 0 {
        Seq::empty()
    } else {
        let m = name_changes(snap, ps.drop_last(), version);
        let name = value_at(snap, ps.last());
        if contains_text(name, version) {
            m
        } else {
            m.push(
                (
                    replace_all(ps.last(), "/Name"@, "/X-AppImage-Old-Name"@),
                    ps.last(),
                    name,
                    name + " ("@ + version + ")"@,
                ),
            )
        }
    }
}

/// The entry after the changes of `ms`, from the `j`-th on, are made in
/// order: the old name is stored, then the new one set.
pub open spec fn changes_applied(e: EntryView, ms: Seq<NameChange>, j: int) -> EntryView
    decreases ms.len() - j,
{
    if j < 0 || j >= ms.len() {
        e
    } else {
        changes_applied(set_at(set_at(e, ms[j].0, ms[j].2), ms[j].1, ms[j].3), ms, j + 1)
    }
}

/// The views of some name changes.
pub open spec fn changes_view(v: Seq<(String, String, String, String)>) -> Seq<NameChange> {
    Seq::new(v.len(), |i: int| (v[i].0@, v[i].1@, v[i].2@, v[i].3@))
}

/// The entry after the version is recorded and appended to the names: the
/// editor's version `v` (where it is given) is stored in
/// `X-AppImage-Version`; the version used is `v` or else the one stored;
/// without either nothing more changes.
pub open spec fn version_appended(e: EntryView, v: Seq<char>) -> EntryView {
    let e1 = if v.len() > 0 {
        set_at(e, "Desktop Entry/X-AppImage-Version"@, v)
    } else {
        e
    };
    let stored = entry_lookup(e1, "Desktop Entry"@, "X-AppImage-Version"@);
    if v.len() == 0 && stored is None {
        e1
    } else {
        let version = if v.len() > 0 {
            v
        } else {
            stored.unwrap()
        };
        changes_applied(e1, name_changes(e1, name_paths(entry_paths(e1)), version), 0)
    }
}

/// Names whose values all hold the version give no change.
proof fn lemma_name_changes_none(snap: EntryView, ps: Seq<Seq<char>>, version: Seq<char>)
    requires
        forall|i: int| 0 <= i < ps.len() ==> contains_text(value_at(snap, #[trigger] ps[i]), version),
    ensures
        name_changes(snap, ps, version) == Seq::<NameChange>::empty(),
    decreases ps.len(),
{
    if ps.len() > 0 {
        assert forall|i: int| 0 <= i < ps.drop_last().len() implies contains_text(
            value_at(snap, #[trigger] ps.drop_last()[i]),
            version,
        ) by {
            assert(ps.drop_last()[i] == ps[i]);
        }
        lemma_name_changes_none(snap, ps.drop_last(), version);
        assert(contains_text(value_at(snap, ps[ps.len() - 1]), version));
    }
}

/// The name paths picked from `ps` are paths of `ps` that hold
/// `Desktop Entry/Name`.
proof fn lemma_name_paths_from(ps: Seq<Seq<char>>)
    ensures
        forall|j: int|
            0 <= j < name_paths(ps).len() ==> ps.contains(#[trigger] name_paths(ps)[j])
                && contains_text(name_paths(ps)[j], "Desktop Entry/Name"@),
    decreases ps.len(),
{
    if ps.len() > 0 {
        lemma_name_paths_from(ps.drop_last());
        let t = ps.drop_last();
        assert forall|j: int| 0 <= j < name_paths(ps).len() implies ps.contains(
            #[trigger] name_paths(ps)[j],
        ) && contains_text(name_paths(ps)[j], "Desktop Entry/Name"@) by {
            if j < name_paths(t).len() {
                assert(name_paths(ps)[j] == name_paths(t)[j]);
                let x = choose|x: int| 0 <= x < t.len() && t[x] == name_paths(t)[j];
                assert(ps[x] == t[x]);
            } else {
                assert(name_paths(ps)[j] == ps.last());
                assert(ps[ps.len() - 1] == ps.last());
            }
        }
    }
}

/// A name that already holds the version is left as it is: where every
/// `Desktop Entry/Name` key path of the entry has a value that holds the
/// version `v`, appending the version only records it under
/// `X-AppImage-Version`; no name changes and no `X-AppImage-Old-Name` key
/// is written.
pub proof fn law_names_holding_version_kept(e: EntryView, v: Seq<char>)
    requires
        v.len() > 0,
        forall|p: Seq<char>|
            entry_paths(e).contains(p) && contains_text(p, "Desktop Entry/Name"@) ==> contains_text(
                #[trigger] value_at(e, p),
                v,
            ),
    ensures
        version_appended(e, v) == set_at(e, "Desktop Entry/X-AppImage-Version"@, v),
{
    reveal_strlit("Desktop Entry/X-AppImage-Version");
    reveal_strlit("Desktop Entry");
    reveal_strlit("X-AppImage-Version");
    let vk = "Desktop Entry/X-AppImage-Version"@;
    let g = "Desktop Entry"@;
    let k = "X-AppImage-Version"@;
    assert(vk =~= g + seq!['/'] + k);
    assert(!g.contains('/')) by {
        assert forall|x: int| 0 <= x < g.len() implies g[x] != '/' by {}
    }
    lemma_split_literal(vk, g, k);
    let e1 = set_at(e, vk, v);
    crate::desktop_integration::desktop_entry::law_set_paths(e, g, k, v);
    let ps = name_paths(entry_paths(e1));
    lemma_name_paths_from(entry_paths(e1));
    assert forall|i: int| 0 <= i < ps.len() implies contains_text(value_at(e1, #[trigger] ps[i]), v) by {
        let p = ps[i];
        assert(entry_paths(e1).contains(p));
        assert(entry_paths(e1).to_set().contains(p));
        crate::desktop_integration::desktop_entry::law_set_then_lookup(
            e,
            g,
            k,
            v,
            split_key_path(p).0,
            split_key_path(p).1,
        );
        if split_key_path(p).0 == g && split_key_path(p).1 == k {
            assert(value_at(e1, p) == v);
            assert(occurs_at(v, v, 0)) by {
                assert(v.subrange(0, v.len() as int) =~= v);
            }
        } else {
            assert(value_at(e1, p) == value_at(e, p));
            assert(p != g + seq!['/'] + k);
            assert(entry_paths(e).to_set().contains(p));
            assert(entry_paths(e).contains(p));
        }
    }
    lemma_name_changes_none(e1, ps, v);
}

proof fn lemma_split_literal(kp: Seq<char>, g: Seq<char>, k: Seq<char>)
    requires
        kp == g + seq!['/'] + k,
        !g.contains('/'),
    ensures
        split_key_path(kp) == (g, k),
{
    crate::desktop_integration::desktop_entry::lemma_first_char_index(kp, '/', g.len() as int);
    assert(kp.take(g.len() as int) =~= g);
    assert(kp.skip(g.len() as int + 1) =~= k);
}

fn set_command(entry: &mut DesktopEntry, key_path: &str, path: &String)
    requires
        exec_parts(value_at(old(entry)@, key_path@)).len() > 0,
    ensures
        final(entry)@ == set_at(old(entry)@, key_path@, with_command(value_at(old(entry)@, key_path@), path@)),
{
    let mut exec = match DesktopEntryExecValue::parse(entry.get(key_path)) {
        Ok(x) => x,
        Err(_) => {
            proof {
                assert(false);
            }
            return ;
        },
    };
    let ghost parts = strings_view(exec.parts@);
    exec.set_part(0, owned(path.as_str()));
    assert(strings_view(exec.parts@) =~= parts.update(0, path@));
    let text = exec.to_string();
    entry.set(key_path, text.as_str());
}

fn has_command(entry: &DesktopEntry, key_path: &str) -> (r: bool)
    ensures
        r == (exec_parts(value_at(entry@, key_path@)).len() > 0),
{
    match DesktopEntryExecValue::parse(entry.get(key_path)) {
        Ok(x) => x.parts.len() > 0,
        Err(_) => false,
    }
}

/// The sub-list of `ps` whose texts hold `pat`.
fn paths_holding(ps: &Vec<String>, pat: &str) -> (r: Vec<String>)
    ensures
        pat@ == "/Icon"@ ==> strings_view(r@) == icon_paths(strings_view(ps@)),
        pat@ == "Desktop Entry/Name"@ ==> strings_view(r@) == name_paths(strings_view(ps@)),
{
    let mut out: Vec<String> = Vec::new();
    let mut i: usize = 0;
    while i < ps.len()
        invariant
            i <= ps@.len(),
            pat@ == "/Icon"@ ==> strings_view(out@) == icon_paths(strings_view(ps@).take(i as int)),
            pat@ == "Desktop Entry/Name"@ ==> strings_view(out@) == name_paths(
                strings_view(ps@).take(i as int),
            ),
        decreases ps@.len() - i,
    {
        let ghost before = strings_view(out@);
        let ghost t = strings_view(ps@).take(i + 1);
        assert(t.drop_last() =~= strings_view(ps@).take(i as int));
        assert(t.last() == ps@[i as int]@);
        if str_contains(ps[i].as_str(), pat) {
            out.push(owned(ps[i].as_str()));
            assert(strings_view(out@) =~= before.push(ps@[i as int]@));
        } else {
            assert(strings_view(out@) =~= before);
        }
        i = i + 1;
    }
    assert(strings_view(ps@).take(ps@.len() as int) =~= strings_view(ps@));
    out
}

impl DesktopEntryEditor {
    /// Edit a desktop entry for deployment: commands and `TryExec` point to
    /// the AppImage, icons get their deployed names, the version is
    /// appended to the names, and the identifier is recorded. An entry
    /// without `Exec` is refused as it is; without an identifier the edit
    /// stops after the commands.
    pub fn edit(&self, entry: &mut DesktopEntry) -> (r: Result<(), AppImageError>)
        requires
            entry_lookup(old(entry)@, "Desktop Entry"@, "Exec"@) is Some ==> exec_paths_settable(
                old(entry)@,
                self.app_image_path@,
            ),
        ensures
            entry_lookup(old(entry)@, "Desktop Entry"@, "Exec"@) is None ==> (r matches Err(
                AppImageError::InvalidData(m),
            ) && m@ == "Missing Desktop Entry"@ && final(entry)@ == old(entry)@),
            entry_lookup(old(entry)@, "Desktop Entry"@, "Exec"@) is Some ==> ({
                let e2 = exec_paths_set(old(entry)@, self.app_image_path@);
                &&& self.identifier@.len() == 0 ==> (r matches Err(AppImageError::InvalidData(m))
                    && m@ == "Missing AppImage UUID"@ && final(entry)@ == e2)
                &&& self.identifier@.len() > 0 ==> (r is Ok && final(entry)@ == set_at(
                    version_appended(
                        icons_renamed(
                            e2,
                            icon_paths(entry_paths(e2)),
                            0,
                            self.vendor_prefix@,
                            self.identifier@,
                        ),
                        self.app_image_version@,
                    ),
                    "Desktop Entry/X-AppImage-Identifier"@,
                    self.identifier@,
                ))
            }),
    {
        proof {
            reveal_strlit("Desktop Entry/Exec");
            reveal_strlit("Desktop Entry");
            reveal_strlit("Exec");
            assert("Desktop Entry/Exec"@ =~= "Desktop Entry"@ + seq!['/'] + "Exec"@);
            assert(!"Desktop Entry"@.contains('/')) by {
                assert forall|k: int| 0 <= k < "Desktop Entry"@.len() implies "Desktop Entry"@[k] != '/' by {}
            }
            lemma_split_literal("Desktop Entry/Exec"@, "Desktop Entry"@, "Exec"@);
        }
        if !entry.key_exists("Desktop Entry/Exec") {
            return Err(AppImageError::InvalidData(String::from_str("Missing Desktop Entry")));
        }
        match self.set_exec_paths(entry) {
            Ok(()) => {},
            Err(e) => {
                return Err(e);
            },
        }
        match self.set_icons(entry) {
            Ok(()) => {},
            Err(e) => {
                return Err(e);
            },
        }
        match self.append_version_to_name(entry) {
            Ok(()) => {},
            Err(e) => {
                return Err(e);
            },
        }
        entry.set("Desktop Entry/X-AppImage-Identifier", self.identifier.as_str());
        Ok(())
    }

    /// Whether `set_exec_paths` can give every `Exec` value it edits the
    /// AppImage as command: each must have a command when its turn comes.
    #[verifier::loop_isolation(false)]
    pub fn can_set_exec_paths(&self, entry: &DesktopEntry) -> (r: bool)
        ensures
            r == exec_paths_settable(entry@, self.app_image_path@),
    {
        proof {
            reveal_strlit("Desktop Entry/Exec");
            reveal_strlit("Desktop Entry/TryExec");
            reveal_strlit("Desktop Entry/Actions");
        }
        let mut e = entry.duplicate();
        if !has_command(&e, "Desktop Entry/Exec") {
            return false;
        }
        set_command(&mut e, "Desktop Entry/Exec", &self.app_image_path);
        e.set("Desktop Entry/TryExec", self.app_image_path.as_str());
        let actions = match DesktopEntryStringsValue::parse(e.get("Desktop Entry/Actions")) {
            Ok(a) => a,
            Err(_) => {
                return false;
            },
        };
        let list = actions.iter();
        let ghost acts = strings_view(list@);
        let ghost e2 = e@;
        let mut i: usize = 0;
        while i < list.len()
            invariant
                acts == strings_view(list@),
                i <= list@.len(),
                actions_have_command(e2, acts, 0, self.app_image_path@) == actions_have_command(
                    e@,
                    acts,
                    i as int,
                    self.app_image_path@,
                ),
            decreases list@.len() - i,
        {
            let mut kp = String::from_str("Desktop Action ");
            push_str(&mut kp, list[i].as_str());
            push_str(&mut kp, "/Exec");
            proof {
                reveal_strlit("Desktop Action ");
                reveal_strlit("/Exec");
                assert(kp@ == action_exec_path(acts[i as int]));
            }
            if !has_command(&e, kp.as_str()) {
                return false;
            }
            set_command(&mut e, kp.as_str(), &self.app_image_path);
            i = i + 1;
        }
        true
    }


    /// Give `Exec` and the `Exec` of each listed desktop action the
    /// AppImage as command, and set `TryExec` to the AppImage.
    #[verifier::loop_isolation(false)]
    pub fn set_exec_paths(&self, entry: &mut DesktopEntry) -> (r: Result<(), AppImageError>)
        requires
            exec_paths_settable(old(entry)@, self.app_image_path@),
        ensures
            r is Ok,
            final(entry)@ == exec_paths_set(old(entry)@, self.app_image_path@),
    {
        proof {
            reveal_strlit("Desktop Entry/Exec");
            reveal_strlit("Desktop Entry/TryExec");
            reveal_strlit("Desktop Entry/Actions");
        }
        set_command(entry, "Desktop Entry/Exec", &self.app_image_path);
        entry.set("Desktop Entry/TryExec", self.app_image_path.as_str());
        let actions = match DesktopEntryStringsValue::parse(entry.get("Desktop Entry/Actions")) {
            Ok(a) => a,
            Err(e) => {
                return Err(e);
            },
        };
        let list = actions.iter();
        let ghost acts = strings_view(list@);
        let ghost e2 = entry@;
        let mut i: usize = 0;
        while i < list.len()
            invariant
                acts == strings_view(list@),
                i <= list@.len(),
                actions_with_command(e2, acts, 0, self.app_image_path@) == actions_with_command(
                    entry@,
                    acts,
                    i as int,
                    self.app_image_path@,
                ),
                actions_have_command(entry@, acts, i as int, self.app_image_path@),
            decreases list@.len() - i,
        {
            let mut kp = String::from_str("Desktop Action ");
            push_str(&mut kp, list[i].as_str());
            push_str(&mut kp, "/Exec");
            proof {
                reveal_strlit("Desktop Action ");
                reveal_strlit("/Exec");
                assert(kp@ == action_exec_path(acts[i as int]));
            }
            set_command(entry, kp.as_str(), &self.app_image_path);
            i = i + 1;
        }
        Ok(())
    }

    /// Give each icon the name it is deployed under, keeping the old one
    /// under `X-AppImage-Old-Icon`; an error where there is no identifier.
    #[verifier::loop_isolation(false)]
    pub fn set_icons(&self, entry: &mut DesktopEntry) -> (r: Result<(), AppImageError>)
        ensures
            self.identifier@.len() == 0 ==> (r matches Err(AppImageError::InvalidData(m)) && m@
                == "Missing AppImage UUID"@ && final(entry)@ == old(entry)@),
            self.identifier@.len() > 0 ==> (r is Ok && final(entry)@ == icons_renamed(
                old(entry)@,
                icon_paths(entry_paths(old(entry)@)),
                0,
                self.vendor_prefix@,
                self.identifier@,
            )),
    {
        if chars_of(self.identifier.as_str()).len() == 0 {
            return Err(AppImageError::InvalidData(String::from_str("Missing AppImage UUID")));
        }
        let all = entry.paths();
        assert(strings_view(all@) =~= entry_paths(entry@));
        let paths = paths_holding(&all, "/Icon");
        proof {
            reveal_strlit("/Icon");
        }
        let ghost ps = strings_view(paths@);
        let ghost e0 = entry@;
        let mut i: usize = 0;
        while i < paths.len()
            invariant
                ps == strings_view(paths@),
                i <= paths@.len(),
                icons_renamed(e0, ps, 0, self.vendor_prefix@, self.identifier@) == icons_renamed(
                    entry@,
                    ps,
                    i as int,
                    self.vendor_prefix@,
                    self.identifier@,
                ),
            decreases paths@.len() - i,
        {
            let icon = owned(entry.get(paths[i].as_str()));
            let mut name = owned(self.vendor_prefix.as_str());
            push_char(&mut name, '_');
            push_str(&mut name, self.identifier.as_str());
            push_char(&mut name, '_');
            let clean = sanitize_for_path(icon.as_str());
            push_str(&mut name, clean.as_str());
            proof {
                reveal_strlit("/X-AppImage-Old-Icon");
            }
            let old_key = replace_text(paths[i].as_str(), "/Icon", "/X-AppImage-Old-Icon");
            assert(ps[i as int] == paths@[i as int]@);
            assert(icon@ == value_at(entry@, ps[i as int]));
            assert(name@ =~= deployed_icon(self.vendor_prefix@, self.identifier@, icon@));
            entry.set(old_key.as_str(), icon.as_str());
            entry.set(paths[i].as_str(), name.as_str());
            i = i + 1;
        }
        Ok(())
    }

    /// Record the version and append it to the names that do not hold it,
    /// keeping the old names under `X-AppImage-Old-Name`.
    #[verifier::loop_isolation(false)]
    pub fn append_version_to_name(&self, entry: &mut DesktopEntry) -> (r: Result<(), AppImageError>)
        ensures
            r is Ok,
            final(entry)@ == version_appended(old(entry)@, self.app_image_version@),
    {
        proof {
            reveal_strlit("Desktop Entry/X-AppImage-Version");
            reveal_strlit("Desktop Entry");
            reveal_strlit("X-AppImage-Version");
            assert("Desktop Entry/X-AppImage-Version"@ =~= "Desktop Entry"@ + seq!['/'] + "X-AppImage-Version"@);
            assert(!"Desktop Entry"@.contains('/')) by {
                assert forall|k: int| 0 <= k < "Desktop Entry"@.len() implies "Desktop Entry"@[k] != '/' by {}
            }
            lemma_split_literal("Desktop Entry/X-AppImage-Version"@, "Desktop Entry"@, "X-AppImage-Version"@);
        }
        let has_version = chars_of(self.app_image_version.as_str()).len() > 0;
        if has_version {
            entry.set("Desktop Entry/X-AppImage-Version", self.app_image_version.as_str());
        }
        let version = if has_version {
            owned(self.app_image_version.as_str())
        } else if entry.key_exists("Desktop Entry/X-AppImage-Version") {
            owned(entry.get("Desktop Entry/X-AppImage-Version"))
        } else {
            return Ok(());
        };
        let all = entry.paths();
        assert(strings_view(all@) =~= entry_paths(entry@));
        let paths = paths_holding(&all, "Desktop Entry/Name");
        let ghost ps = strings_view(paths@);
        let ghost snap = entry@;
        let mut changes: Vec<(String, String, String, String)> = Vec::new();
        let mut i: usize = 0;
        proof {
            reveal_strlit("/Name");
            reveal_strlit("/X-AppImage-Old-Name");
            reveal_strlit(" (");
            reveal_strlit(")");
            assert(ps.take(0) =~= Seq::<Seq<char>>::empty());
            assert(changes_view(changes@) =~= Seq::<NameChange>::empty());
        }
        while i < paths.len()
            invariant
                ps == strings_view(paths@),
                snap == entry@,
                i <= paths@.len(),
                changes_view(changes@) == name_changes(snap, ps.take(i as int), version@),
            decreases paths@.len() - i,
        {
            let ghost before = changes_view(changes@);
            assert(ps.take(i + 1).drop_last() =~= ps.take(i as int));
            assert(ps.take(i + 1).last() == paths@[i as int]@);
            let name = owned(entry.get(paths[i].as_str()));
            if !str_contains(name.as_str(), version.as_str()) {
                let old_key = replace_text(paths[i].as_str(), "/Name", "/X-AppImage-Old-Name");
                let mut new_name = owned(name.as_str());
                push_str(&mut new_name, " (");
                push_str(&mut new_name, version.as_str());
                push_str(&mut new_name, ")");
                changes.push((old_key, owned(paths[i].as_str()), name, new_name));
                assert(changes_view(changes@) =~= before.push(changes_view(changes@).last()));
            } else {
                assert(changes_view(changes@) =~= before);
            }
            i = i + 1;
        }
        assert(ps.take(ps.len() as int) =~= ps);
        let ghost ms = changes_view(changes@);
        let mut j: usize = 0;
        while j < changes.len()
            invariant
                ms == changes_view(changes@),
                j <= changes@.len(),
                changes_applied(snap, ms, 0) == changes_applied(entry@, ms, j as int),
            decreases changes@.len() - j,
        {
            entry.set(changes[j].0.as_str(), changes[j].2.as_str());
            entry.set(changes[j].1.as_str(), changes[j].3.as_str());
            j = j + 1;
        }
        Ok(())
    }
}

} // verus!
