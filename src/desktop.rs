//! Desktop entry vocabulary: entry types, keys, the kinds of file pickers,
//! and how picked paths and lists become entry values.

use vstd::prelude::*;
use crate::text::{chars_of, lowercase, lowercase_of};

verus! {

/// The type of a desktop entry.
#[derive(Default, Debug, Clone, Copy, PartialEq, Eq, Structural)]
pub enum DesktopEntryType {
    #[default]
    Application,
    Link,
    Directory,
}

/// The name of an entry type as the `Type` key writes it.
pub open spec fn entry_type_name(t: DesktopEntryType) -> Seq<char> {
    match t {
        DesktopEntryType::Application => "Application"@,
        DesktopEntryType::Link => "Link"@,
        DesktopEntryType::Directory => "Directory"@,
    }
}

impl DesktopEntryType {
    /// The name written under the `Type` key.
    pub fn as_str(&self) -> (r: &'static str)
        ensures
            r@ == entry_type_name(*self),
    {
        match self {
            DesktopEntryType::Application => "Application",
            DesktopEntryType::Link => "Link",
            DesktopEntryType::Directory => "Directory",
        }
    }

    /// The entry type with the given name, which must match exactly.
    pub fn parse(s: &str) -> (r: Option<DesktopEntryType>)
        ensures
            r matches Some(t) ==> entry_type_name(t) == s@,
            r is None ==> forall|t: DesktopEntryType| entry_type_name(t) != s@,
    {
        let v = s.to_owned();
        if v == String::from_str("Application") {
            Some(DesktopEntryType::Application)
        } else if v == String::from_str("Link") {
            Some(DesktopEntryType::Link)
        } else if v == String::from_str("Directory") {
            Some(DesktopEntryType::Directory)
        } else {
            None
        }
    }
}

impl std::str::FromStr for DesktopEntryType {
    type Err = ();

    fn from_str(s: &str) -> Result<DesktopEntryType, ()> {
        match DesktopEntryType::parse(s) {
            Some(t) => Ok(t),
            None => Err(()),
        }
    }
}

/// What a file picker is opened for.
#[derive(Debug, Clone, Copy, PartialEq, Eq, Structural)]
pub enum PickKind {
    DesktopFile,
    Executable,
    TryExecutable,
    Directory,
    IconFile,
}

/// The message identifier of the picker's title.
pub open spec fn pick_title(k: PickKind) -> Seq<char> {
    match k {
        PickKind::DesktopFile => "select-desktop"@,
        PickKind::Executable | PickKind::TryExecutable => "select-executable"@,
        PickKind::Directory => "select-directory"@,
        PickKind::IconFile => "select-icon"@,
    }
}

impl PickKind {
    /// The message identifier of the picker's title, to be looked up in the
    /// translation catalog.
    pub fn title(self) -> (r: &'static str)
        ensures
            r@ == pick_title(self),
    {
        match self {
            PickKind::DesktopFile => "select-desktop",
            PickKind::Executable | PickKind::TryExecutable => "select-executable",
            PickKind::Directory => "select-directory",
            PickKind::IconFile => "select-icon",
        }
    }

    /// The key that a picked executable is written under.
    pub fn exec_key(self) -> (r: DesktopKey)
        ensures
            r == (if self == PickKind::TryExecutable {
                DesktopKey::TryExec
            } else {
                DesktopKey::Exec
            }),
    {
        if self == PickKind::TryExecutable {
            DesktopKey::TryExec
        } else {
            DesktopKey::Exec
        }
    }
}

/// A key of the `[Desktop Entry]` group.
#[derive(Debug, Clone)]
pub enum DesktopKey {
    Type,
    Name,
    GenericName,
    Comment,
    Icon,
    Exec,
    TryExec,
    Terminal,
    Categories,
    Keywords,
    MimeType,
    Actions,
    OnlyShowIn,
    NotShowIn,
    StartupNotify,
    StartupWMClass,
    DBusActivatable,
    NoDisplay,
    Hidden,
    PrefersNonDefaultGPU,
    Implements,
    SingleMainWindow,
    Url,
    Version,
    Path,
    /// A key outside the standard set, by its name.
    Unknown(String),
}

/// The name of a key as written in the file.
pub open spec fn key_name(k: DesktopKey) -> Seq<char> {
    match k {
        DesktopKey::Type => "Type"@,
        DesktopKey::Name => "Name"@,
        DesktopKey::GenericName => "GenericName"@,
        DesktopKey::Comment => "Comment"@,
        DesktopKey::Icon => "Icon"@,
        DesktopKey::Exec => "Exec"@,
        DesktopKey::TryExec => "TryExec"@,
        DesktopKey::Terminal => "Terminal"@,
        DesktopKey::Categories => "Categories"@,
        DesktopKey::Keywords => "Keywords"@,
        DesktopKey::MimeType => "MimeType"@,
        DesktopKey::Actions => "Actions"@,
        DesktopKey::OnlyShowIn => "OnlyShowIn"@,
        DesktopKey::NotShowIn => "NotShowIn"@,
        DesktopKey::StartupNotify => "StartupNotify"@,
        DesktopKey::StartupWMClass => "StartupWMClass"@,
        DesktopKey::DBusActivatable => "DBusActivatable"@,
        DesktopKey::NoDisplay => "NoDisplay"@,
        DesktopKey::Hidden => "Hidden"@,
        DesktopKey::PrefersNonDefaultGPU => "PrefersNonDefaultGPU"@,
        DesktopKey::Implements => "Implements"@,
        DesktopKey::SingleMainWindow => "SingleMainWindow"@,
        DesktopKey::Url => "URL"@,
        DesktopKey::Version => "Version"@,
        DesktopKey::Path => "Path"@,
        DesktopKey::Unknown(s) => s@,
    }
}

impl DesktopKey {
    /// The key's name as written in the file.
    pub fn key_str(&self) -> (r: &str)
        ensures
            r@ == key_name(*self),
    {
        match self {
            DesktopKey::Type => "Type",
            DesktopKey::Name => "Name",
            DesktopKey::GenericName => "GenericName",
            DesktopKey::Comment => "Comment",
            DesktopKey::Icon => "Icon",
            DesktopKey::Exec => "Exec",
            DesktopKey::TryExec => "TryExec",
            DesktopKey::Terminal => "Terminal",
            DesktopKey::Categories => "Categories",
            DesktopKey::Keywords => "Keywords",
            DesktopKey::MimeType => "MimeType",
            DesktopKey::Actions => "Actions",
            DesktopKey::OnlyShowIn => "OnlyShowIn",
            DesktopKey::NotShowIn => "NotShowIn",
            DesktopKey::StartupNotify => "StartupNotify",
            DesktopKey::StartupWMClass => "StartupWMClass",
            DesktopKey::DBusActivatable => "DBusActivatable",
            DesktopKey::NoDisplay => "NoDisplay",
            DesktopKey::Hidden => "Hidden",
            DesktopKey::PrefersNonDefaultGPU => "PrefersNonDefaultGPU",
            DesktopKey::Implements => "Implements",
            DesktopKey::SingleMainWindow => "SingleMainWindow",
            DesktopKey::Url => "URL",
            DesktopKey::Version => "Version",
            DesktopKey::Path => "Path",
            DesktopKey::Unknown(k) => k.as_str(),
        }
    }
}

/// `p` in double quotes when it holds a space.
pub open spec fn quoted_spec(p: Seq<char>) -> Seq<char> {
    if p.contains(' ') {
        seq!['"'] + p + seq!['"']
    } else {
        p
    }
}

/// The `Exec` value for an executable and its arguments: the path, quoted
/// when it holds a space, then the arguments after a space when there are
/// any.
pub open spec fn command_spec(exe: Seq<char>, args: Option<Seq<char>>) -> Seq<char> {
    match args {
        Some(a) => if a.len() > 0 {
            quoted_spec(exe) + seq![' '] + a
        } else {
            quoted_spec(exe)
        },
        None => quoted_spec(exe),
    }
}

/// `items` joined with `;` between them.
pub open spec fn joined_spec(items: Seq<Seq<char>>) -> Seq<char>
    decreases items.len(),
{
    if items.len() == 0 {
        Seq::empty()
    } else if items.len() == 1 {
        items[0]
    } else {
        joined_spec(items.drop_last()) + seq![';'] + items.last()
    }
}

/// A path as a key value: in double quotes when it holds a space.
pub fn quote_path(p: &str) -> (r: String)
    ensures
        r@ == quoted_spec(p@),
{
    let v = chars_of(p);
    let mut i: usize = 0;
    while i < v.len() && v[i] != ' '
        invariant
            i <= v.len(),
            v@ == p@,
            forall|j: int| 0 <= j < i ==> v@[j] != ' ',
        decreases v.len() - i,
    {
        i = i + 1;
    }
    if i < v.len() {
        assert(p@[i as int] == ' ');
        let mut r = String::from_str("\"");
        r.append(p);
        r.append("\"");
        proof {
            reveal_strlit("\"");
        }
        r
    } else {
        p.to_owned()
    }
}

/// The `Exec` value for an executable path and optional arguments.
pub fn exec_command(exe: &str, args: Option<&str>) -> (r: String)
    ensures
        r@ == command_spec(
            exe@,
            match args {
                Some(a) => Some(a@),
                None => None,
            },
        ),
{
    let mut cmd = quote_path(exe);
    match args {
        Some(a) => {
            if a.unicode_len() > 0 {
                cmd.append(" ");
                cmd.append(a);
                proof {
                    reveal_strlit(" ");
                }
            }
        },
        None => {},
    }
    cmd
}

/// A list value: the items joined with `;`.
pub fn join_list(items: &Vec<String>) -> (r: String)
    ensures
        r@ == joined_spec(items@.map_values(|s: String| s@)),
{
    let ghost all = items@.map_values(|s: String| s@);
    let mut r = String::new();
    let mut i: usize = 0;
    while i < items.len()
        invariant
            i <= items.len(),
            all == items@.map_values(|s: String| s@),
            r@ == joined_spec(all.take(i as int)),
        decreases items.len() - i,
    {
        assert(all.take(i + 1).drop_last() =~= all.take(i as int));
        if i > 0 {
            r.append(";");
            proof {
                reveal_strlit(";");
            }
        }
        r.append(items[i].as_str());
        proof {
            if i == 0 {
                assert(r@ =~= all.take(1)[0]);
            }
        }
        i = i + 1;
    }
    assert(all.take(items.len() as int) =~= all);
    r
}

/// Which fields of the form are being edited.
#[derive(Debug, Default, Clone, Copy, PartialEq, Eq, Structural)]
pub struct Editing {
    pub name: bool,
    pub generic_name: bool,
    pub comment: bool,
    pub path: bool,
    pub exec_line: bool,
    pub icon: bool,
    pub try_exec: bool,
    pub only_shown_in: bool,
    pub not_shown_in: bool,
    pub keywords: bool,
    pub categories: bool,
    pub implements: bool,
    pub startupwmclass: bool,
    pub url: bool,
}

/// The keys whose fields can be switched into editing.
pub open spec fn editable(k: DesktopKey) -> bool {
    match k {
        DesktopKey::Name | DesktopKey::GenericName | DesktopKey::Comment | DesktopKey::Path
        | DesktopKey::Exec | DesktopKey::Icon | DesktopKey::TryExec | DesktopKey::OnlyShowIn
        | DesktopKey::NotShowIn | DesktopKey::Keywords | DesktopKey::Categories
        | DesktopKey::Implements | DesktopKey::StartupWMClass | DesktopKey::Url => true,
        _ => false,
    }
}

impl Editing {
    /// Switches the field of `key` into or out of editing; the other fields
    /// keep their value.
    pub fn toggle(&mut self, key: &DesktopKey)
        requires
            editable(*key),
        ensures
            final(self).name == (old(self).name != (*key is Name)),
            final(self).generic_name == (old(self).generic_name != (*key is GenericName)),
            final(self).comment == (old(self).comment != (*key is Comment)),
            final(self).path == (old(self).path != (*key is Path)),
            final(self).exec_line == (old(self).exec_line != (*key is Exec)),
            final(self).icon == (old(self).icon != (*key is Icon)),
            final(self).try_exec == (old(self).try_exec != (*key is TryExec)),
            final(self).only_shown_in == (old(self).only_shown_in != (*key is OnlyShowIn)),
            final(self).not_shown_in == (old(self).not_shown_in != (*key is NotShowIn)),
            final(self).keywords == (old(self).keywords != (*key is Keywords)),
            final(self).categories == (old(self).categories != (*key is Categories)),
            final(self).implements == (old(self).implements != (*key is Implements)),
            final(self).startupwmclass == (old(self).startupwmclass != (*key is StartupWMClass)),
            final(self).url == (old(self).url != (*key is Url)),
    {
        match key {
            DesktopKey::Name => self.name = !self.name,
            DesktopKey::GenericName => self.generic_name = !self.generic_name,
            DesktopKey::Comment => self.comment = !self.comment,
            DesktopKey::Path => self.path = !self.path,
            DesktopKey::Exec => self.exec_line = !self.exec_line,
            DesktopKey::Icon => self.icon = !self.icon,
            DesktopKey::TryExec => self.try_exec = !self.try_exec,
            DesktopKey::OnlyShowIn => self.only_shown_in = !self.only_shown_in,
            DesktopKey::NotShowIn => self.not_shown_in = !self.not_shown_in,
            DesktopKey::Keywords => self.keywords = !self.keywords,
            DesktopKey::Categories => self.categories = !self.categories,
            DesktopKey::Implements => self.implements = !self.implements,
            DesktopKey::StartupWMClass => self.startupwmclass = !self.startupwmclass,
            DesktopKey::Url => self.url = !self.url,
            _ => {},
        }
    }
}

/// `s` with every space replaced by a dash.
pub open spec fn dashed(s: Seq<char>) -> Seq<char> {
    s.map_values(|c: char| if c == ' ' { '-' } else { c })
}

/// Relies on `str::replace`, which replaces every match of the pattern.
#[verifier::external_body]
fn dash_spaces(s: &str) -> (r: String)
    ensures
        r@ == dashed(s@),
{
    s.replace(' ', "-")
}

/// The file extension for an entry type.
pub open spec fn entry_extension(kind: DesktopEntryType) -> Seq<char> {
    if kind == DesktopEntryType::Directory {
        ".directory"@
    } else {
        ".desktop"@
    }
}

/// The file name offered when saving an entry: its name in lower case with
/// spaces turned into dashes (or `fallback` when it has no name), then the
/// extension for its type.
pub open spec fn suggested_name_spec(
    name: Option<Seq<char>>,
    fallback: Seq<char>,
    kind: DesktopEntryType,
) -> Seq<char> {
    let base = match name {
        Some(n) => dashed(lowercase_of(n)),
        None => fallback,
    };
    base + entry_extension(kind)
}

/// The file name offered when saving an entry.
pub fn suggested_file_name(name: Option<&str>, fallback: &str, kind: DesktopEntryType) -> (r: String)
    ensures
        r@ == suggested_name_spec(
            match name {
                Some(n) => Some(n@),
                None => None,
            },
            fallback@,
            kind,
        ),
{
    let mut base = match name {
        Some(n) => dash_spaces(lowercase(n).as_str()),
        None => fallback.to_owned(),
    };
    if kind == DesktopEntryType::Directory {
        base.append(".directory");
    } else {
        base.append(".desktop");
    }
    base
}

/// The keep-worthy entries of a list value: those that are not empty.
pub open spec fn non_empty(s: Seq<Seq<char>>) -> Seq<Seq<char>>
    decreases s.len(),
{
    if s.len() == 0 {
        Seq::empty()
    } else if s.last().len() == 0 {
        non_empty(s.drop_last())
    } else {
        non_empty(s.drop_last()).push(s.last())
    }
}

/// The MIME type list after adding `mime_type` in front of the existing
/// entries, dropping empty ones.
pub fn prepend_mime_type(mime_type: &str, existing: &Vec<String>) -> (r: Vec<String>)
    ensures
        r@.map_values(|s: String| s@) == seq![mime_type@] + non_empty(
            existing@.map_values(|s: String| s@),
        ),
{
    let ghost all = existing@.map_values(|s: String| s@);
    let mut r: Vec<String> = Vec::new();
    r.push(mime_type.to_owned());
    let mut i: usize = 0;
    assert(all.take(0) =~= Seq::<Seq<char>>::empty());
    while i < existing.len()
        invariant
            i <= existing.len(),
            all == existing@.map_values(|s: String| s@),
            r@.map_values(|s: String| s@) =~= seq![mime_type@] + non_empty(all.take(i as int)),
        decreases existing.len() - i,
    {
        assert(all.take(i + 1).drop_last() =~= all.take(i as int));
        assert(all[i as int] == existing@[i as int]@);
        if existing[i].as_str().unicode_len() > 0 {
            let ghost before = r@.map_values(|s: String| s@);
            r.push(existing[i].clone());
            assert(r@.map_values(|s: String| s@) =~= before.push(all[i as int]));
        }
        i = i + 1;
    }
    assert(all.take(existing.len() as int) =~= all);
    r
}

} // verus!
