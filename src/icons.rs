//! The icon resolution cache: icon names mapped to image files found under
//! the icon theme directories.

use vstd::prelude::*;
use crate::environment::{Environment, opt_view};
use crate::index::{StringMap, insert_absent};
use crate::paths::{
    extension_spec,
    file_name_of,
    file_name_spec,
    join_path,
    join_spec,
    split_extension,
    stem_spec,
};
use crate::text::{split, split_spec, views};

verus! {

/// The image file extensions that are indexed.
pub open spec fn is_icon_extension(e: Seq<char>) -> bool {
    e == "png"@ || e == "svg"@ || e == "xpm"@ || e == "ico"@ || e == "jpg"@ || e == "jpeg"@
}

/// A path whose file name carries one of the image extensions.
pub open spec fn is_icon_path(p: Seq<char>) -> bool {
    match extension_spec(file_name_spec(p)) {
        Some(e) => is_icon_extension(e),
        None => false,
    }
}

/// The index built from `files` in order: each image file is entered under
/// `key` of its path unless an earlier image file took that key.
pub open spec fn index_by(files: Seq<Seq<char>>, key: spec_fn(Seq<char>) -> Seq<char>) -> Map<
    Seq<char>,
    Seq<char>,
>
    decreases files.len(),
{
    if files.len() == 0 {
        Map::empty()
    } else {
        let m = index_by(files.drop_last(), key);
        let p = files.last();
        if is_icon_path(p) {
            insert_absent(m, key(p), p)
        } else {
            m
        }
    }
}

/// The key of the file-name index.
pub open spec fn full_key() -> spec_fn(Seq<char>) -> Seq<char> {
    |p: Seq<char>| file_name_spec(p)
}

/// The key of the stem index.
pub open spec fn stem_key() -> spec_fn(Seq<char>) -> Seq<char> {
    |p: Seq<char>| stem_spec(file_name_spec(p))
}

/// The index by file name (with extension).
pub open spec fn full_name_index(files: Seq<Seq<char>>) -> Map<Seq<char>, Seq<char>> {
    index_by(files, full_key())
}

/// The index by file name without extension.
pub open spec fn stem_index(files: Seq<Seq<char>>) -> Map<Seq<char>, Seq<char>> {
    index_by(files, stem_key())
}

/// A name looked up in the file-name index first, then in the stem index.
pub open spec fn resolve(
    full: Map<Seq<char>, Seq<char>>,
    stems: Map<Seq<char>, Seq<char>>,
    name: Seq<char>,
) -> Option<Seq<char>> {
    if full.contains_key(name) {
        Some(full[name])
    } else if stems.contains_key(name) {
        Some(stems[name])
    } else {
        None
    }
}

/// What a cache built from `files` answers for `name`.
pub open spec fn lookup_in(files: Seq<Seq<char>>, name: Seq<char>) -> Option<Seq<char>> {
    resolve(full_name_index(files), stem_index(files), name)
}

/// The theme names searched, in order of preference.
pub open spec fn theme_names() -> Seq<Seq<char>> {
    seq!["cosmic"@, "Adwaita"@, "hicolor"@]
}

/// The icon sizes searched: scalable first, then from largest to smallest.
pub open spec fn size_names() -> Seq<Seq<char>> {
    seq![
        "scalable"@,
        "512x512"@,
        "256x256"@,
        "128x128"@,
        "64x64"@,
        "48x48"@,
        "32x32"@,
        "24x24"@,
        "16x16"@,
    ]
}

/// The icon contexts searched.
pub open spec fn context_names() -> Seq<Seq<char>> {
    seq!["apps"@, "places"@, "mimetypes"@, "actions"@]
}

/// The number of theme directories searched under each base directory.
pub const THEME_DIRS: usize = 108;

/// The `k`-th theme directory under `base`: themes vary slowest, contexts
/// fastest.
pub open spec fn theme_dir(base: Seq<char>, k: int) -> Seq<char> {
    join_spec(
        join_spec(join_spec(base, theme_names()[k / 36]), size_names()[(k / 4) % 9]),
        context_names()[k % 4],
    )
}

/// The directories walked under one base directory, in order: every
/// theme/size/context directory, then the pixmaps directory.
pub open spec fn base_roots_spec(base: Seq<char>) -> Seq<Seq<char>> {
    Seq::new(THEME_DIRS as nat, |k: int| theme_dir(base, k)).push(join_spec(base, "pixmaps"@))
}

/// The user's icon directory.
pub open spec fn user_icon_dirs(data_home: Option<Seq<char>>, home: Option<Seq<char>>) -> Seq<
    Seq<char>,
> {
    match data_home {
        Some(h) => seq![join_spec(h, "icons"@)],
        None => match home {
            Some(h) => seq![join_spec(h, ".local/share/icons"@)],
            None => Seq::empty(),
        },
    }
}

/// The system icon directories.
pub open spec fn system_icon_dirs(data_dirs: Option<Seq<char>>) -> Seq<Seq<char>> {
    match data_dirs {
        Some(v) => split_spec(v, ':').map_values(|p: Seq<char>| join_spec(p, "icons"@)),
        None => seq!["/usr/local/share/icons"@, "/usr/share/icons"@],
    }
}

/// The host's icon directories, as seen from inside a sandbox.
pub open spec fn host_icon_dirs(sandboxed: bool) -> Seq<Seq<char>> {
    if sandboxed {
        seq!["/run/host/usr/share/icons"@, "/run/host/share/icons"@]
    } else {
        Seq::empty()
    }
}

/// The base directories searched for icons, highest precedence first.
pub open spec fn icon_search_dirs_spec(env: Environment) -> Seq<Seq<char>> {
    user_icon_dirs(opt_view(env.data_home), opt_view(env.home)) + system_icon_dirs(
        opt_view(env.data_dirs),
    ) + host_icon_dirs(env.sandboxed) + seq!["/usr/share/pixmaps"@]
}

fn theme_name(t: usize) -> (r: &'static str)
    requires
        t < 3,
    ensures
        r@ == theme_names()[t as int],
{
    if t == 0 {
        "cosmic"
    } else if t == 1 {
        "Adwaita"
    } else {
        "hicolor"
    }
}

fn size_name(s: usize) -> (r: &'static str)
    requires
        s < 9,
    ensures
        r@ == size_names()[s as int],
{
    if s == 0 {
        "scalable"
    } else if s == 1 {
        "512x512"
    } else if s == 2 {
        "256x256"
    } else if s == 3 {
        "128x128"
    } else if s == 4 {
        "64x64"
    } else if s == 5 {
        "48x48"
    } else if s == 6 {
        "32x32"
    } else if s == 7 {
        "24x24"
    } else {
        "16x16"
    }
}

fn context_name(c: usize) -> (r: &'static str)
    requires
        c < 4,
    ensures
        r@ == context_names()[c as int],
{
    if c == 0 {
        "apps"
    } else if c == 1 {
        "places"
    } else if c == 2 {
        "mimetypes"
    } else {
        "actions"
    }
}


/// Every key of an index comes from an image file of the list, and is
/// bound to the first such file.
proof fn lemma_index_by_origin(files: Seq<Seq<char>>, key: spec_fn(Seq<char>) -> Seq<char>, k: Seq<char>)
    ensures
        index_by(files, key).contains_key(k) ==> exists|j: int|
            0 <= j < files.len() && is_icon_path(#[trigger] files[j]) && key(files[j]) == k
                && index_by(files, key)[k] == files[j],
    decreases files.len(),
{
    if files.len() > 0 {
        let m = index_by(files.drop_last(), key);
        lemma_index_by_origin(files.drop_last(), key, k);
        if m.contains_key(k) {
            let j = choose|j: int|
                0 <= j < files.drop_last().len() && is_icon_path(#[trigger] files.drop_last()[j])
                    && key(files.drop_last()[j]) == k && m[k] == files.drop_last()[j];
            assert(files[j] == files.drop_last()[j]);
        } else if index_by(files, key).contains_key(k) {
            assert(files[files.len() - 1] == files.last());
        }
    }
}

/// The first image file with a given key is what the index binds that key to.
proof fn lemma_index_by_first(files: Seq<Seq<char>>, key: spec_fn(Seq<char>) -> Seq<char>, i: int)
    requires
        0 <= i < files.len(),
        is_icon_path(files[i]),
        forall|j: int| 0 <= j < i && is_icon_path(#[trigger] files[j]) ==> key(files[j]) != key(files[i]),
    ensures
        index_by(files, key).contains_key(key(files[i])),
        index_by(files, key)[key(files[i])] == files[i],
    decreases files.len(),
{
    let m = index_by(files.drop_last(), key);
    if i == files.len() - 1 {
        lemma_index_by_origin(files.drop_last(), key, key(files[i]));
        if m.contains_key(key(files[i])) {
            let j = choose|j: int|
                0 <= j < files.drop_last().len() && is_icon_path(#[trigger] files.drop_last()[j])
                    && key(files.drop_last()[j]) == key(files[i]) && m[key(files[i])] == files.drop_last()[j];
            assert(files[j] == files.drop_last()[j]);
        }
    } else {
        assert forall|j: int| 0 <= j < i && is_icon_path(#[trigger] files.drop_last()[j]) implies key(
            files.drop_last()[j],
        ) != key(files.drop_last()[i]) by {
            assert(files.drop_last()[j] == files[j]);
        }
        lemma_index_by_first(files.drop_last(), key, i);
    }
}

/// An image file is found under its file name, and under its file name
/// without extension, unless an earlier image file took that name, or (for
/// the stem) some image file is named exactly like the stem.
pub proof fn lemma_icon_found(files: Seq<Seq<char>>, i: int)
    requires
        0 <= i < files.len(),
        is_icon_path(files[i]),
    ensures
        (forall|j: int|
            0 <= j < i && is_icon_path(#[trigger] files[j]) ==> file_name_spec(files[j])
                != file_name_spec(files[i])) ==> lookup_in(files, file_name_spec(files[i])) == Some(
            files[i],
        ),
        (forall|j: int|
            0 <= j < i && is_icon_path(#[trigger] files[j]) ==> stem_spec(file_name_spec(files[j]))
                != stem_spec(file_name_spec(files[i]))) && (forall|j: int|
            0 <= j < files.len() && is_icon_path(#[trigger] files[j]) ==> file_name_spec(files[j])
                != stem_spec(file_name_spec(files[i]))) ==> lookup_in(
            files,
            stem_spec(file_name_spec(files[i])),
        ) == Some(files[i]),
{
    if forall|j: int|
        0 <= j < i && is_icon_path(#[trigger] files[j]) ==> file_name_spec(files[j])
            != file_name_spec(files[i]) {
        lemma_index_by_first(files, full_key(), i);
    }
    let st = stem_spec(file_name_spec(files[i]));
    if (forall|j: int|
        0 <= j < i && is_icon_path(#[trigger] files[j]) ==> stem_spec(file_name_spec(files[j]))
            != st) && (forall|j: int|
        0 <= j < files.len() && is_icon_path(#[trigger] files[j]) ==> file_name_spec(files[j]) != st) {
        lemma_index_by_first(files, stem_key(), i);
        lemma_index_by_origin(files, full_key(), st);
    }
}

/// When two image files share a file name, the one walked first is the one
/// found under that name.
pub proof fn lemma_first_walked_wins(files: Seq<Seq<char>>, i: int, j: int)
    requires
        0 <= i < j < files.len(),
        is_icon_path(files[i]),
        is_icon_path(files[j]),
        file_name_spec(files[i]) == file_name_spec(files[j]),
        forall|k: int|
            0 <= k < i && is_icon_path(#[trigger] files[k]) ==> file_name_spec(files[k])
                != file_name_spec(files[i]),
    ensures
        lookup_in(files, file_name_spec(files[j])) == Some(files[i]),
{
    lemma_icon_found(files, i);
}

/// A name that is neither the file name nor the stem of an image file in
/// the list resolves to nothing; whatever is found is an image file of the
/// list, so files of other types are never indexed and a rebuilt cache
/// holds nothing from an earlier list.
pub proof fn lemma_only_image_files_found(files: Seq<Seq<char>>, name: Seq<char>)
    ensures
        lookup_in(files, name) matches Some(p) ==> is_icon_path(p) && files.contains(p),
        (forall|j: int|
            0 <= j < files.len() && is_icon_path(#[trigger] files[j]) ==> file_name_spec(files[j])
                != name && stem_spec(file_name_spec(files[j])) != name) ==> lookup_in(files, name)
            is None,
{
    lemma_index_by_origin(files, full_key(), name);
    lemma_index_by_origin(files, stem_key(), name);
}

/// The maps from icon names to files.
pub struct IconCache {
    by_name_no_ext: StringMap,
    by_full_name: StringMap,
}

impl IconCache {
    /// The indexes are well-formed.
    pub closed spec fn wf(&self) -> bool {
        self.by_name_no_ext.wf() && self.by_full_name.wf()
    }

    /// The index by file name.
    pub closed spec fn full_names(&self) -> Map<Seq<char>, Seq<char>> {
        self.by_full_name@
    }

    /// The index by file name without extension.
    pub closed spec fn stems(&self) -> Map<Seq<char>, Seq<char>> {
        self.by_name_no_ext@
    }

    /// An empty cache.
    pub fn new() -> (r: IconCache)
        ensures
            r.wf(),
            r.full_names() == Map::<Seq<char>, Seq<char>>::empty(),
            r.stems() == Map::<Seq<char>, Seq<char>>::empty(),
    {
        IconCache { by_name_no_ext: StringMap::new(), by_full_name: StringMap::new() }
    }

    /// The base directories to search, highest precedence first.
    pub fn icon_search_dirs(env: &Environment) -> (r: Vec<String>)
        ensures
            views(r@) == icon_search_dirs_spec(*env),
    {
        let mut dirs: Vec<String> = Vec::new();
        match &env.data_home {
            Some(h) => dirs.push(join_path(h.as_str(), "icons")),
            None => match &env.home {
                Some(h) => dirs.push(join_path(h.as_str(), ".local/share/icons")),
                None => {},
            },
        }
        let ghost user = views(dirs@);
        assert(user =~= user_icon_dirs(opt_view(env.data_home), opt_view(env.home)));
        match &env.data_dirs {
            Some(v) => {
                let parts = split(v.as_str(), ':');
                let ghost sys = split_spec(v@, ':').map_values(|p: Seq<char>| join_spec(p, "icons"@));
                let mut i: usize = 0;
                assert(sys.len() == views(parts@).len());
                while i < parts.len()
                    invariant
                        i <= parts.len(),
                        sys.len() == parts.len(),
                        sys == split_spec(v@, ':').map_values(|p: Seq<char>| join_spec(p, "icons"@)),
                        views(parts@) == split_spec(v@, ':'),
                        views(dirs@) =~= user + sys.take(i as int),
                    decreases parts.len() - i,
                {
                    let ghost before = views(dirs@);
                    dirs.push(join_path(parts[i].as_str(), "icons"));
                    assert(views(parts@)[i as int] == parts@[i as int]@);
                    assert(sys[i as int] == join_spec(parts@[i as int]@, "icons"@));
                    assert(sys.take(i + 1) =~= sys.take(i as int).push(sys[i as int]));
                    assert(views(dirs@) =~= before.push(dirs@.last()@));
                    i = i + 1;
                }
                assert(sys.take(parts.len() as int) =~= sys);
            },
            None => {
                dirs.push(String::from_str("/usr/local/share/icons"));
                dirs.push(String::from_str("/usr/share/icons"));
            },
        }
        let ghost user_sys = views(dirs@);
        assert(user_sys =~= user + system_icon_dirs(opt_view(env.data_dirs)));
        if env.sandboxed {
            dirs.push(String::from_str("/run/host/usr/share/icons"));
            dirs.push(String::from_str("/run/host/share/icons"));
        }
        dirs.push(String::from_str("/usr/share/pixmaps"));
        assert(views(dirs@) =~= icon_search_dirs_spec(*env));
        dirs
    }

    /// The directories to walk under one base directory, in order.
    pub fn base_roots(base: &str) -> (r: Vec<String>)
        ensures
            views(r@) == base_roots_spec(base@),
    {
        let mut roots: Vec<String> = Vec::new();
        let mut k: usize = 0;
        while k < THEME_DIRS
            invariant
                k <= THEME_DIRS,
                views(roots@) =~= Seq::new(k as nat, |j: int| theme_dir(base@, j)),
            decreases THEME_DIRS - k,
        {
            let theme = join_path(base, theme_name(k / 36));
            let sized = join_path(theme.as_str(), size_name((k / 4) % 9));
            let dir = join_path(sized.as_str(), context_name(k % 4));
            let ghost before = views(roots@);
            roots.push(dir);
            assert(views(roots@) =~= before.push(theme_dir(base@, k as int)));
            k = k + 1;
        }
        roots.push(join_path(base, "pixmaps"));
        roots
    }

    /// Whether `path` names an image file that the cache indexes.
    pub fn is_icon_file(path: &str) -> (r: bool)
        ensures
            r == is_icon_path(path@),
    {
        let name = file_name_of(path);
        let (_stem, ext) = split_extension(name.as_str());
        match ext {
            Some(e) => {
                e == String::from_str("png") || e == String::from_str("svg") || e
                    == String::from_str("xpm") || e == String::from_str("ico") || e
                    == String::from_str("jpg") || e == String::from_str("jpeg")
            },
            None => false,
        }
    }

    /// Rebuilds both indexes from `files`, the regular files found by
    /// walking the search roots, in walk order. Earlier files take
    /// precedence.
    pub fn scan(&mut self, files: &Vec<String>)
        requires
            old(self).wf(),
        ensures
            final(self).wf(),
            final(self).full_names() == full_name_index(views(files@)),
            final(self).stems() == stem_index(views(files@)),
    {
        self.by_full_name.clear();
        self.by_name_no_ext.clear();
        let mut i: usize = 0;
        while i < files.len()
            invariant
                i <= files.len(),
                self.wf(),
                self.full_names() == full_name_index(views(files@).take(i as int)),
                self.stems() == stem_index(views(files@).take(i as int)),
            decreases files.len() - i,
        {
            let path = &files[i];
            assert(views(files@).take(i + 1).drop_last() =~= views(files@).take(i as int));
            assert(views(files@).take(i + 1).last() == path@);
            if Self::is_icon_file(path.as_str()) {
                let name = file_name_of(path.as_str());
                let (stem, _ext) = split_extension(name.as_str());
                self.by_full_name.insert_if_absent(name, path.clone());
                self.by_name_no_ext.insert_if_absent(stem, path.clone());
            }
            i = i + 1;
        }
        assert(views(files@).take(files.len() as int) =~= views(files@));
    }

    /// The file for an icon name: by exact file name first, then by name
    /// without extension.
    pub fn lookup(&self, name: &str) -> (r: Option<&String>)
        requires
            self.wf(),
        ensures
            r is Some <==> resolve(self.full_names(), self.stems(), name@) is Some,
            r is Some ==> r->0@ == resolve(self.full_names(), self.stems(), name@)->0,
    {
        match self.by_full_name.get(name) {
            Some(p) => Some(p),
            None => self.by_name_no_ext.get(name),
        }
    }
}

} // verus!
