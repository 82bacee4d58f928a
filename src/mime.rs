//! The MIME description cache: MIME types mapped to human-readable
//! descriptions taken from shared-mime-info package files, with the
//! language preference list deciding among localized descriptions, and
//! descriptions copied to alias types.

use vstd::prelude::*;
use crate::aliases::{alias_lines, alias_table, parse_alias_line};
use crate::environment::{Environment, opt_view};
use crate::index::{StringMap, insert_absent};
use crate::packages::{
    lemma_entries_nonempty,
    package_descriptions,
    package_entries,
    pair_views,
};
use crate::paths::{join_path, join_spec};
use crate::table::MimeItem;
use crate::text::{split, views};
use crate::xml::{parse_xml, parsed_xml};

verus! {

/// `m` with a description entered, first writer wins, under its type and
/// under the type's alias.
pub open spec fn add_entry(
    m: Map<Seq<char>, Seq<char>>,
    e: (Seq<char>, Seq<char>),
    aliases: Map<Seq<char>, Seq<char>>,
) -> Map<Seq<char>, Seq<char>> {
    let m1 = insert_absent(m, e.0, e.1);
    if aliases.contains_key(e.0) {
        insert_absent(m1, aliases[e.0], e.1)
    } else {
        m1
    }
}

/// `m` with the pairs entered in order.
pub open spec fn add_entries(
    m: Map<Seq<char>, Seq<char>>,
    entries: Seq<(Seq<char>, Seq<char>)>,
    aliases: Map<Seq<char>, Seq<char>>,
) -> Map<Seq<char>, Seq<char>>
    decreases entries.len(),
{
    if entries.len() == 0 {
        m
    } else {
        add_entry(add_entries(m, entries.drop_last(), aliases), entries.last(), aliases)
    }
}

/// `m` with the descriptions of one package file; a file that is not
/// well-formed XML adds nothing.
pub open spec fn add_package(
    m: Map<Seq<char>, Seq<char>>,
    text: Seq<char>,
    langs: Seq<Seq<char>>,
    aliases: Map<Seq<char>, Seq<char>>,
) -> Map<Seq<char>, Seq<char>> {
    match parsed_xml(text) {
        Some(nodes) => add_entries(m, package_entries(nodes, langs), aliases),
        None => m,
    }
}

/// The descriptions read from the package files, in order.
pub open spec fn descriptions(
    packages: Seq<Seq<char>>,
    langs: Seq<Seq<char>>,
    aliases: Map<Seq<char>, Seq<char>>,
) -> Map<Seq<char>, Seq<char>>
    decreases packages.len(),
{
    if packages.len() == 0 {
        Map::empty()
    } else {
        add_package(descriptions(packages.drop_last(), langs, aliases), packages.last(), langs, aliases)
    }
}

/// The directories that hold package files, in order.
pub open spec fn mime_dirs_spec(sandboxed: bool) -> Seq<Seq<char>> {
    if sandboxed {
        seq![
            "/run/host/usr/share/mime/packages"@,
            "/run/host/share/mime/packages"@,
            "/usr/share/mime/packages"@,
        ]
    } else {
        seq!["/usr/share/mime/packages"@, "/usr/local/share/mime/packages"@]
    }
}

/// The alias files read, in order.
pub open spec fn alias_paths_spec(sandboxed: bool, runtime_dir: Option<Seq<char>>) -> Seq<Seq<char>> {
    let base = seq!["/usr/share/mime/aliases"@, "/usr/local/share/mime/aliases"@];
    if sandboxed {
        let runtime = match runtime_dir {
            Some(r) => seq![join_spec(r, "mime/aliases"@)],
            None => Seq::empty(),
        };
        base + runtime + seq!["/app/share/mime/aliases"@, "/usr/share/mime/aliases"@]
    } else {
        base
    }
}

/// A package file that is not well-formed XML changes nothing: the
/// descriptions are those of the other files, read in the same order.
pub proof fn lemma_malformed_package_skipped(
    packages: Seq<Seq<char>>,
    k: int,
    langs: Seq<Seq<char>>,
    aliases: Map<Seq<char>, Seq<char>>,
)
    requires
        0 <= k < packages.len(),
        parsed_xml(packages[k]) is None,
    ensures
        descriptions(packages, langs, aliases) == descriptions(packages.remove(k), langs, aliases),
    decreases packages.len(),
{
    if k == packages.len() - 1 {
        assert(packages.remove(k) =~= packages.drop_last());
    } else {
        assert(packages.drop_last()[k] == packages[k]);
        lemma_malformed_package_skipped(packages.drop_last(), k, langs, aliases);
        assert(packages.remove(k).drop_last() =~= packages.drop_last().remove(k));
        assert(packages.remove(k).last() == packages.last());
    }
}

/// Whether `entries` holds a pair that puts description `d` under `k`:
/// under its type, or under the type's alias.
pub open spec fn provides(
    entries: Seq<(Seq<char>, Seq<char>)>,
    aliases: Map<Seq<char>, Seq<char>>,
    k: Seq<char>,
    d: Seq<char>,
) -> bool {
    exists|j: int|
        0 <= j < entries.len() && (#[trigger] entries[j]).1 == d && d.len() > 0 && (entries[j].0 == k || (
        aliases.contains_key(entries[j].0) && aliases[entries[j].0] == k))
}

/// Whether the package file `text` is well-formed and provides `d` under `k`.
pub open spec fn package_provides(
    text: Seq<char>,
    langs: Seq<Seq<char>>,
    aliases: Map<Seq<char>, Seq<char>>,
    k: Seq<char>,
    d: Seq<char>,
) -> bool {
    match parsed_xml(text) {
        Some(nodes) => provides(package_entries(nodes, langs), aliases, k, d),
        None => false,
    }
}

proof fn lemma_add_entries_origin(
    m: Map<Seq<char>, Seq<char>>,
    entries: Seq<(Seq<char>, Seq<char>)>,
    aliases: Map<Seq<char>, Seq<char>>,
    k: Seq<char>,
)
    requires
        forall|j: int| 0 <= j < entries.len() ==> (#[trigger] entries[j]).1.len() > 0,
    ensures
        add_entries(m, entries, aliases).contains_key(k) ==> (m.contains_key(k) && add_entries(
            m,
            entries,
            aliases,
        )[k] == m[k]) || provides(entries, aliases, k, add_entries(m, entries, aliases)[k]),
    decreases entries.len(),
{
    if entries.len() > 0 {
        let prev = add_entries(m, entries.drop_last(), aliases);
        assert forall|j: int| 0 <= j < entries.drop_last().len() implies (
        #[trigger] entries.drop_last()[j]).1.len() > 0 by {
            assert(entries.drop_last()[j] == entries[j]);
        }
        lemma_add_entries_origin(m, entries.drop_last(), aliases, k);
        let r = add_entries(m, entries, aliases);
        if r.contains_key(k) && !prev.contains_key(k) {
            assert(entries[entries.len() - 1] == entries.last());
        } else if r.contains_key(k) && !(m.contains_key(k) && prev[k] == m[k]) {
            let j = choose|j: int|
                0 <= j < entries.drop_last().len() && (#[trigger] entries.drop_last()[j]).1 == prev[k]
                    && prev[k].len() > 0 && (entries.drop_last()[j].0 == k || (aliases.contains_key(
                    entries.drop_last()[j].0,
                ) && aliases[entries.drop_last()[j].0] == k));
            assert(entries[j] == entries.drop_last()[j]);
        }
    }
}

/// Every description comes from a well-formed package file of the list
/// that declares it, non-empty, for the type or for the type that the key
/// is an alias of; so a rebuilt cache holds nothing from earlier files.
pub proof fn lemma_description_origin(
    packages: Seq<Seq<char>>,
    langs: Seq<Seq<char>>,
    aliases: Map<Seq<char>, Seq<char>>,
    k: Seq<char>,
)
    ensures
        descriptions(packages, langs, aliases).contains_key(k) ==> exists|i: int|
            0 <= i < packages.len() && package_provides(
                #[trigger] packages[i],
                langs,
                aliases,
                k,
                descriptions(packages, langs, aliases)[k],
            ),
    decreases packages.len(),
{
    if packages.len() > 0 {
        let prev = descriptions(packages.drop_last(), langs, aliases);
        lemma_description_origin(packages.drop_last(), langs, aliases, k);
        let r = descriptions(packages, langs, aliases);
        let last = packages.last();
        assert(packages[packages.len() - 1] == last);
        if r.contains_key(k) {
            match parsed_xml(last) {
                Some(nodes) => {
                    lemma_entries_nonempty(nodes, langs, nodes.len());
                    lemma_add_entries_origin(prev, package_entries(nodes, langs), aliases, k);
                    if prev.contains_key(k) && r[k] == prev[k] {
                        let i = choose|i: int|
                            0 <= i < packages.drop_last().len() && package_provides(
                                #[trigger] packages.drop_last()[i],
                                langs,
                                aliases,
                                k,
                                prev[k],
                            );
                        assert(packages[i] == packages.drop_last()[i]);
                    }
                },
                None => {
                    let i = choose|i: int|
                        0 <= i < packages.drop_last().len() && package_provides(
                            #[trigger] packages.drop_last()[i],
                            langs,
                            aliases,
                            k,
                            prev[k],
                        );
                    assert(packages[i] == packages.drop_last()[i]);
                },
            }
        }
    }
}

/// The table rows for a list of MIME types: one for each non-empty type,
/// with its description, or an empty one when it has none.
pub open spec fn rows_spec(m: Map<Seq<char>, Seq<char>>, types: Seq<Seq<char>>) -> Seq<(Seq<char>, Seq<char>)>
    decreases types.len(),
{
    if types.len() == 0 {
        Seq::empty()
    } else {
        let prev = rows_spec(m, types.drop_last());
        let t = types.last();
        if t.len() == 0 {
            prev
        } else {
            prev.push((t, if m.contains_key(t) { m[t] } else { Seq::empty() }))
        }
    }
}

/// The views of table rows.
pub open spec fn row_views(v: Seq<MimeItem>) -> Seq<(Seq<char>, Seq<char>)> {
    v.map_values(|i: MimeItem| (i.name@, i.description@))
}

/// A cache of MIME type descriptions.
pub struct MimeCache {
    mime_descriptions: StringMap,
}

impl View for MimeCache {
    type V = Map<Seq<char>, Seq<char>>;

    closed spec fn view(&self) -> Map<Seq<char>, Seq<char>> {
        self.mime_descriptions@
    }
}

impl MimeCache {
    /// The indexes are well-formed.
    pub closed spec fn wf(&self) -> bool {
        self.mime_descriptions.wf()
    }

    /// An empty cache.
    pub fn new() -> (r: MimeCache)
        ensures
            r.wf(),
            r@ == Map::<Seq<char>, Seq<char>>::empty(),
    {
        MimeCache { mime_descriptions: StringMap::new() }
    }

    /// The description of a MIME type, by exact name.
    pub fn lookup(&self, name: &str) -> (r: Option<&String>)
        requires
            self.wf(),
        ensures
            r is Some <==> self@.contains_key(name@),
            r is Some ==> r->0@ == self@[name@],
    {
        self.mime_descriptions.get(name)
    }

    /// The table rows for the MIME types of an entry.
    pub fn describe(&self, mime_types: &Vec<String>) -> (r: Vec<MimeItem>)
        requires
            self.wf(),
        ensures
            row_views(r@) == rows_spec(self@, views(mime_types@)),
    {
        let ghost all = views(mime_types@);
        let mut rows: Vec<MimeItem> = Vec::new();
        let mut i: usize = 0;
        assert(all.take(0) =~= Seq::<Seq<char>>::empty());
        assert(row_views(rows@) =~= Seq::<(Seq<char>, Seq<char>)>::empty());
        while i < mime_types.len()
            invariant
                i <= mime_types.len(),
                self.wf(),
                all == views(mime_types@),
                row_views(rows@) == rows_spec(self@, all.take(i as int)),
            decreases mime_types.len() - i,
        {
            assert(all.take(i + 1).drop_last() =~= all.take(i as int));
            assert(all[i as int] == mime_types@[i as int]@);
            let t = &mime_types[i];
            if t.as_str().unicode_len() > 0 {
                let description = match self.lookup(t.as_str()) {
                    Some(d) => d.clone(),
                    None => String::new(),
                };
                let ghost before = row_views(rows@);
                rows.push(MimeItem { name: t.clone(), description });
                assert(row_views(rows@) =~= before.push((t@, description@)));
            }
            i = i + 1;
        }
        assert(all.take(mime_types.len() as int) =~= all);
        rows
    }

    /// The directories that hold package files, in the order they are read.
    pub fn candidate_mime_dirs(sandboxed: bool) -> (r: Vec<String>)
        ensures
            views(r@) == mime_dirs_spec(sandboxed),
    {
        let mut dirs: Vec<String> = Vec::new();
        if sandboxed {
            dirs.push(String::from_str("/run/host/usr/share/mime/packages"));
            dirs.push(String::from_str("/run/host/share/mime/packages"));
            dirs.push(String::from_str("/usr/share/mime/packages"));
        } else {
            dirs.push(String::from_str("/usr/share/mime/packages"));
            dirs.push(String::from_str("/usr/local/share/mime/packages"));
        }
        assert(views(dirs@) =~= mime_dirs_spec(sandboxed));
        dirs
    }

    /// The alias files, in the order they are read.
    pub fn alias_file_paths(env: &Environment) -> (r: Vec<String>)
        ensures
            views(r@) == alias_paths_spec(env.sandboxed, opt_view(env.runtime_dir)),
    {
        let mut paths: Vec<String> = Vec::new();
        paths.push(String::from_str("/usr/share/mime/aliases"));
        paths.push(String::from_str("/usr/local/share/mime/aliases"));
        if env.sandboxed {
            match &env.runtime_dir {
                Some(rt) => paths.push(join_path(rt.as_str(), "mime/aliases")),
                None => {},
            }
            paths.push(String::from_str("/app/share/mime/aliases"));
            paths.push(String::from_str("/usr/share/mime/aliases"));
        }
        assert(views(paths@) =~= alias_paths_spec(env.sandboxed, opt_view(env.runtime_dir)));
        paths
    }

    /// The alias table read from the texts of the alias files, in order: a
    /// later line replaces an earlier one for the same canonical type.
    pub fn get_mime_aliases(texts: &Vec<String>) -> (r: StringMap)
        ensures
            r.wf(),
            r@ == alias_table(views(texts@)),
    {
        let mut aliases = StringMap::new();
        let mut i: usize = 0;
        assert(views(texts@).take(0) =~= Seq::<Seq<char>>::empty());
        while i < texts.len()
            invariant
                i <= texts.len(),
                aliases.wf(),
                aliases@ == alias_table(views(texts@).take(i as int)),
            decreases texts.len() - i,
        {
            assert(views(texts@).take(i + 1).drop_last() =~= views(texts@).take(i as int));
            let ghost start = aliases@;
            let lines = split(texts[i].as_str(), '\n');
            let mut j: usize = 0;
            assert(views(lines@).take(0) =~= Seq::<Seq<char>>::empty());
            while j < lines.len()
                invariant
                    j <= lines.len(),
                    aliases.wf(),
                    aliases@ == alias_lines(start, views(lines@).take(j as int)),
                decreases lines.len() - j,
            {
                assert(views(lines@).take(j + 1).drop_last() =~= views(lines@).take(j as int));
                match parse_alias_line(lines[j].as_str()) {
                    Some((canonical, alias)) => aliases.insert(canonical, alias),
                    None => {},
                }
                j = j + 1;
            }
            assert(views(lines@).take(lines.len() as int) =~= views(lines@));
            i = i + 1;
        }
        assert(views(texts@).take(texts.len() as int) =~= views(texts@));
        aliases
    }

    /// Enters the pairs in order, each under its type and under the type's
    /// alias, where nothing is entered yet.
    fn add_descriptions(&mut self, entries: &Vec<(String, String)>, aliases: &StringMap)
        requires
            old(self).wf(),
            aliases.wf(),
        ensures
            final(self).wf(),
            final(self)@ == add_entries(old(self)@, pair_views(entries@), aliases@),
    {
        let ghost start = self@;
        let mut i: usize = 0;
        assert(pair_views(entries@).take(0) =~= Seq::<(Seq<char>, Seq<char>)>::empty());
        while i < entries.len()
            invariant
                i <= entries.len(),
                self.wf(),
                aliases.wf(),
                self@ == add_entries(start, pair_views(entries@).take(i as int), aliases@),
            decreases entries.len() - i,
        {
            assert(pair_views(entries@).take(i + 1).drop_last() =~= pair_views(entries@).take(i as int));
            let (mime_type, description) = &entries[i];
            self.mime_descriptions.insert_if_absent(mime_type.clone(), description.clone());
            match aliases.get(mime_type.as_str()) {
                Some(alias) => self.mime_descriptions.insert_if_absent(alias.clone(), description.clone()),
                None => {},
            }
            i = i + 1;
        }
        assert(pair_views(entries@).take(entries.len() as int) =~= pair_views(entries@));
    }

    /// Rebuilds the cache from the texts of the package files, in the order
    /// they are read, choosing among localized descriptions by `languages`
    /// (most preferred first) and copying each description to the alias of
    /// its type. Earlier descriptions take precedence; a text that is not
    /// well-formed XML adds nothing.
    pub fn scan(&mut self, languages: &Vec<String>, alias_texts: &Vec<String>, packages: &Vec<String>)
        requires
            old(self).wf(),
        ensures
            final(self).wf(),
            final(self)@ == descriptions(
                views(packages@),
                views(languages@),
                alias_table(views(alias_texts@)),
            ),
    {
        self.mime_descriptions.clear();
        let aliases = Self::get_mime_aliases(alias_texts);
        let mut i: usize = 0;
        assert(views(packages@).take(0) =~= Seq::<Seq<char>>::empty());
        while i < packages.len()
            invariant
                i <= packages.len(),
                self.wf(),
                aliases.wf(),
                aliases@ == alias_table(views(alias_texts@)),
                self@ == descriptions(views(packages@).take(i as int), views(languages@), aliases@),
            decreases packages.len() - i,
        {
            assert(views(packages@).take(i + 1).drop_last() =~= views(packages@).take(i as int));
            match parse_xml(packages[i].as_str()) {
                Some(nodes) => {
                    let entries = package_descriptions(&nodes, languages);
                    self.add_descriptions(&entries, &aliases);
                },
                None => {},
            }
            i = i + 1;
        }
        assert(views(packages@).take(packages.len() as int) =~= views(packages@));
    }
}

} // verus!
