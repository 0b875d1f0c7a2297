use vstd::prelude::*;
use vstd::seq_lib::*;
use vstd::string::{StrSliceExecFns, StringExecFns};
use crate::ids::{format_version_id, random_version_id, uuid_text_of};
use crate::textutil::str_eq;

verus! {

/// One entry of the version catalog: what the cache engine reads of a
/// versioned build — its id, an optional display name, an optional parent
/// version for cache upgrades, and where its assets come from.
#[derive(Debug, Clone)]
pub struct VersionEntry {
    pub uuid: u128,
    pub name: Option<String>,
    pub parent_uuid: Option<u128>,
    pub asset_url: String,
    pub main_file_url: Option<String>,
}

/// The entry's name matches the given text.
pub open spec fn entry_has_name(v: VersionEntry, name: Seq<char>) -> bool {
    v.name matches Some(n) && n@ == name
}

/// Some entry carries this id.
pub open spec fn has_version(s: Seq<VersionEntry>, uuid: u128) -> bool {
    exists|i: int| 0 <= i < s.len() && s[i].uuid == uuid
}

/// Some entry carries this name.
pub open spec fn has_version_named(s: Seq<VersionEntry>, name: Seq<char>) -> bool {
    exists|i: int| 0 <= i < s.len() && entry_has_name(s[i], name)
}

/// Some entry carries this asset URL.
pub open spec fn has_asset_url(s: Seq<VersionEntry>, url: Seq<char>) -> bool {
    exists|i: int| 0 <= i < s.len() && s[i].asset_url@ == url
}

/// The display name of a version: its declared name, or the canonical text
/// of its id when it has none.
pub fn get_version_name(version: &VersionEntry) -> (r: String)
    ensures
        match version.name {
            Some(n) => r@ == n@,
            None => r@ == uuid_text_of(version.uuid),
        },
{
    match &version.name {
        Some(n) => n.clone(),
        None => format_version_id(version.uuid),
    }
}

impl VersionEntry {
    /// An exact copy.
    pub fn duplicate(&self) -> (r: VersionEntry)
        ensures
            r == *self,
    {
        VersionEntry {
            uuid: self.uuid,
            name: match &self.name {
                Some(n) => Some(n.clone()),
                None => None,
            },
            parent_uuid: self.parent_uuid,
            asset_url: self.asset_url.clone(),
            main_file_url: match &self.main_file_url {
                Some(u) => Some(u.clone()),
                None => None,
            },
        }
    }

    /// The URL of the main asset file: the declared one, or
    /// `<asset url>/main.unity3d` by default.
    pub fn main_file_url_or_default(&self) -> (r: String)
        ensures
            match self.main_file_url {
                Some(u) => r@ == u@,
                None => r@ == self.asset_url@ + "/main.unity3d"@,
            },
    {
        match &self.main_file_url {
            Some(u) => u.clone(),
            None => {
                let mut r = self.asset_url.clone();
                r.append("/main.unity3d");
                r
            },
        }
    }
}

/// A URL with any single trailing slash removed.
pub open spec fn trimmed_url(u: Seq<char>) -> Seq<char> {
    if u.len() > 0 && u.last() == '/' {
        u.drop_last()
    } else {
        u
    }
}

/// A version record imported from the legacy client's list: a name and a
/// bare asset URL.
#[derive(Debug, Clone)]
pub struct LegacyVersion {
    pub name: String,
    pub url: String,
}

impl LegacyVersion {
    /// The asset URL as the catalog stores it: any trailing slash removed.
    pub fn get_asset_url(&self) -> (r: String)
        ensures
            r@ == trimmed_url(self.url@),
    {
        let len = self.url.as_str().unicode_len();
        if len > 0 && self.url.as_str().get_char(len - 1) == '/' {
            let s = self.url.as_str().substring_char(0, len - 1);
            proof {
                assert(self.url@.subrange(0, len - 1) =~= self.url@.drop_last());
            }
            s.to_owned()
        } else {
            self.url.clone()
        }
    }

    /// A barebones catalog entry for a legacy record: a freshly drawn id,
    /// the legacy name as description, the cleaned asset URL, no parent and
    /// no declared main file.
    pub fn to_entry(&self) -> (r: VersionEntry)
        ensures
            r.name matches Some(n) && n@ == self.name@,
            r.parent_uuid is None,
            r.asset_url@ == trimmed_url(self.url@),
            r.main_file_url is None,
    {
        VersionEntry {
            uuid: random_version_id(),
            name: Some(self.name.clone()),
            parent_uuid: None,
            asset_url: self.get_asset_url(),
            main_file_url: None,
        }
    }
}

/// The predicate that keeps an entry when one id is removed from the
/// catalog.
pub open spec fn entry_uuid_differs(uuid: u128) -> spec_fn(VersionEntry) -> bool {
    |v: VersionEntry| v.uuid != uuid
}

/// The predicate that keeps an incoming entry during a merge: its id and
/// its asset URL are both new to the existing list.
pub open spec fn merge_pred(existing: Seq<VersionEntry>) -> spec_fn(VersionEntry) -> bool {
    |v: VersionEntry| !has_version(existing, v.uuid) && !has_asset_url(existing, v.asset_url@)
}

/// Membership of an id in an entry list.
fn contains_uuid(vs: &Vec<VersionEntry>, uuid: u128) -> (r: bool)
    ensures
        r == has_version(vs@, uuid),
{
    let mut i: usize = 0;
    while i < vs.len()
        invariant
            i <= vs@.len(),
            forall|j: int| 0 <= j < i ==> vs@[j].uuid != uuid,
        decreases vs@.len() - i,
    {
        if vs[i].uuid == uuid {
            assert(has_version(vs@, uuid));
            return true;
        }
        i = i + 1;
    }
    false
}

/// Membership of an asset URL in an entry list.
fn contains_asset_url(vs: &Vec<VersionEntry>, url: &str) -> (r: bool)
    ensures
        r == has_asset_url(vs@, url@),
{
    let mut i: usize = 0;
    while i < vs.len()
        invariant
            i <= vs@.len(),
            forall|j: int| 0 <= j < i ==> vs@[j].asset_url@ != url@,
        decreases vs@.len() - i,
    {
        if str_eq(vs[i].asset_url.as_str(), url) {
            assert(has_asset_url(vs@, url@));
            return true;
        }
        i = i + 1;
    }
    false
}

/// Which incoming entries a merge would add: those whose id and asset URL
/// are both unknown to the existing list.  Order is kept.
pub fn calculate_merge(existing: &Vec<VersionEntry>, incoming: Vec<VersionEntry>) -> (r: Vec<
    VersionEntry,
>)
    ensures
        r@ == incoming@.filter(merge_pred(existing@)),
{
    let ghost orig = incoming@;
    let ghost pred = merge_pred(existing@);
    let orig_len: usize = incoming.len();
    let mut incoming = incoming;
    let mut out: Vec<VersionEntry> = Vec::new();
    let mut k_exec: usize = 0;
    while incoming.len() > 0
        invariant
            orig_len == orig.len(),
            k_exec <= orig_len,
            incoming@ == orig.skip(k_exec as int),
            out@ == orig.take(k_exec as int).filter(pred),
            pred == merge_pred(existing@),
        decreases incoming@.len(),
    {
        let ghost i = k_exec as int;
        let v = incoming.remove(0);
        proof {
            assert(orig.skip(i)[0] == orig[i]);
            assert(orig.skip(i).remove(0) =~= orig.skip(i + 1));
        }
        let keep = !contains_uuid(existing, v.uuid) && !contains_asset_url(
            existing,
            v.asset_url.as_str(),
        );
        proof {
            assert(keep == pred(orig[i]));
            orig.lemma_take_succ_push(i);
            orig.take(i).lemma_filter_push(orig[i], pred);
        }
        if keep {
            out.push(v);
        }
        k_exec = k_exec + 1;
    }
    proof {
        assert(orig.take(orig.len() as int) =~= orig);
    }
    out
}

/// The version catalog: the known entries, and the manifest file name each
/// imported entry was loaded from.
#[derive(Debug, Clone, Default)]
pub struct Versions {
    versions: Vec<VersionEntry>,
    filenames: Vec<(u128, String)>,
}

/// The file name recorded for an id, later records winning (recording
/// overwrites).
pub open spec fn lookup_filename(s: Seq<(u128, String)>, id: u128) -> Option<Seq<char>>
    decreases s.len(),
{
    if s.len() == 0 {
        None
    } else if s.last().0 == id {
        Some(s.last().1@)
    } else {
        lookup_filename(s.drop_last(), id)
    }
}

impl Versions {
    /// The catalog's entries, in order.
    pub closed spec fn entries(&self) -> Seq<VersionEntry> {
        self.versions@
    }

    /// The recorded (id, manifest file name) pairs, in recording order.
    pub closed spec fn filenames(&self) -> Seq<(u128, String)> {
        self.filenames@
    }

    /// An empty catalog.
    pub fn new() -> (r: Self)
        ensures
            r.entries().len() == 0,
            r.filenames().len() == 0,
    {
        Versions { versions: Vec::new(), filenames: Vec::new() }
    }

    /// Append an entry.
    pub fn add_entry(&mut self, version: VersionEntry)
        ensures
            final(self).entries() == old(self).entries().push(version),
            final(self).filenames() == old(self).filenames(),
    {
        self.versions.push(version);
    }

    /// Remove every entry with this id.
    pub fn remove_entry(&mut self, uuid: u128)
        ensures
            final(self).entries() == old(self).entries().filter(entry_uuid_differs(uuid)),
            final(self).filenames() == old(self).filenames(),
    {
        let ghost orig = self.versions@;
        let ghost pred = entry_uuid_differs(uuid);
        let mut out: Vec<VersionEntry> = Vec::new();
        let mut i: usize = 0;
        while i < self.versions.len()
            invariant
                i <= orig.len(),
                self.versions@ == orig,
                self.filenames@ == old(self).filenames(),
                out@ == orig.take(i as int).filter(pred),
                pred == entry_uuid_differs(uuid),
            decreases orig.len() - i,
        {
            let v = self.versions[i].duplicate();
            proof {
                assert(v == orig[i as int]);
                assert(pred(orig[i as int]) == (v.uuid != uuid));
                orig.lemma_take_succ_push(i as int);
                orig.take(i as int).lemma_filter_push(orig[i as int], pred);
            }
            if v.uuid != uuid {
                out.push(v);
            }
            i = i + 1;
        }
        proof {
            assert(orig.take(orig.len() as int) =~= orig);
        }
        self.versions = out;
    }

    /// The first entry with this id, if any.
    pub fn get_entry(&self, uuid: u128) -> (r: Option<&VersionEntry>)
        ensures
            r is Some <==> has_version(self.entries(), uuid),
            match r {
                Some(v) => exists|j: int|
                    0 <= j < self.entries().len() && self.entries()[j] == *v && v.uuid == uuid
                        && (forall|k: int| 0 <= k < j ==> self.entries()[k].uuid != uuid),
                None => true,
            },
    {
        let mut i: usize = 0;
        while i < self.versions.len()
            invariant
                i <= self.versions@.len(),
                forall|j: int| 0 <= j < i ==> self.versions@[j].uuid != uuid,
            decreases self.versions@.len() - i,
        {
            if self.versions[i].uuid == uuid {
                return Some(&self.versions[i]);
            }
            i = i + 1;
        }
        None
    }

    /// The first entry with this declared name, if any.
    pub fn get_entry_by_name(&self, name: &str) -> (r: Option<&VersionEntry>)
        ensures
            r is Some <==> has_version_named(self.entries(), name@),
            match r {
                Some(v) => exists|j: int|
                    0 <= j < self.entries().len() && self.entries()[j] == *v && entry_has_name(
                        *v,
                        name@,
                    ) && (forall|k: int|
                        0 <= k < j ==> !entry_has_name(self.entries()[k], name@)),
                None => true,
            },
    {
        let mut i: usize = 0;
        while i < self.versions.len()
            invariant
                i <= self.versions@.len(),
                forall|j: int| 0 <= j < i ==> !entry_has_name(self.versions@[j], name@),
            decreases self.versions@.len() - i,
        {
            let matched = match &self.versions[i].name {
                Some(n) => str_eq(n.as_str(), name),
                None => false,
            };
            if matched {
                return Some(&self.versions[i]);
            }
            i = i + 1;
        }
        None
    }

    /// Record the manifest file name an entry was loaded from; a later
    /// record for the same id overwrites the earlier one.
    pub fn record_file_name(&mut self, uuid: u128, filename: String)
        ensures
            final(self).entries() == old(self).entries(),
            final(self).filenames() == old(self).filenames().push((uuid, filename)),
            lookup_filename(final(self).filenames(), uuid) == Some(filename@),
            forall|other: u128|
                other != uuid ==> #[trigger] lookup_filename(final(self).filenames(), other)
                    == lookup_filename(old(self).filenames(), other),
    {
        self.filenames.push((uuid, filename));
        proof {
            assert(self.filenames@.drop_last() =~= old(self).filenames());
        }
    }

    /// The manifest file name to delete for a version: the recorded one, or
    /// `<id>.json` when none was recorded.
    pub fn version_file_name(&self, uuid: u128) -> (r: String)
        ensures
            match lookup_filename(self.filenames(), uuid) {
                Some(n) => r@ == n,
                None => r@ == uuid_text_of(uuid) + ".json"@,
            },
    {
        let mut j: usize = self.filenames.len();
        proof {
            assert(self.filenames@.take(self.filenames@.len() as int) =~= self.filenames@);
        }
        while j > 0
            invariant
                j <= self.filenames@.len(),
                lookup_filename(self.filenames@, uuid) == lookup_filename(
                    self.filenames@.take(j as int),
                    uuid,
                ),
            decreases j,
        {
            j = j - 1;
            proof {
                assert(self.filenames@.take(j as int + 1).drop_last() =~= self.filenames@.take(
                    j as int,
                ));
                assert(self.filenames@.take(j as int + 1).last() == self.filenames@[j as int]);
            }
            if self.filenames[j].0 == uuid {
                return self.filenames[j].1.clone();
            }
        }
        proof {
            assert(self.filenames@.take(0) =~= Seq::<(u128, String)>::empty());
        }
        let mut r = format_version_id(uuid);
        r.append(".json");
        r
    }
}

} // verus!
