//! The content-addressed cache of package archives.
//!
//! The cache decides; reading and writing its files is left to the caller.
//! An archive is kept under a key derived from its locator, and is produced
//! at most once per key.
use crate::encoding::{checksum_of, hash_key, random_u64, spec_checksum, spec_hash_key};
use crate::error::Error;
use crate::keyed::{Duplicate, Key, KeyedList};
use crate::primitives::{locator_text, Locator, LocatorView};
use crate::semver::{decimal, push_number};
use crate::text::{append_str, chars_of, string_of};
use vstd::prelude::*;

verus! {

/// An archive in the cache: where it is kept, its bytes, and the digest of
/// the bytes.
#[derive(Debug)]
pub struct Blob {
    pub path: String,
    pub data: Vec<u8>,
    pub checksum: String,
}

pub struct BlobView {
    pub path: Seq<char>,
    pub data: Seq<u8>,
    pub checksum: Seq<char>,
}

impl View for Blob {
    type V = BlobView;

    open spec fn view(&self) -> BlobView {
        BlobView { path: self.path@, data: self.data@, checksum: self.checksum@ }
    }
}

/// A copy of the bytes.
pub fn copy_bytes(data: &Vec<u8>) -> (copy: Vec<u8>)
    ensures
        copy@ == data@,
{
    let mut copy: Vec<u8> = Vec::new();
    let mut i: usize = 0;
    while i < data.len()
        invariant
            i <= data.len(),
            copy@ == data@.take(i as int),
        decreases data.len() - i,
    {
        copy.push(data[i]);
        assert(data@.take(i + 1) =~= data@.take(i as int).push(data@[i as int]));
        i += 1;
    }
    assert(data@.take(data.len() as int) =~= data@);
    copy
}

impl Duplicate for Blob {
    fn duplicate(&self) -> (copy: Self) {
        Blob {
            path: self.path.clone(),
            data: copy_bytes(&self.data),
            checksum: self.checksum.clone(),
        }
    }
}

/// What an archive is kept under: the package and the kind of file.
#[derive(Debug)]
pub struct BlobKey {
    pub locator: Locator,
    pub extension: String,
}

impl View for BlobKey {
    type V = (LocatorView, Seq<char>);

    open spec fn view(&self) -> (LocatorView, Seq<char>) {
        (self.locator@, self.extension@)
    }
}

impl Duplicate for BlobKey {
    fn duplicate(&self) -> (copy: Self) {
        BlobKey { locator: self.locator.duplicate(), extension: self.extension.clone() }
    }
}

impl Key for BlobKey {
    fn same(&self, other: &Self) -> (same: bool) {
        self.locator.same(&other.locator) && self.extension == other.extension
    }
}

/// The cache: the directory it keeps its files in, and the archives it has
/// handed out in this run.
#[derive(Debug)]
pub struct CompositeCache {
    pub root: String,
    pub known: KeyedList<BlobKey, Blob>,
}

/// The archives of a cache by their views.
pub open spec fn blob_views(known: Map<(LocatorView, Seq<char>), Blob>) -> Map<
    (LocatorView, Seq<char>),
    BlobView,
> {
    known.map_values(|b: Blob| b@)
}

/// Where the archive of a package is kept: under the digest of the text of
/// its locator.
pub open spec fn spec_blob_path(root: Seq<char>, locator: LocatorView, extension: Seq<char>) -> Seq<
    char,
> {
    root + "/"@ + spec_hash_key(locator_text(locator)) + extension
}

/// The archive that is made of freshly supplied bytes.
pub open spec fn spec_fresh_blob(
    root: Seq<char>,
    key: (LocatorView, Seq<char>),
    data: Seq<u8>,
) -> BlobView {
    BlobView { path: spec_blob_path(root, key.0, key.1), data, checksum: spec_checksum(data) }
}

/// Asking for the archive under `key`, offering `data` in case there is
/// none: what is known stays, and only what is new is recorded.
pub open spec fn spec_upsert(
    root: Seq<char>,
    known: Map<(LocatorView, Seq<char>), BlobView>,
    key: (LocatorView, Seq<char>),
    data: Seq<u8>,
) -> (Map<(LocatorView, Seq<char>), BlobView>, BlobView) {
    if known.contains_key(key) {
        (known, known[key])
    } else {
        (known.insert(key, spec_fresh_blob(root, key, data)), spec_fresh_blob(root, key, data))
    }
}

/// Asking twice for the same archive gives the same archive, checksum and
/// all, whatever is offered the second time; and the second time nothing
/// is recorded.
pub proof fn law_upsert_idempotent(
    root: Seq<char>,
    known: Map<(LocatorView, Seq<char>), BlobView>,
    key: (LocatorView, Seq<char>),
    first: Seq<u8>,
    second: Seq<u8>,
)
    ensures
        spec_upsert(root, spec_upsert(root, known, key, first).0, key, second).1 == spec_upsert(
            root,
            known,
            key,
            first,
        ).1,
        spec_upsert(root, spec_upsert(root, known, key, first).0, key, second).0 == spec_upsert(
            root,
            known,
            key,
            first,
        ).0,
        spec_upsert(root, known, key, first).0.contains_key(key),
{
}

/// What is to be done for the archive of a package.
#[derive(Debug)]
pub enum BlobStep {
    /// The cache has handed the archive out before: here it is.
    Known(Blob),
    /// The cache does not know the archive. It is kept at `path`: what an
    /// earlier run left there is taken, and where nothing is there the
    /// archive is made and written there; either way `store` takes the
    /// bytes.
    Wanted { path: String },
}

impl CompositeCache {
    pub open spec fn wf(&self) -> bool {
        self.known.wf()
    }

    /// The archives handed out so far.
    pub open spec fn blobs(&self) -> Map<(LocatorView, Seq<char>), BlobView> {
        blob_views(self.known.map())
    }

    /// A cache that has handed out nothing.
    pub fn new(root: &str) -> (cache: CompositeCache)
        ensures
            cache.wf(),
            cache.root@ == root@,
            cache.blobs() == Map::<(LocatorView, Seq<char>), BlobView>::empty(),
    {
        let cache = CompositeCache { root: string_of(&chars_of(root)), known: KeyedList::new() };
        assert(cache.blobs() =~= Map::<(LocatorView, Seq<char>), BlobView>::empty());
        cache
    }

    /// Where the archive of a package is kept.
    pub fn blob_path(&self, locator: &Locator, extension: &str) -> (path: String)
        ensures
            path@ == spec_blob_path(self.root@, locator@, extension@),
    {
        let text = locator.to_file_string();
        let hash = hash_key(text.as_str());
        let mut out = chars_of(self.root.as_str());
        append_str(&mut out, "/");
        append_str(&mut out, hash.as_str());
        append_str(&mut out, extension);
        assert(out@ =~= spec_blob_path(self.root@, locator@, extension@));
        string_of(&out)
    }

    /// The path next to that of the archive that bears the number `n`: the
    /// path of the archive, `.tmp-`, and the number.
    pub fn temp_path_numbered(&self, locator: &Locator, extension: &str, n: u64) -> (path: String)
        ensures
            path@ == spec_blob_path(self.root@, locator@, extension@) + ".tmp-"@ + decimal(
                n as nat,
            ),
    {
        let target = self.blob_path(locator, extension);
        let mut out = chars_of(target.as_str());
        append_str(&mut out, ".tmp-");
        push_number(&mut out, n);
        assert(out@ =~= spec_blob_path(self.root@, locator@, extension@) + ".tmp-"@ + decimal(
            n as nat,
        ));
        string_of(&out)
    }

    /// A path next to that of the archive, for writing it before it is
    /// moved into place: the path of the archive, `.tmp-`, and a number
    /// drawn at random.
    pub fn temp_path(&self, locator: &Locator, extension: &str) -> (path: String)
        ensures
            exists|n: u64|
                path@ == spec_blob_path(self.root@, locator@, extension@) + ".tmp-"@ + decimal(
                    n as nat,
                ),
    {
        let n = random_u64();
        self.temp_path_numbered(locator, extension, n)
    }

    /// The archive of a package, if the cache has handed it out before.
    pub fn lookup(&self, locator: &Locator, extension: &str) -> (r: Option<Blob>)
        requires
            self.wf(),
        ensures
            match r {
                Some(blob) => self.blobs().contains_key((locator@, extension@))
                    && blob@ == self.blobs()[(locator@, extension@)],
                None => !self.blobs().contains_key((locator@, extension@)),
            },
    {
        let key = BlobKey {
            locator: locator.duplicate(),
            extension: string_of(&chars_of(extension)),
        };
        match self.known.get(&key) {
            Some(blob) => Some(blob.duplicate()),
            None => None,
        }
    }

    /// What is to be done for the archive of a package: nothing where the
    /// cache has handed it out before, and else the archive is wanted at
    /// the place where it is kept.
    pub fn plan(&self, locator: &Locator, extension: &str) -> (step: BlobStep)
        requires
            self.wf(),
        ensures
            step matches BlobStep::Known(_) <==> self.blobs().contains_key((locator@, extension@)),
            step matches BlobStep::Known(blob) ==> blob@ == self.blobs()[(locator@, extension@)],
            step matches BlobStep::Wanted { path } ==> path@ == spec_blob_path(
                self.root@,
                locator@,
                extension@,
            ),
    {
        match self.lookup(locator, extension) {
            Some(blob) => BlobStep::Known(blob),
            None => BlobStep::Wanted { path: self.blob_path(locator, extension) },
        }
    }

    /// Records the bytes of an archive, unless the cache knows the archive
    /// already, and hands out the archive that it knows now.
    pub fn store(&mut self, locator: &Locator, extension: &str, data: Vec<u8>) -> (blob: Blob)
        requires
            old(self).wf(),
        ensures
            final(self).wf(),
            final(self).root == old(self).root,
            (final(self).blobs(), blob@) == spec_upsert(
                old(self).root@,
                old(self).blobs(),
                (locator@, extension@),
                data@,
            ),
    {
        let key = BlobKey {
            locator: locator.duplicate(),
            extension: string_of(&chars_of(extension)),
        };
        let ghost before = self.blobs();
        match self.known.get(&key) {
            Some(blob) => blob.duplicate(),
            None => {
                let blob = Blob {
                    path: self.blob_path(locator, extension),
                    checksum: checksum_of(&data),
                    data,
                };
                let copy = blob.duplicate();
                self.known.insert(key, blob);
                assert(self.blobs() =~= before.insert((locator@, extension@), copy@));
                copy
            },
        }
    }

    /// The archive of a package: the one the cache has handed out before,
    /// or else what `producer` makes, which is recorded. The producer is
    /// only called where the cache does not know the archive, so only then
    /// does it have to be callable; its error is handed on.
    pub fn upsert_blob<F: FnOnce() -> Result<Vec<u8>, Error>>(
        &mut self,
        locator: &Locator,
        extension: &str,
        producer: F,
    ) -> (r: Result<Blob, Error>)
        requires
            old(self).wf(),
            !old(self).blobs().contains_key((locator@, extension@)) ==> producer.requires(()),
        ensures
            final(self).wf(),
            final(self).root == old(self).root,
            old(self).blobs().contains_key((locator@, extension@)) ==> r is Ok && r->Ok_0@
                == old(self).blobs()[(locator@, extension@)] && final(self).blobs() == old(
                self,
            ).blobs(),
            !old(self).blobs().contains_key((locator@, extension@)) ==> match r {
                Ok(blob) => exists|data: Vec<u8>|
                    producer.ensures((), Ok::<Vec<u8>, Error>(data)) && (
                        final(self).blobs(),
                        blob@,
                    ) == spec_upsert(
                        old(self).root@,
                        old(self).blobs(),
                        (locator@, extension@),
                        data@,
                    ),
                Err(e) => producer.ensures((), Err::<Vec<u8>, Error>(e)) && final(self).blobs()
                    == old(self).blobs(),
            },
    {
        match self.lookup(locator, extension) {
            Some(blob) => Ok(blob),
            None => match producer() {
                Ok(data) => Ok(self.store(locator, extension, data)),
                Err(e) => Err(e),
            },
        }
    }
}

/// The version of the layout of what the manifest cache keeps.
pub const SCHEMA_VERSION: u32 = 1;

/// The directory of the manifest cache inside the cache of the project.
pub const MANIFEST_CACHE_DIR: &'static str = "manifest";

/// What a registry answered for a package: the body, and what it takes to
/// ask again only if something changed.
#[derive(Debug)]
pub struct ManifestCacheEntry {
    pub body: Vec<u8>,
    pub etag: Option<String>,
    pub last_modified: Option<String>,
}

/// What is kept beside the body of an answer.
#[derive(Debug)]
pub struct CacheMeta {
    pub version: u32,
    pub etag: Option<String>,
    pub last_modified: Option<String>,
}

/// Where to write an answer: each file is written under its temporary name
/// first and then moved into place.
#[derive(Debug)]
pub struct WritePlan {
    pub tmp_body: String,
    pub body_path: String,
    pub tmp_meta: String,
    pub meta_path: String,
    pub meta: CacheMeta,
}

/// The cache of what registries answered.
#[derive(Debug)]
pub struct ManifestCache {
    pub root: String,
    pub enable_write: bool,
}

fn copy_text(text: &Option<String>) -> (copy: Option<String>)
    ensures
        crate::patterns::text_view(copy) == crate::patterns::text_view(*text),
{
    match text {
        Some(t) => Some(t.clone()),
        None => None,
    }
}

impl ManifestCache {
    /// The cache below `cache_path`; nothing is written where the cache of
    /// the project must not change.
    pub fn new(cache_path: &str, immutable: bool) -> (cache: ManifestCache)
        ensures
            cache.root@ == cache_path@ + "/"@ + MANIFEST_CACHE_DIR@,
            cache.enable_write == !immutable,
    {
        let mut out = chars_of(cache_path);
        append_str(&mut out, "/");
        append_str(&mut out, MANIFEST_CACHE_DIR);
        assert(out@ =~= cache_path@ + "/"@ + MANIFEST_CACHE_DIR@);
        ManifestCache { root: string_of(&out), enable_write: !immutable }
    }

    /// The key of an answer: the registry followed by the path asked for.
    pub fn cache_key(registry: &str, path: &str) -> (key: String)
        ensures
            key@ == registry@ + path@,
    {
        let mut out = chars_of(registry);
        append_str(&mut out, path);
        string_of(&out)
    }

    pub open spec fn spec_body_path(root: Seq<char>, key: Seq<char>) -> Seq<char> {
        root + "/"@ + spec_hash_key(key) + ".json"@
    }

    pub open spec fn spec_meta_path(root: Seq<char>, key: Seq<char>) -> Seq<char> {
        root + "/"@ + spec_hash_key(key) + ".meta.json"@
    }

    /// Where the body and the metadata of an answer are kept: under the
    /// digest of the key.
    pub fn paths_for_key(&self, key: &str) -> (paths: (String, String))
        ensures
            paths.0@ == Self::spec_body_path(self.root@, key@),
            paths.1@ == Self::spec_meta_path(self.root@, key@),
    {
        let hash = hash_key(key);
        let mut body = chars_of(self.root.as_str());
        append_str(&mut body, "/");
        append_str(&mut body, hash.as_str());
        let mut meta = crate::text::slice(&body, 0, body.len());
        assert(meta@ =~= body@);
        append_str(&mut body, ".json");
        append_str(&mut meta, ".meta.json");
        assert(body@ =~= Self::spec_body_path(self.root@, key@));
        assert(meta@ =~= Self::spec_meta_path(self.root@, key@));
        (string_of(&body), string_of(&meta))
    }

    /// What the cache holds for a key, given what was read of its two
    /// files: nothing where either could not be read, or where the metadata
    /// is of another version of the layout.
    pub fn get(meta: Option<CacheMeta>, body: Option<Vec<u8>>) -> (r: Option<ManifestCacheEntry>)
        ensures
            r is Some == (meta is Some && body is Some && meta->0.version == SCHEMA_VERSION),
            r matches Some(entry) ==> entry.body == body->0 && entry.etag == meta->0.etag
                && entry.last_modified == meta->0.last_modified,
    {
        match (meta, body) {
            (Some(meta), Some(body)) => {
                if meta.version != SCHEMA_VERSION {
                    None
                } else {
                    Some(
                        ManifestCacheEntry {
                            body,
                            etag: meta.etag,
                            last_modified: meta.last_modified,
                        },
                    )
                }
            },
            _ => None,
        }
    }

    fn temp_name(&self, hash: &str, kind: &str) -> (path: String)
        ensures
            exists|n: u64|
                path@ == self.root@ + "/."@ + hash@ + kind@ + ".tmp-"@ + decimal(n as nat),
    {
        let n = random_u64();
        let mut out = chars_of(self.root.as_str());
        append_str(&mut out, "/.");
        append_str(&mut out, hash);
        append_str(&mut out, kind);
        append_str(&mut out, ".tmp-");
        push_number(&mut out, n);
        assert(out@ =~= self.root@ + "/."@ + hash@ + kind@ + ".tmp-"@ + decimal(n as nat));
        string_of(&out)
    }

    /// How to keep an answer: nothing to do where the cache must not
    /// change; else the two files, each with a temporary name drawn at
    /// random, and the metadata to write.
    pub fn put(&self, key: &str, entry: &ManifestCacheEntry) -> (plan: Option<WritePlan>)
        ensures
            plan is Some == self.enable_write,
            plan matches Some(p) ==> {
                &&& p.body_path@ == Self::spec_body_path(self.root@, key@)
                &&& p.meta_path@ == Self::spec_meta_path(self.root@, key@)
                &&& p.meta.version == SCHEMA_VERSION
                &&& crate::patterns::text_view(p.meta.etag) == crate::patterns::text_view(
                    entry.etag,
                )
                &&& crate::patterns::text_view(p.meta.last_modified) == crate::patterns::text_view(
                    entry.last_modified,
                )
                &&& exists|n: u64|
                    p.tmp_body@ == self.root@ + "/."@ + spec_hash_key(key@) + ".body"@ + ".tmp-"@
                        + decimal(n as nat)
                &&& exists|n: u64|
                    p.tmp_meta@ == self.root@ + "/."@ + spec_hash_key(key@) + ".meta"@ + ".tmp-"@
                        + decimal(n as nat)
            },
    {
        if !self.enable_write {
            return None;
        }
        let paths = self.paths_for_key(key);
        let hash = hash_key(key);
        let tmp_body = self.temp_name(hash.as_str(), ".body");
        let tmp_meta = self.temp_name(hash.as_str(), ".meta");
        Some(
            WritePlan {
                tmp_body,
                body_path: paths.0,
                tmp_meta,
                meta_path: paths.1,
                meta: CacheMeta {
                    version: SCHEMA_VERSION,
                    etag: copy_text(&entry.etag),
                    last_modified: copy_text(&entry.last_modified),
                },
            },
        )
    }
}

} // verus!
