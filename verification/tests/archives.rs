use std::io::Write;
use zpm::archive::{
    craft_zip, entry_named, prefix_entries, prepare_entries, strip_first_segment, Entry,
};
use zpm::cache::{BlobStep, CacheMeta, CompositeCache, ManifestCache, ManifestCacheEntry, SCHEMA_VERSION};
use zpm::encoding::{checksum_of, hash_key};
use zpm::error::{Error, ErrorKind};
use zpm::fetcher::{
    convert_folder_to_zip, convert_tar_gz_to_zip, PackageData, PackageLinking, TextSource,
};
use zpm::primitives::{Ident, Locator, Reference};
use zpm::semver::Version;
use zpm::tar::{entries_from_tar, tar_files};

fn entry(name: &str, data: &[u8]) -> Entry {
    Entry { name: name.to_string(), data: data.to_vec() }
}

fn names(entries: &[Entry]) -> Vec<&str> {
    entries.iter().map(|e| e.name.as_str()).collect()
}

fn tar_header(name: &str, size: usize, kind: u8) -> Vec<u8> {
    let mut block = vec![0u8; 512];
    block[..name.len()].copy_from_slice(name.as_bytes());
    let octal = format!("{:011o}", size);
    block[124..135].copy_from_slice(octal.as_bytes());
    block[156] = kind;
    block[257..262].copy_from_slice(b"ustar");
    block
}

fn tar_of(files: &[(&str, &[u8], u8)]) -> Vec<u8> {
    let mut out = vec![];
    for (name, data, kind) in files {
        out.extend(tar_header(name, data.len(), *kind));
        out.extend_from_slice(data);
        let padding = (512 - data.len() % 512) % 512;
        out.extend(vec![0u8; padding]);
    }
    out.extend(vec![0u8; 1024]);
    out
}

fn gzip(data: &[u8]) -> Vec<u8> {
    let mut encoder = flate2::write::GzEncoder::new(Vec::new(), flate2::Compression::default());
    encoder.write_all(data).expect("written");
    encoder.finish().expect("finished")
}

#[test]
fn tar_is_read() {
    let big = vec![7u8; 1000];
    let tar = tar_of(&[
        ("package/", b"", b'5'),
        ("package/package.json", b"{\"name\":\"pkg\"}", b'0'),
        ("package/lib/index.js", &big, 0),
    ]);
    let entries = match entries_from_tar(&tar) {
        Ok(entries) => entries,
        Err(e) => panic!("unexpected {:?}", e),
    };
    assert_eq!(names(&entries), vec!["package/package.json", "package/lib/index.js"]);
    assert_eq!(entries[0].data, b"{\"name\":\"pkg\"}");
    assert_eq!(entries[1].data, big);
    // no files in an empty archive, nor in no archive at all
    assert_eq!(tar_files(&vec![0u8; 1024]).map(|f| f.len()), Some(0));
    assert_eq!(tar_files(&vec![]).map(|f| f.len()), Some(0));
}

#[test]
fn tar_with_prefix_field() {
    let mut tar = tar_header("index.js", 2, b'0');
    tar[345..352].copy_from_slice(b"package");
    tar.extend_from_slice(b"hi");
    tar.extend(vec![0u8; 510 + 1024]);
    let entries = entries_from_tar(&tar).expect("read");
    assert_eq!(names(&entries), vec!["package/index.js"]);
    assert_eq!(entries[0].data, b"hi");
}

#[test]
fn broken_tar_is_refused() {
    // content cut short
    let mut tar = tar_header("a", 100, b'0');
    tar.extend(vec![1u8; 50]);
    assert!(tar_files(&tar).is_none());
    assert!(matches!(entries_from_tar(&tar), Err(e) if e.kind == ErrorKind::IoError));
    // a size that is no number
    let mut tar = tar_header("a", 0, b'0');
    tar[124] = b'x';
    tar.extend(vec![0u8; 1024]);
    assert!(tar_files(&tar).is_none());
    // a name that is not UTF-8
    let mut tar = tar_header("a", 0, b'0');
    tar[0] = 0xff;
    tar.extend(vec![0u8; 1024]);
    assert!(tar_files(&tar).is_some());
    assert!(entries_from_tar(&tar).is_err());
}

#[test]
fn entries_are_brought_into_form() {
    let stripped = strip_first_segment(vec![
        entry("package/package.json", b"{}"),
        entry("toplevel", b"x"),
        entry("package/lib/a.js", b"a"),
    ]);
    assert_eq!(names(&stripped), vec!["package.json", "lib/a.js"]);
    assert_eq!(stripped[1].data, b"a");
    assert_eq!(entry_named(&stripped, "package.json"), Some(0));
    assert_eq!(entry_named(&stripped, "lib/a.js"), Some(1));
    assert_eq!(entry_named(&stripped, "missing"), None);
    let prefixed = prefix_entries(stripped, "node_modules/@scope/pkg");
    assert_eq!(
        names(&prefixed),
        vec!["node_modules/@scope/pkg/package.json", "node_modules/@scope/pkg/lib/a.js"]
    );
    let prepared = prepare_entries(
        &Ident::new("pkg"),
        vec![entry("package/package.json", b"{}"), entry("package/x", b"x")],
    )
    .expect("prepared");
    assert_eq!(names(&prepared), vec!["node_modules/pkg/package.json", "node_modules/pkg/x"]);
    match prepare_entries(&Ident::new("pkg"), vec![entry("package/readme", b"")]) {
        Err(e) => {
            assert_eq!(e.kind, ErrorKind::MissingPackageManifest);
            assert_eq!(e.detail, "pkg");
        }
        Ok(_) => panic!("a package needs a manifest"),
    }
}

#[test]
fn tarball_becomes_stored_archive() {
    let tar = tar_of(&[
        ("package/package.json", b"{\"name\":\"pkg\",\"version\":\"1.0.0\"}", b'0'),
        ("package/index.js", b"module.exports = 1;\n", b'0'),
    ]);
    let zipped = convert_tar_gz_to_zip(&Ident::new("pkg"), &gzip(&tar)).expect("converted");
    // converting is a function of the bytes
    let again = convert_tar_gz_to_zip(&Ident::new("pkg"), &gzip(&tar)).expect("converted");
    assert_eq!(zipped, again);
    let data = PackageData::Zip {
        path: "/cache/x.zip".to_string(),
        checksum: checksum_of(&zipped),
        data: zipped,
    };
    match data.read_text("node_modules/pkg/package.json") {
        Ok(TextSource::Text(text)) => assert_eq!(text, "{\"name\":\"pkg\",\"version\":\"1.0.0\"}"),
        other => panic!("unexpected {:?}", other),
    }
    match data.read_text("node_modules/pkg/index.js") {
        Ok(TextSource::Text(text)) => assert_eq!(text, "module.exports = 1;\n"),
        other => panic!("unexpected {:?}", other),
    }
    match data.read_text("node_modules/pkg/missing.js") {
        Err(e) => {
            assert_eq!(e.kind, ErrorKind::IoError);
            assert_eq!(e.detail, "node_modules/pkg/missing.js");
        }
        other => panic!("unexpected {:?}", other),
    }
    // what is no gzip stream is refused, and so is a package without manifest
    assert!(matches!(
        convert_tar_gz_to_zip(&Ident::new("pkg"), &b"not gzip".to_vec()),
        Err(e) if e.kind == ErrorKind::IoError
    ));
    let bare = tar_of(&[("package/index.js", b"x", b'0')]);
    assert!(matches!(
        convert_tar_gz_to_zip(&Ident::new("pkg"), &gzip(&bare)),
        Err(e) if e.kind == ErrorKind::MissingPackageManifest
    ));
}

#[test]
fn folder_becomes_stored_archive() {
    let zipped = convert_folder_to_zip(
        &Ident::new("@s/p"),
        vec![entry("package.json", b"{}"), entry("a/b.txt", b"hello")],
    )
    .expect("converted");
    let data =
        PackageData::Zip { path: "/c".to_string(), checksum: String::new(), data: zipped.clone() };
    assert!(matches!(
        data.read_text("node_modules/@s/p/a/b.txt"),
        Ok(TextSource::Text(t)) if t == "hello"
    ));
    assert!(matches!(
        convert_folder_to_zip(&Ident::new("p"), vec![entry("a", b"")]),
        Err(e) if e.kind == ErrorKind::MissingPackageManifest && e.detail == "p"
    ));
    assert_eq!(craft_zip(&vec![entry("package.json", b"{}"), entry("a/b.txt", b"hello")]).ok().map(|z| z.len() > 0), Some(true));
    // text that is not UTF-8 is no text
    let binary = craft_zip(&vec![entry("bin", &[0xff, 0xfe])]).expect("packed");
    let data = PackageData::Zip { path: "/c".to_string(), checksum: String::new(), data: binary };
    assert!(matches!(data.read_text("bin"), Err(e) if e.kind == ErrorKind::IoError));
    // what is no archive has no entries
    let data = PackageData::Zip {
        path: "/c".to_string(),
        checksum: String::new(),
        data: b"nothing".to_vec(),
    };
    assert!(data.read_text("a").is_err());
}

#[test]
fn package_data_getters() {
    let locator = Locator::new(
        Ident::new("@scope/pkg"),
        Reference::Semver(Version { major: 1, minor: 0, patch: 0 }),
    );
    let local = PackageData::Local { path: "/p/x".to_string(), discard_from_lookup: true };
    assert_eq!(local.path(), "/p/x");
    assert_eq!(local.source_dir(&locator), ".");
    assert_eq!(local.context_directory(&locator), "/p/x");
    assert!(local.checksum().is_none());
    assert_eq!(local.link_type(), PackageLinking::Soft);
    assert!(matches!(local.read_text("package.json"), Ok(TextSource::File(f)) if f == "/p/x/package.json"));
    let zip = PackageData::Zip {
        path: "/cache/k.zip".to_string(),
        data: vec![1, 2, 3],
        checksum: "abc".to_string(),
    };
    assert_eq!(zip.path(), "/cache/k.zip");
    assert_eq!(zip.source_dir(&locator), "node_modules/@scope/pkg");
    assert_eq!(zip.context_directory(&locator), "/cache/k.zip/node_modules/@scope/pkg");
    assert_eq!(zip.checksum().as_deref(), Some("abc"));
    assert_eq!(zip.link_type(), PackageLinking::Hard);
    assert_eq!(PackageLinking::Hard.to_file_string(), "hard");
    assert_eq!(PackageLinking::Soft.to_file_string(), "soft");
}

#[test]
fn digests() {
    // SHA-256 of the empty text and of "abc"
    assert_eq!(
        hash_key(""),
        "e3b0c44298fc1c149afbf4c8996fb92427ae41e4649b934ca495991b7852b855"
    );
    assert_eq!(
        hash_key("abc"),
        "ba7816bf8f01cfea414140de5dae2223b00361a396177a9cb410ff61f20015ad"
    );
    assert_eq!(checksum_of(&b"abc".to_vec()), hash_key("abc"));
    assert_ne!(checksum_of(&b"abd".to_vec()), hash_key("abc"));
}

fn pkg(version: u64) -> Locator {
    Locator::new(Ident::new("pkg"), Reference::Semver(Version { major: version, minor: 0, patch: 0 }))
}

#[test]
fn blob_is_produced_once() {
    let mut cache = CompositeCache::new("/cache");
    let mut calls = 0;
    let first = cache
        .upsert_blob(&pkg(1), ".zip", || {
            calls += 1;
            Ok(b"first".to_vec())
        })
        .expect("produced");
    let second = cache
        .upsert_blob(&pkg(1), ".zip", || {
            calls += 1;
            Ok(b"second".to_vec())
        })
        .expect("known");
    assert_eq!(calls, 1);
    assert_eq!(first.checksum, second.checksum);
    assert_eq!(first.data, second.data);
    assert_eq!(first.path, second.path);
    assert_eq!(first.data, b"first");
    assert_eq!(first.checksum, checksum_of(&b"first".to_vec()));
    assert_eq!(first.path, format!("/cache/{}.zip", hash_key("pkg@npm:1.0.0")));
    assert_eq!(first.path, cache.blob_path(&pkg(1), ".zip"));
    // another extension and another package are other archives
    let other = cache.upsert_blob(&pkg(1), ".tgz", || Ok(b"third".to_vec())).expect("produced");
    assert_ne!(other.path, first.path);
    assert_eq!(other.data, b"third");
    let other = cache.upsert_blob(&pkg(2), ".zip", || Ok(b"fourth".to_vec())).expect("produced");
    assert_ne!(other.path, first.path);
    // a producer that fails leaves nothing behind
    let failed = cache.upsert_blob(&pkg(3), ".zip", || Err(Error::bare(ErrorKind::IoError)));
    assert!(matches!(failed, Err(e) if e.kind == ErrorKind::IoError));
    assert!(cache.lookup(&pkg(3), ".zip").is_none());
    assert!(cache.lookup(&pkg(1), ".zip").is_some());
    // storing what is known changes nothing
    let kept = cache.store(&pkg(1), ".zip", b"late".to_vec());
    assert_eq!(kept.data, b"first");
    // a temporary name lies next to the archive
    let temp = cache.temp_path(&pkg(1), ".zip");
    let prefix = format!("{}.tmp-", first.path);
    assert!(temp.starts_with(&prefix));
    assert!(temp[prefix.len()..].parse::<u64>().is_ok());
    assert!(matches!(PackageData::from_blob(first), PackageData::Zip { .. }));
}

#[test]
fn manifest_cache_decides() {
    let cache = ManifestCache::new("/project/.yarn/cache", false);
    assert_eq!(cache.root, "/project/.yarn/cache/manifest");
    assert!(cache.enable_write);
    assert_eq!(
        ManifestCache::cache_key("https://registry.npmjs.org", "/lodash"),
        "https://registry.npmjs.org/lodash"
    );
    let (body, meta) = cache.paths_for_key("k");
    let hash = hash_key("k");
    assert_eq!(body, format!("/project/.yarn/cache/manifest/{}.json", hash));
    assert_eq!(meta, format!("/project/.yarn/cache/manifest/{}.meta.json", hash));

    let meta = |version| CacheMeta { version, etag: Some("e".to_string()), last_modified: None };
    let hit = ManifestCache::get(Some(meta(SCHEMA_VERSION)), Some(b"body".to_vec())).expect("hit");
    assert_eq!(hit.body, b"body");
    assert_eq!(hit.etag.as_deref(), Some("e"));
    assert!(hit.last_modified.is_none());
    // another version of the layout, or a file that could not be read, is a miss
    assert!(ManifestCache::get(Some(meta(SCHEMA_VERSION + 1)), Some(vec![])).is_none());
    assert!(ManifestCache::get(None, Some(vec![])).is_none());
    assert!(ManifestCache::get(Some(meta(SCHEMA_VERSION)), None).is_none());

    let entry = ManifestCacheEntry {
        body: b"b".to_vec(),
        etag: None,
        last_modified: Some("yesterday".to_string()),
    };
    let plan = cache.put("k", &entry).expect("a plan");
    assert_eq!(plan.body_path, body);
    assert_eq!(plan.meta_path, format!("/project/.yarn/cache/manifest/{}.meta.json", hash));
    assert_eq!(plan.meta.version, 1);
    assert_eq!(plan.meta.last_modified.as_deref(), Some("yesterday"));
    let prefix = format!("/project/.yarn/cache/manifest/.{}.body.tmp-", hash);
    assert!(plan.tmp_body.starts_with(&prefix));
    assert!(plan.tmp_body[prefix.len()..].parse::<u64>().is_ok());
    let prefix = format!("/project/.yarn/cache/manifest/.{}.meta.tmp-", hash);
    assert!(plan.tmp_meta.starts_with(&prefix));
    // a cache that must not change keeps nothing
    let frozen = ManifestCache::new("/c", true);
    assert!(!frozen.enable_write);
    assert!(frozen.put("k", &entry).is_none());
}

fn manifest_of(text: String) -> Result<zpm::resolution::RemoteManifest, Error> {
    // a parser for what the tests write: the version stands behind `"version":"`
    let marker = "\"version\":\"";
    let start = text.find(marker).ok_or(Error::new(ErrorKind::SerializationError, "version"))? + marker.len();
    let end = text[start..].find('"').ok_or(Error::new(ErrorKind::SerializationError, "version"))? + start;
    let version = Version::from_file_string(&text[start..end])
        .ok_or(Error::new(ErrorKind::SerializationError, "version"))?;
    Ok(zpm::resolution::RemoteManifest::empty(version))
}

fn parent_of_archives() -> (Option<Locator>, Option<PackageData>) {
    let parent = Locator::new(Ident::new("root"), Reference::Workspace(Ident::new("root")));
    let data = PackageData::Local { path: "/project".into(), discard_from_lookup: false };
    (Some(parent), Some(data))
}

#[test]
fn tarball_is_fetched_through_the_cache_with_its_manifest() {
    let archive = gzip(&tar_of(&[
        ("package/package.json", b"{\"name\":\"pkg\",\"version\":\"1.4.0\"}", b'0'),
        ("package/index.js", b"module.exports = 1;\n", b'0'),
    ]));
    let (parent, parent_data) = parent_of_archives();
    let locator = Locator::new_bound(
        Ident::new("pkg"),
        Reference::Tarball("./vendor/pkg.tgz".into()),
        parent.as_ref().map(|p| zpm::keyed::Duplicate::duplicate(p)),
    );
    let mut cache = CompositeCache::new("/cache");
    let asked = std::cell::RefCell::new(Vec::<String>::new());

    let (resolution, data) = zpm::fetcher::fetch_tarball_with_manifest(
        &mut cache,
        &locator,
        "./vendor/pkg.tgz",
        &parent,
        parent_of_archives().1,
        |file| {
            asked.borrow_mut().push(file);
            Ok(archive.clone())
        },
        manifest_of,
    )
    .expect("fetched");
    assert_eq!(*asked.borrow(), vec!["/project/vendor/pkg.tgz".to_string()]);
    assert_eq!(resolution.version, Version { major: 1, minor: 4, patch: 0 });
    assert_eq!(resolution.locator.ident.as_str(), "pkg");
    assert!(resolution.dependencies.len() == 0);
    let first_checksum = data.checksum().expect("an archive");
    match &data {
        PackageData::Zip { path, data, checksum } => {
            assert_eq!(*path, cache.blob_path(&locator, ".zip"));
            assert_eq!(*checksum, checksum_of(data));
        }
        other => panic!("unexpected {:?}", other),
    }
    assert!(cache.lookup(&locator, ".zip").is_some());

    // the second time the file is not read again
    let (again, data) = zpm::fetcher::fetch_tarball_with_manifest(
        &mut cache,
        &locator,
        "./vendor/pkg.tgz",
        &parent,
        parent_data,
        |_| panic!("the archive is known"),
        manifest_of,
    )
    .expect("fetched");
    assert_eq!(again.version, Version { major: 1, minor: 4, patch: 0 });
    assert_eq!(data.checksum(), Some(first_checksum));
}

#[test]
fn tarball_that_cannot_be_had_leaves_the_cache_alone() {
    let (parent, _) = parent_of_archives();
    let locator = Locator::new_bound(Ident::new("pkg"), Reference::Tarball("./pkg.tgz".into()), None);
    let mut cache = CompositeCache::new("/cache");
    let r = zpm::fetcher::fetch_tarball_with_manifest(
        &mut cache,
        &locator,
        "./pkg.tgz",
        &parent,
        parent_of_archives().1,
        |file| Err(Error::new(ErrorKind::IoError, &file)),
        manifest_of,
    );
    assert!(matches!(r, Err(e) if e.kind == ErrorKind::IoError && e.detail == "/project/pkg.tgz"));
    assert!(cache.lookup(&locator, ".zip").is_none());

    // bytes that are no archive
    let r = zpm::fetcher::fetch_tarball_with_manifest(
        &mut cache,
        &locator,
        "./pkg.tgz",
        &parent,
        parent_of_archives().1,
        |_| Ok(vec![1, 2, 3]),
        manifest_of,
    );
    assert!(matches!(r, Err(e) if e.kind == ErrorKind::IoError));
    assert!(cache.lookup(&locator, ".zip").is_none());

    // a manifest that cannot be read: the archive is kept, the error handed on
    let archive = gzip(&tar_of(&[("package/package.json", b"{}", b'0')]));
    let r = zpm::fetcher::fetch_tarball_with_manifest(
        &mut cache,
        &locator,
        "./pkg.tgz",
        &parent,
        parent_of_archives().1,
        |_| Ok(archive.clone()),
        manifest_of,
    );
    assert!(matches!(r, Err(e) if e.kind == ErrorKind::SerializationError));
    assert!(cache.lookup(&locator, ".zip").is_some());
}

#[test]
fn folder_is_fetched_through_the_cache_with_its_manifest() {
    let (parent, parent_data) = parent_of_archives();
    let locator = Locator::new_bound(Ident::new("@s/lib"), Reference::Folder("../lib".into()), None);
    let mut cache = CompositeCache::new("/cache");
    let asked = std::cell::RefCell::new(Vec::<String>::new());
    let (resolution, data) = zpm::fetcher::fetch_folder_with_manifest(
        &mut cache,
        &locator,
        "../lib",
        &parent,
        parent_data,
        |directory| {
            asked.borrow_mut().push(directory);
            Ok(vec![
                entry("index.js", b"1"),
                entry("package.json", b"{\"name\":\"@s/lib\",\"version\":\"0.3.0\"}"),
            ])
        },
        manifest_of,
    )
    .expect("fetched");
    assert_eq!(*asked.borrow(), vec!["/lib".to_string()]);
    assert_eq!(resolution.version, Version { major: 0, minor: 3, patch: 0 });
    match data.read_text("node_modules/@s/lib/index.js") {
        Ok(zpm::fetcher::TextSource::Text(text)) => assert_eq!(text, "1"),
        other => panic!("unexpected {:?}", other),
    }

    // a directory without a manifest is refused, and nothing is recorded
    let other = Locator::new_bound(Ident::new("bare"), Reference::Folder("../bare".into()), None);
    let r = zpm::fetcher::fetch_folder_with_manifest(
        &mut cache,
        &other,
        "../bare",
        &parent,
        parent_of_archives().1,
        |_| Ok(vec![entry("index.js", b"1")]),
        manifest_of,
    );
    assert!(matches!(r, Err(e) if e.kind == ErrorKind::MissingPackageManifest && e.detail == "bare"));
    assert!(cache.lookup(&other, ".zip").is_none());
}

#[test]
fn the_cache_says_what_is_to_be_done() {
    let mut cache = CompositeCache::new("/cache");
    let locator = pkg(1);
    match cache.plan(&locator, ".zip") {
        BlobStep::Wanted { path } => assert_eq!(path, cache.blob_path(&locator, ".zip")),
        other => panic!("unexpected {:?}", other),
    }
    let stored = cache.store(&locator, ".zip", vec![1, 2, 3]);
    match cache.plan(&locator, ".zip") {
        BlobStep::Known(blob) => {
            assert_eq!(blob.data, vec![1, 2, 3]);
            assert_eq!(blob.checksum, stored.checksum);
            assert_eq!(blob.path, stored.path);
        }
        other => panic!("unexpected {:?}", other),
    }
    // another extension, another archive
    assert!(matches!(cache.plan(&locator, ".tgz"), BlobStep::Wanted { .. }));
    assert!(matches!(cache.plan(&pkg(2), ".zip"), BlobStep::Wanted { .. }));
}

#[test]
fn temporary_path_bears_its_number() {
    let cache = CompositeCache::new("/cache");
    let locator = pkg(1);
    let target = cache.blob_path(&locator, ".zip");
    assert_eq!(cache.temp_path_numbered(&locator, ".zip", 0), format!("{}.tmp-0", target));
    assert_eq!(
        cache.temp_path_numbered(&locator, ".zip", u64::MAX),
        format!("{}.tmp-18446744073709551615", target)
    );
    let drawn = cache.temp_path(&locator, ".zip");
    let number = drawn.strip_prefix(&format!("{}.tmp-", target)).expect("next to the archive");
    assert!(number.parse::<u64>().is_ok());
}

#[test]
fn entry_is_read_as_text() {
    match zpm::fetcher::text_of_entry("package.json", Some("{\"é\":1}".as_bytes().to_vec())) {
        Ok(TextSource::Text(text)) => assert_eq!(text, "{\"é\":1}"),
        other => panic!("unexpected {:?}", other),
    }
    assert!(matches!(
        zpm::fetcher::text_of_entry("a.bin", Some(vec![0xff, 0xfe])),
        Err(e) if e.kind == ErrorKind::IoError && e.detail == "a.bin"
    ));
    assert!(matches!(
        zpm::fetcher::text_of_entry("missing.txt", None),
        Err(e) if e.kind == ErrorKind::IoError && e.detail == "missing.txt"
    ));
}
