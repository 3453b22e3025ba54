//! Archives: unpacking what `flate2` and `zip` read, and bringing the names
//! of the entries of a package into the form in which they are stored.
use crate::error::{Error, ErrorKind};
use crate::primitives::Ident;
use crate::text::{append_str, chars_of, find, first_index, is_text, slice, string_of};
use vstd::prelude::*;

verus! {

/// The bytes that a gzip stream unpacks to; `None` where the bytes are no
/// such stream.
pub uninterp spec fn gunzipped(data: Seq<u8>) -> Option<Seq<u8>>;

/// The content of the entry of that name in a zip archive; `None` where the
/// bytes are no archive, or the archive has no such entry or cannot unpack
/// it.
pub uninterp spec fn zip_entry_of(data: Seq<u8>, name: Seq<char>) -> Option<Seq<u8>>;

pub open spec fn bytes_view(bytes: Option<Vec<u8>>) -> Option<Seq<u8>> {
    match bytes {
        Some(b) => Some(b@),
        None => None,
    }
}

/// `flate2::read::GzDecoder` read to its end: the bytes are the ones named
/// `gunzipped`, and `None` where reading fails.
#[verifier::external_body]
pub(crate) fn gunzip(data: &Vec<u8>) -> (r: Option<Vec<u8>>)
    ensures
        bytes_view(r) == gunzipped(data@),
{
    let mut unpacked = Vec::new();
    let mut decoder = flate2::read::GzDecoder::new(std::io::Cursor::new(data));
    match std::io::Read::read_to_end(&mut decoder, &mut unpacked) {
        Ok(_) => Some(unpacked),
        Err(_) => None,
    }
}

/// `zip::read::ZipArchive::new` and `by_name`, the entry read to its end:
/// the bytes are the ones named `zip_entry_of`.
#[verifier::external_body]
pub(crate) fn zip_entry(data: &Vec<u8>, name: &str) -> (r: Option<Vec<u8>>)
    ensures
        bytes_view(r) == zip_entry_of(data@, name@),
{
    let mut archive = match zip::read::ZipArchive::new(std::io::Cursor::new(data)) {
        Ok(archive) => archive,
        Err(_) => return None,
    };
    let mut entry = match archive.by_name(name) {
        Ok(entry) => entry,
        Err(_) => return None,
    };
    let mut content = Vec::new();
    match std::io::Read::read_to_end(&mut entry, &mut content) {
        Ok(_) => Some(content),
        Err(_) => None,
    }
}

/// `String::from_utf8`: the text whose UTF-8 form the bytes are, and `None`
/// where they are not UTF-8.
#[verifier::external_body]
pub(crate) fn text_of_bytes(bytes: Vec<u8>) -> (r: Option<String>)
    ensures
        match r {
            Some(text) => vstd::utf8::valid_utf8(bytes@) && vstd::utf8::encode_utf8(text@)
                == bytes@,
            None => !vstd::utf8::valid_utf8(bytes@),
        },
{
    match String::from_utf8(bytes) {
        Ok(text) => Some(text),
        Err(_) => None,
    }
}

/// An archive under construction: a `zip::ZipWriter` that writes into
/// memory.
#[verifier::external_body]
pub struct ArchiveWriter {
    inner: zip::ZipWriter<std::io::Cursor<Vec<u8>>>,
}

/// The entries that were written into an archive under construction.
pub uninterp spec fn written(writer: ArchiveWriter) -> Seq<
    (Seq<char>, Seq<u8>),
>;

/// The bytes of the zip archive that holds these entries, stored without
/// compression and dated at the start of the DOS epoch; `None` where `zip`
/// cannot finish it.
pub uninterp spec fn zip_packed(entries: Seq<(Seq<char>, Seq<u8>)>) -> Option<Seq<u8>>;

/// `zip::ZipWriter::new` on an empty buffer: nothing is written yet.
#[verifier::external_body]
pub(crate) fn zip_start() -> (writer: ArchiveWriter)
    ensures
        written(writer) == Seq::<(Seq<char>, Seq<u8>)>::empty(),
{
    ArchiveWriter { inner: zip::ZipWriter::new(std::io::Cursor::new(Vec::new())) }
}

/// Whether an archive that holds the entries `before` takes one more entry
/// of this name and content: whether `zip` starts the entry and writes all
/// of its bytes. The archive is written into memory, so nothing else has a
/// say.
pub uninterp spec fn zip_takes(
    before: Seq<(Seq<char>, Seq<u8>)>,
    name: Seq<char>,
    data: Seq<u8>,
) -> bool;

/// `zip::ZipWriter::start_file` and `write_all`: whether both succeed is
/// named `zip_takes`; where they do, the entry is written behind those that
/// were.
#[verifier::external_body]
pub(crate) fn zip_add(writer: &mut ArchiveWriter, name: &str, data: &Vec<u8>) -> (added: bool)
    ensures
        added == zip_takes(written(*old(writer)), name@, data@),
        added ==> written(*final(writer)) == written(*old(writer)).push((name@, data@)),
{
    let options = zip::write::SimpleFileOptions::default().compression_method(
        zip::CompressionMethod::Stored,
    ).last_modified_time(zip::DateTime::default());
    match writer.inner.start_file(name, options) {
        Ok(()) => std::io::Write::write_all(&mut writer.inner, data).is_ok(),
        Err(_) => false,
    }
}

/// `zip::ZipWriter::finish`: the bytes of the archive, named `zip_packed`
/// after the entries written.
#[verifier::external_body]
pub(crate) fn zip_finish(writer: ArchiveWriter) -> (r: Option<Vec<u8>>)
    ensures
        bytes_view(r) == zip_packed(written(writer)),
{
    match writer.inner.finish() {
        Ok(cursor) => Some(cursor.into_inner()),
        Err(_) => None,
    }
}

/// A file of an archive.
#[derive(Debug)]
pub struct Entry {
    pub name: String,
    pub data: Vec<u8>,
}

impl View for Entry {
    type V = (Seq<char>, Seq<u8>);

    open spec fn view(&self) -> (Seq<char>, Seq<u8>) {
        (self.name@, self.data@)
    }
}

pub open spec fn entry_views(entries: Seq<Entry>) -> Seq<(Seq<char>, Seq<u8>)> {
    entries.map_values(|e: Entry| e@)
}

/// Without their first segment: `package/lib/a.js` becomes `lib/a.js`, and
/// an entry that lies in no directory is left out.
pub open spec fn spec_strip_first_segment(entries: Seq<(Seq<char>, Seq<u8>)>) -> Seq<
    (Seq<char>, Seq<u8>),
> {
    entries.filter(|e: (Seq<char>, Seq<u8>)| first_index(e.0, '/') is Some).map_values(
        |e: (Seq<char>, Seq<u8>)| (e.0.skip(first_index(e.0, '/')->0 + 1), e.1),
    )
}

pub fn strip_first_segment(entries: Vec<Entry>) -> (stripped: Vec<Entry>)
    ensures
        entry_views(stripped@) == spec_strip_first_segment(entry_views(entries@)),
{
    let ghost all = entry_views(entries@);
    let ghost kept = |e: (Seq<char>, Seq<u8>)| first_index(e.0, '/') is Some;
    let ghost cut = |e: (Seq<char>, Seq<u8>)| (e.0.skip(first_index(e.0, '/')->0 + 1), e.1);
    let mut stripped: Vec<Entry> = Vec::new();
    let mut entries = entries;
    let mut i: usize = 0;
    let n = entries.len();
    proof {
        reveal(Seq::filter);
        assert(all.take(0) =~= Seq::empty());
    }
    assert(entry_views(stripped@) =~= all.take(0).filter(kept).map_values(cut));
    while i < n
        invariant
            i <= n,
            n == entries.len(),
            kept == (|e: (Seq<char>, Seq<u8>)| first_index(e.0, '/') is Some),
            cut == (|e: (Seq<char>, Seq<u8>)| (e.0.skip(first_index(e.0, '/')->0 + 1), e.1)),
            all.len() == n,
            forall|j: int| i <= j < n ==> entries@[j]@ == all[j],
            entry_views(stripped@) == all.take(i as int).filter(kept).map_values(cut),
        decreases n - i,
    {
        proof {
            reveal(Seq::filter);
            let next = all.take(i + 1);
            assert(next.drop_last() =~= all.take(i as int));
            assert(next.last() == all[i as int]);
        }
        let name = chars_of(entries[i].name.as_str());
        match find(&name, '/') {
            Some(slash) => {
                let rest = slice(&name, slash + 1, name.len());
                assert(rest@ =~= name@.skip(slash + 1));
                let ghost before = entry_views(stripped@);
                let ghost was = all.take(i as int).filter(kept);
                let mut data: Vec<u8> = Vec::new();
                let ghost old_entries = entries@;
                std::mem::swap(&mut data, &mut entries[i].data);
                assert(forall|j: int| i < j < n ==> entries@[j] == old_entries[j]);
                stripped.push(Entry { name: string_of(&rest), data });
                assert(entry_views(stripped@) =~= before.push(cut(all[i as int])));
                assert(was.push(all[i as int]).map_values(cut) =~= was.map_values(cut).push(
                    cut(all[i as int]),
                ));
            },
            None => {},
        }
        i += 1;
    }
    assert(all.take(n as int) =~= all);
    stripped
}

/// Every name behind `prefix` and `/`.
pub open spec fn spec_prefix_entries(
    entries: Seq<(Seq<char>, Seq<u8>)>,
    prefix: Seq<char>,
) -> Seq<(Seq<char>, Seq<u8>)> {
    entries.map_values(|e: (Seq<char>, Seq<u8>)| (prefix + "/"@ + e.0, e.1))
}

pub fn prefix_entries(entries: Vec<Entry>, prefix: &str) -> (prefixed: Vec<Entry>)
    ensures
        entry_views(prefixed@) == spec_prefix_entries(entry_views(entries@), prefix@),
{
    let ghost all = entry_views(entries@);
    let mut entries = entries;
    let mut i: usize = 0;
    let n = entries.len();
    while i < n
        invariant
            i <= n,
            n == entries.len(),
            all.len() == n,
            forall|j: int| i <= j < n ==> entries@[j]@ == all[j],
            forall|j: int|
                0 <= j < i ==> entries@[j]@ == (prefix@ + "/"@ + all[j].0, all[j].1),
        decreases n - i,
    {
        let mut name = chars_of(prefix);
        append_str(&mut name, "/");
        append_str(&mut name, entries[i].name.as_str());
        let mut text = string_of(&name);
        let ghost old_entries = entries@;
        std::mem::swap(&mut text, &mut entries[i].name);
        assert(forall|j: int| 0 <= j < n && j != i ==> entries@[j] == old_entries[j]);
        assert(entries@[i as int].data == old_entries[i as int].data);
        i += 1;
    }
    assert(entry_views(entries@) =~= spec_prefix_entries(all, prefix@));
    entries
}

/// The position of the first entry among the first `n` that has this name.
pub open spec fn spec_entry_named(entries: Seq<(Seq<char>, Seq<u8>)>, name: Seq<char>, n: nat) -> Option<
    int,
>
    decreases n,
{
    if n == 0 {
        None
    } else {
        match spec_entry_named(entries, name, (n - 1) as nat) {
            Some(i) => Some(i),
            None => if entries[n - 1].0 == name {
                Some(n - 1)
            } else {
                None
            },
        }
    }
}

proof fn lemma_entry_named_found(entries: Seq<(Seq<char>, Seq<u8>)>, name: Seq<char>, n: nat, m: nat)
    requires
        spec_entry_named(entries, name, n) is Some,
        n <= m,
    ensures
        spec_entry_named(entries, name, m) == spec_entry_named(entries, name, n),
    decreases m - n,
{
    if n < m {
        lemma_entry_named_found(entries, name, n, (m - 1) as nat);
    }
}

/// The first entry of that name.
pub fn entry_named(entries: &Vec<Entry>, name: &str) -> (r: Option<usize>)
    ensures
        match r {
            Some(i) => i < entries.len() && spec_entry_named(
                entry_views(entries@),
                name@,
                entries.len() as nat,
            ) == Some(i as int),
            None => spec_entry_named(entry_views(entries@), name@, entries.len() as nat) is None,
        },
{
    let mut i: usize = 0;
    while i < entries.len()
        invariant
            i <= entries.len(),
            spec_entry_named(entry_views(entries@), name@, i as nat) is None,
        decreases entries.len() - i,
    {
        let here = chars_of(entries[i].name.as_str());
        assert(entry_views(entries@)[i as int].0 == here@);
        if is_text(&here, name) {
            proof {
                lemma_entry_named_found(
                    entry_views(entries@),
                    name@,
                    i as nat + 1,
                    entries.len() as nat,
                );
            }
            return Some(i);
        }
        i += 1;
    }
    None
}

/// The directory inside a stored archive that holds the package.
pub open spec fn spec_archive_root(ident: Seq<char>) -> Seq<char> {
    "node_modules/"@ + ident
}

pub fn archive_root(ident: &Ident) -> (root: String)
    ensures
        root@ == spec_archive_root(ident@),
{
    let mut out = chars_of("node_modules/");
    append_str(&mut out, ident.as_str());
    string_of(&out)
}

/// The entries of an unpacked package as they are stored: without the
/// directory that wraps them, and below `node_modules/<ident>`. A package
/// without `package.json` at its top is refused.
pub open spec fn spec_prepare_entries(
    ident: Seq<char>,
    entries: Seq<(Seq<char>, Seq<u8>)>,
) -> Result<Seq<(Seq<char>, Seq<u8>)>, (ErrorKind, Seq<char>)> {
    let stripped = spec_strip_first_segment(entries);
    if spec_entry_named(stripped, "package.json"@, stripped.len()) is None {
        Err((ErrorKind::MissingPackageManifest, ident))
    } else {
        Ok(spec_prefix_entries(stripped, spec_archive_root(ident)))
    }
}

pub fn prepare_entries(ident: &Ident, entries: Vec<Entry>) -> (r: Result<Vec<Entry>, Error>)
    ensures
        match r {
            Ok(prepared) => spec_prepare_entries(ident@, entry_views(entries@)) == Ok::<
                Seq<(Seq<char>, Seq<u8>)>,
                (ErrorKind, Seq<char>),
            >(entry_views(prepared@)),
            Err(e) => spec_prepare_entries(ident@, entry_views(entries@)) == Err::<
                Seq<(Seq<char>, Seq<u8>)>,
                (ErrorKind, Seq<char>),
            >(e@),
        },
{
    let stripped = strip_first_segment(entries);
    match entry_named(&stripped, "package.json") {
        None => Err(Error::new(ErrorKind::MissingPackageManifest, ident.as_str())),
        Some(_) => {
            let root = archive_root(ident);
            Ok(prefix_entries(stripped, root.as_str()))
        },
    }
}

/// Whether an archive can be made of the entries: each is taken behind
/// those before it, and the archive can be finished.
pub open spec fn spec_zip_makes(entries: Seq<(Seq<char>, Seq<u8>)>) -> bool {
    &&& forall|i: int|
        0 <= i < entries.len() ==> zip_takes(#[trigger] entries.take(i), entries[i].0, entries[i].1)
    &&& zip_packed(entries) is Some
}

/// The archive that holds the entries, in their order. It is made exactly
/// where every entry can be written and the archive can be finished;
/// anything else is an error of reading and writing.
pub fn craft_zip(entries: &Vec<Entry>) -> (r: Result<Vec<u8>, Error>)
    ensures
        r is Ok <==> spec_zip_makes(entry_views(entries@)),
        r matches Ok(bytes) ==> zip_packed(entry_views(entries@)) == Some(bytes@),
        r matches Err(e) ==> e@ == (ErrorKind::IoError, Seq::<char>::empty()),
{
    let mut writer = zip_start();
    let mut i: usize = 0;
    let ghost all = entry_views(entries@);
    assert(all.take(0) =~= Seq::empty());
    while i < entries.len()
        invariant
            i <= entries.len(),
            all == entry_views(entries@),
            written(writer) == all.take(i as int),
            forall|j: int| 0 <= j < i ==> zip_takes(#[trigger] all.take(j), all[j].0, all[j].1),
        decreases entries.len() - i,
    {
        assert(all[i as int] == (entries@[i as int].name@, entries@[i as int].data@));
        if !zip_add(&mut writer, entries[i].name.as_str(), &entries[i].data) {
            assert(!zip_takes(all.take(i as int), all[i as int].0, all[i as int].1));
            return Err(Error::bare(ErrorKind::IoError));
        }
        assert(entry_views(entries@).take(i + 1) =~= entry_views(entries@).take(i as int).push(
            entries@[i as int]@,
        ));
        i += 1;
    }
    assert(entry_views(entries@).take(entries.len() as int) =~= entry_views(entries@));
    match zip_finish(writer) {
        Some(bytes) => Ok(bytes),
        None => Err(Error::bare(ErrorKind::IoError)),
    }
}

} // verus!
