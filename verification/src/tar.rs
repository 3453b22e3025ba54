//! Reading the files out of a tar archive.
//!
//! An archive is a row of blocks of 512 bytes. A file is a header block,
//! which holds its name and its size among other things, and the blocks of
//! its content, the last one padded. Two empty blocks end the archive.
use crate::archive::{text_of_bytes, Entry};
use crate::cache::copy_bytes;
use crate::error::{Error, ErrorKind};
use vstd::prelude::*;

verus! {

pub const BLOCK: usize = 512;

/// The bytes of a field up to, and without, its first zero byte.
pub open spec fn spec_field(data: Seq<u8>, from: int, to: int) -> Seq<u8>
    decreases to - from,
{
    if from >= to || data[from] == 0 {
        Seq::empty()
    } else {
        seq![data[from]] + spec_field(data, from + 1, to)
    }
}

/// The number that a field of octal digits writes; the digits end at the
/// first blank or zero byte, and anything else that is no digit spoils the
/// field.
pub open spec fn spec_octal(data: Seq<u8>, from: int, to: int, acc: nat) -> Option<nat>
    decreases to - from,
{
    if from >= to || data[from] == 0 || data[from] == 32 {
        Some(acc)
    } else if 48 <= data[from] <= 55 {
        spec_octal(data, from + 1, to, acc * 8 + (data[from] - 48) as nat)
    } else {
        None
    }
}

/// Whether the block at `offset` holds zero bytes only.
pub open spec fn spec_is_end(data: Seq<u8>, offset: int) -> bool {
    forall|i: int| offset <= i < offset + 512 ==> #[trigger] data[i] == 0
}

/// The name of the file whose header is at `offset`: the name field, behind
/// the prefix field and a `/` where there is a prefix.
pub open spec fn spec_name(data: Seq<u8>, offset: int) -> Seq<u8> {
    let name = spec_field(data, offset, offset + 100);
    let prefix = spec_field(data, offset + 345, offset + 500);
    if prefix.len() == 0 {
        name
    } else {
        prefix + seq![47u8] + name
    }
}

/// Whether the header at `offset` is that of a plain file.
pub open spec fn spec_is_file(data: Seq<u8>, offset: int) -> bool {
    data[offset + 156] == 48 || data[offset + 156] == 0
}

/// The size of the content rounded up to whole blocks.
pub open spec fn spec_padded(size: nat) -> nat {
    ((size + 511) / 512 * 512) as nat
}

/// The files of the archive from `offset` on, each with the bytes of its
/// name and its content. The archive ends at an empty block, or where no
/// whole block is left. `None` where a size cannot be read or content is
/// cut short.
pub open spec fn spec_tar_files(data: Seq<u8>, offset: int) -> Option<Seq<(Seq<u8>, Seq<u8>)>>
    decreases (if offset <= data.len() {
        data.len() - offset
    } else {
        0
    }),
{
    if offset < 0 || offset + 512 > data.len() || spec_is_end(data, offset) {
        Some(Seq::empty())
    } else {
        match spec_octal(data, offset + 124, offset + 136, 0) {
            None => None,
            Some(size) => if offset + 512 + size > data.len() {
                None
            } else {
                match spec_tar_files(data, offset + 512 + spec_padded(size)) {
                    None => None,
                    Some(rest) => if spec_is_file(data, offset) {
                        Some(
                            seq![
                                (
                                    spec_name(data, offset),
                                    data.subrange(offset + 512, offset + 512 + size),
                                ),
                            ] + rest,
                        )
                    } else {
                        Some(rest)
                    },
                }
            },
        }
    }
}

fn read_field(data: &Vec<u8>, from: usize, to: usize) -> (field: Vec<u8>)
    requires
        from <= to <= data.len(),
    ensures
        field@ == spec_field(data@, from as int, to as int),
{
    let mut field: Vec<u8> = Vec::new();
    let mut i: usize = from;
    while i < to && data[i] != 0
        invariant
            from <= i <= to <= data.len(),
            spec_field(data@, from as int, to as int) == field@ + spec_field(
                data@,
                i as int,
                to as int,
            ),
        decreases to - i,
    {
        let ghost before = field@;
        field.push(data[i]);
        assert(before + (seq![data@[i as int]] + spec_field(data@, i + 1, to as int))
            =~= field@ + spec_field(data@, i + 1, to as int));
        i += 1;
    }
    assert(field@ + Seq::<u8>::empty() =~= field@);
    field
}

proof fn lemma_octal_bound(data: Seq<u8>, from: int, to: int, acc: nat, bound: nat)
    requires
        from <= to,
        acc <= bound,
    ensures
        spec_octal(data, from, to, acc) matches Some(n) ==> n <= octal_limit(
            bound,
            (to - from) as nat,
        ),
    decreases to - from,
{
    if from >= to || data[from] == 0 || data[from] == 32 {
        lemma_octal_limit_grows(bound, (to - from) as nat);
    } else if 48 <= data[from] <= 55 {
        lemma_octal_bound(data, from + 1, to, acc * 8 + (data[from] - 48) as nat, bound * 8 + 7);
    }
}

/// The largest number that `digits` more octal digits can make of one that
/// is at most `bound`.
pub open spec fn octal_limit(bound: nat, digits: nat) -> nat
    decreases digits,
{
    if digits == 0 {
        bound
    } else {
        octal_limit(bound * 8 + 7, (digits - 1) as nat)
    }
}

proof fn lemma_octal_limit_grows(bound: nat, digits: nat)
    ensures
        bound <= octal_limit(bound, digits),
    decreases digits,
{
    if digits > 0 {
        lemma_octal_limit_grows(bound * 8 + 7, (digits - 1) as nat);
    }
}

fn read_octal(data: &Vec<u8>, from: usize, to: usize) -> (r: Option<u64>)
    requires
        from <= to <= data.len(),
        to - from == 12,
    ensures
        match r {
            Some(n) => spec_octal(data@, from as int, to as int, 0) == Some(n as nat),
            None => spec_octal(data@, from as int, to as int, 0) is None,
        },
{
    let mut acc: u64 = 0;
    let mut i: usize = from;
    let ghost mut bound: nat = 0;
    assert(octal_limit(0, 12) == 68719476735) by {
        reveal_with_fuel(octal_limit, 13);
    }
    while i < to && data[i] != 0 && data[i] != 32
        invariant
            from <= i <= to <= data.len(),
            to - from == 12,
            acc <= bound,
            octal_limit(bound, (to - i) as nat) == 68719476735,
            spec_octal(data@, from as int, to as int, 0) == spec_octal(
                data@,
                i as int,
                to as int,
                acc as nat,
            ),
        decreases to - i,
    {
        let b = data[i];
        if b < 48 || b > 55 {
            return None;
        }
        proof {
            lemma_octal_limit_grows(bound * 8 + 7, (to - i - 1) as nat);
        }
        acc = acc * 8 + (b - 48) as u64;
        proof {
            bound = bound * 8 + 7;
        }
        i += 1;
    }
    Some(acc)
}

fn is_end(data: &Vec<u8>, offset: usize) -> (r: bool)
    requires
        offset + 512 <= data.len(),
    ensures
        r == spec_is_end(data@, offset as int),
{
    let mut i: usize = offset;
    while i < offset + 512
        invariant
            offset <= i <= offset + 512 <= data.len(),
            forall|j: int| offset <= j < i ==> #[trigger] data@[j] == 0,
        decreases offset + 512 - i,
    {
        if data[i] != 0 {
            return false;
        }
        i += 1;
    }
    true
}

fn read_name(data: &Vec<u8>, offset: usize) -> (name: Vec<u8>)
    requires
        offset + 512 <= data.len(),
    ensures
        name@ == spec_name(data@, offset as int),
{
    let name = read_field(data, offset, offset + 100);
    let mut full = read_field(data, offset + 345, offset + 500);
    if full.len() == 0 {
        name
    } else {
        let ghost prefix = full@;
        full.push(47);
        let mut i: usize = 0;
        while i < name.len()
            invariant
                i <= name.len(),
                full@ == prefix + seq![47u8] + name@.take(i as int),
            decreases name.len() - i,
        {
            full.push(name[i]);
            assert(name@.take(i + 1) =~= name@.take(i as int).push(name@[i as int]));
            i += 1;
        }
        assert(name@.take(name.len() as int) =~= name@);
        full
    }
}

/// The files of a tar archive, each with the bytes of its name.
pub fn tar_files(data: &Vec<u8>) -> (r: Option<Vec<(Vec<u8>, Vec<u8>)>>)
    ensures
        match r {
            Some(files) => spec_tar_files(data@, 0) == Some(
                files@.map_values(|f: (Vec<u8>, Vec<u8>)| (f.0@, f.1@)),
            ),
            None => spec_tar_files(data@, 0) is None,
        },
{
    let mut files: Vec<(Vec<u8>, Vec<u8>)> = Vec::new();
    let mut offset: usize = 0;
    let ghost raw = |f: (Vec<u8>, Vec<u8>)| (f.0@, f.1@);
    assert(files@.map_values(raw) =~= Seq::empty());
    loop
        invariant
            offset <= data.len(),
            raw == (|f: (Vec<u8>, Vec<u8>)| (f.0@, f.1@)),
            spec_tar_files(data@, 0) == (match spec_tar_files(data@, offset as int) {
                Some(rest) => Some(files@.map_values(raw) + rest),
                None => None,
            }),
        decreases data.len() - offset,
    {
        if data.len() - offset < 512 || is_end(data, offset) {
            assert(files@.map_values(raw) + Seq::empty() =~= files@.map_values(raw));
            return Some(files);
        }
        let size = match read_octal(data, offset + 124, offset + 136) {
            Some(size) => size,
            None => {
                return None;
            },
        };
        let left = data.len() - offset - 512;
        if size > left as u64 {
            return None;
        }
        let size = size as usize;
        let start = offset + 512;
        let ghost here = offset;
        let ghost had = files@.map_values(raw);
        if data[offset + 156] == 48 || data[offset + 156] == 0 {
            let name = read_name(data, offset);
            let mut content: Vec<u8> = Vec::new();
            let mut i: usize = 0;
            while i < size
                invariant
                    i <= size,
                    start + size <= data.len(),
                    content@ == data@.subrange(start as int, start + i),
                decreases size - i,
            {
                content.push(data[start + i]);
                assert(data@.subrange(start as int, start + i + 1) =~= data@.subrange(
                    start as int,
                    start + i,
                ).push(data@[start + i]));
                i += 1;
            }
            files.push((name, content));
            assert(files@.map_values(raw) =~= had.push(
                (spec_name(data@, here as int), data@.subrange(start as int, start + size)),
            ));
        }
        let padded = (size + 511) / 512 * 512;
        assert(padded == spec_padded(size as nat));
        let ghost next = here + 512 + spec_padded(size as nat);
        proof {
            match spec_tar_files(data@, next as int) {
                Some(rest) => {
                    if spec_is_file(data@, here as int) {
                        assert(had + (seq![
                            (
                                spec_name(data@, here as int),
                                data@.subrange(start as int, start + size),
                            ),
                        ] + rest) =~= files@.map_values(raw) + rest);
                    }
                },
                None => {},
            }
        }
        if padded > left {
            // the padding of the last file is cut short: nothing follows
            assert(spec_tar_files(data@, next as int) == Some(
                Seq::<(Seq<u8>, Seq<u8>)>::empty(),
            ));
            assert(files@.map_values(raw) + Seq::empty() =~= files@.map_values(raw));
            return Some(files);
        }
        offset = start + padded;
    }
}

/// The entries are the files, their names read as UTF-8.
pub open spec fn spec_named(
    files: Seq<(Seq<u8>, Seq<u8>)>,
    entries: Seq<(Seq<char>, Seq<u8>)>,
) -> bool {
    &&& entries.len() == files.len()
    &&& forall|i: int|
        0 <= i < entries.len() ==> vstd::utf8::encode_utf8((#[trigger] entries[i]).0)
            == files[i].0 && entries[i].1 == files[i].1
}

/// The files of a tar archive. An archive that cannot be read, and a file
/// whose name is not UTF-8, are refused.
pub fn entries_from_tar(data: &Vec<u8>) -> (r: Result<Vec<Entry>, Error>)
    ensures
        match r {
            Ok(entries) => {
                &&& spec_tar_files(data@, 0) is Some
                &&& spec_named(spec_tar_files(data@, 0)->0, crate::archive::entry_views(entries@))
            },
            Err(e) => {
                &&& e@ == (ErrorKind::IoError, Seq::<char>::empty())
                &&& (spec_tar_files(data@, 0) matches Some(files) ==> exists|i: int|
                    0 <= i < files.len() && !vstd::utf8::valid_utf8((#[trigger] files[i]).0))
            },
        },
{
    let files = match tar_files(data) {
        Some(files) => files,
        None => {
            return Err(Error::bare(ErrorKind::IoError));
        },
    };
    let ghost all = files@.map_values(|f: (Vec<u8>, Vec<u8>)| (f.0@, f.1@));
    let mut entries: Vec<Entry> = Vec::new();
    let mut i: usize = 0;
    while i < files.len()
        invariant
            i <= files.len(),
            all == files@.map_values(|f: (Vec<u8>, Vec<u8>)| (f.0@, f.1@)),
            spec_tar_files(data@, 0) == Some(all),
            entries@.len() == i,
            forall|j: int|
                0 <= j < i ==> vstd::utf8::encode_utf8((#[trigger] entries@[j]).name@) == all[j].0
                    && entries@[j].data@ == all[j].1,
        decreases files.len() - i,
    {
        assert(all[i as int] == (files@[i as int].0@, files@[i as int].1@));
        let name_bytes = copy_bytes(&files[i].0);
        match text_of_bytes(name_bytes) {
            Some(name) => {
                entries.push(Entry { name, data: copy_bytes(&files[i].1) });
            },
            None => {
                proof {
                    let files = spec_tar_files(data@, 0)->0;
                    assert(0 <= i < files.len());
                    assert(!vstd::utf8::valid_utf8(files[i as int].0));
                }
                return Err(Error::bare(ErrorKind::IoError));
            },
        }
        i += 1;
    }
    Ok(entries)
}

} // verus!
