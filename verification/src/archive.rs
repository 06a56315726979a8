//! The decisions behind packing a directory tree into an encrypted archive
//! and unpacking it again: which entries of a directory listing are taken,
//! skipped or descended into; which archive entry names are safe to extract;
//! and the archive itself, built and read in memory through the zip crate.

use vstd::prelude::*;
use vstd::slice::slice_index_get;
use vstd::utf8::valid_utf8;
use std::io::Read;
use std::io::Write;
use crate::error::CoreError;
use crate::global::DirectoryMode;

verus! {

#[verifier::external_type_specification]
#[verifier::external_body]
pub struct ExGlobSet(globset::GlobSet);

#[verifier::external_type_specification]
#[verifier::external_body]
pub struct ExGlobSetBuilder(globset::GlobSetBuilder);

/// The patterns a finished matcher was built from.
pub uninterp spec fn globs_of(set: globset::GlobSet) -> Seq<Seq<char>>;

/// The patterns added to a matcher under construction.
pub uninterp spec fn builder_globs(b: globset::GlobSetBuilder) -> Seq<Seq<char>>;

/// Whether any of the patterns matches the candidate path; a function of the
/// patterns and the candidate alone.
pub uninterp spec fn glob_set_matches(patterns: Seq<Seq<char>>, path: Seq<char>) -> bool;

/// Whether the pattern text parses as a glob; a function of the text alone.
pub uninterp spec fn glob_pattern_ok(pattern: Seq<char>) -> bool;

/// Whether a set of parsed patterns compiles into one matcher; a function of
/// the pattern texts alone.
pub uninterp spec fn glob_set_buildable(patterns: Seq<Seq<char>>) -> bool;

/// Relies on globset::GlobSetBuilder::new: a builder holding no patterns.
#[verifier::external_body]
fn glob_builder_new() -> (r: globset::GlobSetBuilder)
    ensures
        builder_globs(r) == Seq::<Seq<char>>::empty(),
{
    globset::GlobSetBuilder::new()
}

/// Relies on globset::Glob::new and GlobSetBuilder::add: parsing the pattern
/// and appending it. Parsing fails exactly for pattern texts the glob
/// grammar refuses, and then the builder is left as it was.
#[verifier::external_body]
fn glob_builder_add(b: &mut globset::GlobSetBuilder, pattern: &str) -> (r: Result<(), CoreError>)
    ensures
        r is Ok <==> glob_pattern_ok(pattern@),
        r is Ok ==> builder_globs(*final(b)) == builder_globs(*old(b)).push(pattern@),
        r is Err ==> builder_globs(*final(b)) == builder_globs(*old(b)),
        r matches Err(e) ==> e == CoreError::InternalError,
{
    let glob = globset::Glob::new(pattern).map_err(|_| CoreError::InternalError)?;
    b.add(glob);
    Ok(())
}

/// Relies on globset::GlobSetBuilder::build: a matcher for exactly the added
/// patterns. Compilation succeeds or fails as a function of the added
/// pattern texts alone.
#[verifier::external_body]
fn glob_builder_build(b: &globset::GlobSetBuilder) -> (r: Result<globset::GlobSet, CoreError>)
    ensures
        r is Ok <==> glob_set_buildable(builder_globs(*b)),
        r matches Ok(s) ==> globs_of(s) == builder_globs(*b),
        r matches Err(e) ==> e == CoreError::InternalError,
{
    b.build().map_err(|_| CoreError::InternalError)
}

/// Relies on globset::GlobSet::is_match: whether any pattern matches the
/// candidate; deterministic in the patterns and the candidate.
#[verifier::external_body]
fn glob_set_is_match(set: &globset::GlobSet, path: &str) -> (r: bool)
    ensures
        r == glob_set_matches(globs_of(*set), path@),
{
    set.is_match(path)
}

/// Build the exclusion matcher from the caller's patterns. It succeeds
/// exactly when every pattern parses and the set compiles.
pub fn build_exclusion_set(patterns: &Vec<String>) -> (r: Result<globset::GlobSet, CoreError>)
    ensures
        r is Ok <==> (forall|j: int|
            0 <= j < patterns@.len() ==> glob_pattern_ok(#[trigger] patterns@[j]@))
            && glob_set_buildable(patterns@.map_values(|p: String| p@)),
        r matches Ok(s) ==> globs_of(s) == patterns@.map_values(|p: String| p@),
        r matches Err(e) ==> e == CoreError::InternalError,
{
    let mut b = glob_builder_new();
    let n = patterns.len();
    let mut k: usize = 0;
    proof {
        assert(patterns@.take(0int).map_values(|p: String| p@) =~= Seq::<Seq<char>>::empty());
    }
    while k < n
        invariant
            k <= n,
            n == patterns@.len(),
            builder_globs(b) == patterns@.take(k as int).map_values(|p: String| p@),
            forall|j: int| 0 <= j < k ==> glob_pattern_ok(#[trigger] patterns@[j]@),
        decreases n - k,
    {
        let added = glob_builder_add(&mut b, patterns[k].as_str());
        if let Err(e) = added {
            proof {
                assert(!glob_pattern_ok(patterns@[k as int]@));
            }
            return Err(e);
        }
        proof {
            assert(patterns@.take(k as int + 1).map_values(|p: String| p@) =~= patterns@.take(
                k as int,
            ).map_values(|p: String| p@).push(patterns@[k as int]@));
        }
        k = k + 1;
    }
    proof {
        assert(patterns@.take(n as int) =~= patterns@);
    }
    glob_builder_build(&b)
}

/// One item of a directory listing, as the host read it: its path, its bare
/// name, and what the file system says it is.
pub struct DirEntry {
    pub path: String,
    pub file_name: String,
    pub is_dir: bool,
    pub is_symlink: bool,
}

/// What packing does with one directory entry.
#[derive(Clone, Copy, Debug, PartialEq, Eq, Structural)]
pub enum EntryAction {
    /// Left out of the archive: excluded, a symbolic link, or a directory
    /// when not recursing.
    Skip,
    /// A directory to record and walk into.
    Descend,
    /// A file to store.
    TakeFile,
}

/// The packing rule: exclusions are checked against the full path and the
/// bare name; symbolic links are never followed; directories are walked only
/// when recursing; everything else is a file to store.
pub open spec fn spec_classify(excluded: bool, is_dir: bool, is_symlink: bool, recursive: bool) -> EntryAction {
    if excluded {
        EntryAction::Skip
    } else if is_symlink {
        EntryAction::Skip
    } else if is_dir && recursive {
        EntryAction::Descend
    } else if is_dir {
        EntryAction::Skip
    } else {
        EntryAction::TakeFile
    }
}

/// Decide what packing does with one directory entry. An entry that is
/// excluded or a symbolic link is never taken and never descended into.
pub fn classify_entry(e: &DirEntry, mode: DirectoryMode, set: &globset::GlobSet) -> (r: EntryAction)
    ensures
        r == spec_classify(
            glob_set_matches(globs_of(*set), e.path@) || glob_set_matches(
                globs_of(*set),
                e.file_name@,
            ),
            e.is_dir,
            e.is_symlink,
            mode == DirectoryMode::Recursive,
        ),
        (glob_set_matches(globs_of(*set), e.path@) || glob_set_matches(
            globs_of(*set),
            e.file_name@,
        ) || e.is_symlink) ==> r == EntryAction::Skip,
{
    let excluded = glob_set_is_match(set, e.path.as_str()) || glob_set_is_match(
        set,
        e.file_name.as_str(),
    );
    if excluded {
        EntryAction::Skip
    } else if e.is_symlink {
        EntryAction::Skip
    } else if e.is_dir && mode == DirectoryMode::Recursive {
        EntryAction::Descend
    } else if e.is_dir {
        EntryAction::Skip
    } else {
        EntryAction::TakeFile
    }
}

/// An archive entry name has a parent-directory component somewhere.
pub open spec fn spec_has_dotdot(name: Seq<u8>) -> bool {
    exists|i: int|
        0 <= i && i + 2 <= name.len() && #[trigger] name[i] == 46 && name[i + 1] == 46 && (i == 0
            || name[i - 1] == 47) && (i + 2 == name.len() || name[i + 2] == 47)
}

/// An archive entry name that extraction may join onto the output directory:
/// non-empty, relative, slash-separated, and without any parent-directory
/// component.
pub open spec fn spec_safe_entry_name(name: Seq<u8>) -> bool {
    name.len() > 0 && name[0] != 47 && (forall|j: int| 0 <= j < name.len() ==> name[j] != 92)
        && !spec_has_dotdot(name)
}

/// Whether extraction may write this entry name under the output directory.
pub fn is_safe_entry_name(name: &[u8]) -> (r: bool)
    ensures
        r == spec_safe_entry_name(name@),
{
    let n = name.len();
    if n == 0 {
        return false;
    }
    if *slice_index_get(name, 0) == 47 {
        return false;
    }
    let mut i: usize = 0;
    while i < n
        invariant
            i <= n,
            n == name@.len(),
            forall|j: int| 0 <= j < i ==> name@[j] != 92,
            forall|j: int|
                0 <= j < i ==> !(j + 2 <= name@.len() && #[trigger] name@[j] == 46 && name@[j + 1]
                    == 46 && (j == 0 || name@[j - 1] == 47) && (j + 2 == name@.len() || name@[j
                    + 2] == 47)),
        decreases n - i,
    {
        if *slice_index_get(name, i) == 92 {
            return false;
        }
        if n - i >= 2 && *slice_index_get(name, i) == 46 && *slice_index_get(name, i + 1) == 46 {
            let before_ok = i == 0 || *slice_index_get(name, i - 1) == 47;
            let after_ok = n - i == 2 || *slice_index_get(name, i + 2) == 47;
            if before_ok && after_ok {
                proof {
                    let w = i as int;
                    assert(0 <= w && w + 2 <= name@.len() && name@[w] == 46 && name@[w + 1] == 46
                        && (w == 0 || name@[w - 1] == 47) && (w + 2 == name@.len() || name@[w + 2]
                        == 47));
                }
                return false;
            }
        }
        i = i + 1;
    }
    true
}

/// Refuse extraction whole if any entry name would escape the output
/// directory.
pub fn check_entry_safety(entries: &Vec<(Vec<u8>, Option<Vec<u8>>)>) -> (r: Result<(), CoreError>)
    ensures
        r is Ok <==> (forall|j: int|
            0 <= j < entries@.len() ==> spec_safe_entry_name(entries@[j].0@)),
        r matches Err(e) ==> e == CoreError::PathTraversal,
{
    let n = entries.len();
    let mut k: usize = 0;
    while k < n
        invariant
            k <= n,
            n == entries@.len(),
            forall|j: int| 0 <= j < k ==> spec_safe_entry_name(entries@[j].0@),
        decreases n - k,
    {
        if !is_safe_entry_name(entries[k].0.as_slice()) {
            return Err(CoreError::PathTraversal);
        }
        k = k + 1;
    }
    Ok(())
}

/// The compression level the archive accepts: 1 through 9.
pub fn validate_compression_level(level: u32) -> (r: Result<u8, CoreError>)
    ensures
        r is Ok <==> 1 <= level <= 9,
        r matches Ok(l) ==> l == level,
        r matches Err(e) ==> e == CoreError::InternalError,
{
    if 1 <= level && level <= 9 {
        Ok(level as u8)
    } else {
        Err(CoreError::InternalError)
    }
}


/// A compressed archive being written in memory, entry by entry. The zip
/// writer inside is hidden from the verifier; what it holds is named by
/// [`zip_entries`], and every method's contract speaks over that name.
#[verifier::external_body]
pub struct ArchiveWriter {
    inner: zip::ZipWriter<std::io::Cursor<Vec<u8>>>,
    level: u8,
}

/// A compressed archive opened from bytes in memory, read entry by entry.
/// The zip archive inside is hidden from the verifier; what it holds is
/// named by [`reader_entries`].
#[verifier::external_body]
pub struct ArchiveReader {
    inner: zip::ZipArchive<std::io::Cursor<Vec<u8>>>,
}

/// The entries recorded so far in an archive under construction: each a name
/// and, for a file, its bytes; a directory carries no bytes.
pub uninterp spec fn zip_entries(w: ArchiveWriter) -> Seq<(Seq<u8>, Option<Seq<u8>>)>;

/// The entries a finished archive's bytes hold, in order, or nothing when
/// the bytes are not an archive.
pub uninterp spec fn archive_entries_of(data: Seq<u8>) -> Option<Seq<(Seq<u8>, Option<Seq<u8>>)>>;

/// The entries an opened archive reader walks, in order.
pub uninterp spec fn reader_entries(a: ArchiveReader) -> Seq<(Seq<u8>, Option<Seq<u8>>)>;

/// The writer stands between entries with nothing aborted, as a fresh writer
/// does and every successful addition leaves it; finishing such a writer
/// only serializes the recorded entries into the in-memory buffer, which
/// cannot fail.
pub uninterp spec fn writer_ok(w: ArchiveWriter) -> bool;

/// Every entry of an archive's bytes decompresses; a function of the bytes
/// alone.
pub uninterp spec fn archive_decodable(data: Seq<u8>) -> bool;

/// Bytes that parse as an archive whose every entry decompresses: reading
/// them out entry by entry is owed success.
pub open spec fn archive_readable(data: Seq<u8>) -> bool {
    archive_entries_of(data) is Some && archive_decodable(data)
}

/// Whether this opened reader's entries all decompress.
pub uninterp spec fn reader_readable(a: ArchiveReader) -> bool;

/// The name a directory entry is recorded under: the given name, with a
/// slash appended unless it already ends in a path separator.
pub open spec fn spec_dir_entry_name(name: Seq<u8>) -> Seq<u8> {
    if name.len() > 0 && (name[name.len() - 1] == 47 || name[name.len() - 1] == 92) {
        name
    } else {
        name + seq![47u8]
    }
}

/// A file entry name the archive accepts: non-empty and not ending in a
/// path separator, which the format reserves for directory entries.
pub open spec fn spec_file_name_ok(name: Seq<u8>) -> bool {
    name.len() > 0 && name[name.len() - 1] != 47 && name[name.len() - 1] != 92
}

/// The names a packing run records, in order: the directories with their
/// trailing slash, then the files.
pub open spec fn spec_pack_names(dirs: Seq<Vec<u8>>, files: Seq<(Vec<u8>, Vec<u8>)>) -> Seq<Seq<u8>> {
    dirs.map_values(|d: Vec<u8>| spec_dir_entry_name(d@)) + files.map_values(
        |f: (Vec<u8>, Vec<u8>)| f.0@,
    )
}

/// Inputs on which packing is owed success: every name valid UTF-8 and
/// within the format's name-length field, and no two recorded names equal.
pub open spec fn spec_pack_inputs_ok(dirs: Seq<Vec<u8>>, files: Seq<(Vec<u8>, Vec<u8>)>) -> bool {
    &&& (forall|k: int|
        0 <= k < dirs.len() ==> valid_utf8(#[trigger] dirs[k]@) && spec_dir_entry_name(
            dirs[k]@,
        ).len() <= 0xFFFF)
    &&& (forall|k: int|
        0 <= k < files.len() ==> valid_utf8(#[trigger] files[k].0@) && files[k].0@.len() <= 0xFFFF)
    &&& (forall|a: int, b: int|
        #![trigger spec_pack_names(dirs, files)[a], spec_pack_names(dirs, files)[b]]
        0 <= a < b < spec_pack_names(dirs, files).len() ==> spec_pack_names(dirs, files)[a]
            != spec_pack_names(dirs, files)[b])
}

/// The byte view of an optional byte vector.
pub open spec fn opt_bytes(o: Option<Vec<u8>>) -> Option<Seq<u8>> {
    match o {
        Some(v) => Some(v@),
        None => None,
    }
}

impl View for ArchiveWriter {
    type V = Seq<(Seq<u8>, Option<Seq<u8>>)>;

    open spec fn view(&self) -> Seq<(Seq<u8>, Option<Seq<u8>>)> {
        zip_entries(*self)
    }
}

impl ArchiveWriter {
    /// Relies on zip::ZipWriter::new over an in-memory cursor: a writer with
    /// no entries yet, compressing with bzip2 at the given level. The level
    /// must be one the bzip2 encoder accepts, 1 through 9: the zip crate
    /// validates it when the first file entry starts, so a writer built
    /// outside that range could not keep the soundness promised here.
    #[verifier::external_body]
    pub fn new(level: u8) -> (r: ArchiveWriter)
        requires
            1 <= level <= 9,
        ensures
            zip_entries(r) == Seq::<(Seq<u8>, Option<Seq<u8>>)>::empty(),
            writer_ok(r),
    {
        ArchiveWriter {
            inner: zip::ZipWriter::new(std::io::Cursor::new(Vec::new())),
            level,
        }
    }

    /// Relies on zip::ZipWriter::add_directory: it appends a directory entry
    /// under the given name, with a slash appended unless one is already
    /// there. On a sound writer it succeeds whenever the name is valid
    /// UTF-8, fits the format's name-length field, and is not already taken.
    #[verifier::external_body]
    pub fn add_directory(&mut self, name: &[u8]) -> (r: Result<(), CoreError>)
        ensures
            r is Ok ==> zip_entries(*final(self)) == zip_entries(*old(self)).push(
                (spec_dir_entry_name(name@), None),
            ),
            writer_ok(*old(self)) && valid_utf8(name@) && spec_dir_entry_name(name@).len()
                <= 0xFFFF && (forall|j: int|
                0 <= j < zip_entries(*old(self)).len() ==> (#[trigger] zip_entries(
                    *old(self),
                )[j]).0 != spec_dir_entry_name(name@)) ==> r is Ok,
            r is Ok && writer_ok(*old(self)) ==> writer_ok(*final(self)),
            r matches Err(e) ==> e == CoreError::IoError,
    {
        let s = std::str::from_utf8(name).map_err(|_| CoreError::IoError)?;
        let opts = zip::write::SimpleFileOptions::default().compression_method(
            zip::CompressionMethod::Bzip2,
        ).compression_level(Some(self.level as i64)).large_file(true).unix_permissions(0o755);
        self.inner.add_directory(s, opts).map_err(|_| CoreError::IoError)
    }

    /// Relies on zip::ZipWriter::start_file followed by io::Write::write_all:
    /// together they append one file entry holding exactly these bytes. The
    /// name must not end in a path separator — the format would read such an
    /// entry back as a directory. On a sound writer it succeeds whenever the
    /// name is valid UTF-8, fits the format's name-length field, and is not
    /// already taken.
    #[verifier::external_body]
    pub fn add_file(&mut self, name: &[u8], data: &[u8]) -> (r: Result<(), CoreError>)
        requires
            spec_file_name_ok(name@),
        ensures
            r is Ok ==> zip_entries(*final(self)) == zip_entries(*old(self)).push(
                (name@, Some(data@)),
            ),
            writer_ok(*old(self)) && valid_utf8(name@) && name@.len() <= 0xFFFF && (forall|j: int|
                0 <= j < zip_entries(*old(self)).len() ==> (#[trigger] zip_entries(
                    *old(self),
                )[j]).0 != name@) ==> r is Ok,
            r is Ok && writer_ok(*old(self)) ==> writer_ok(*final(self)),
            r matches Err(e) ==> e == CoreError::IoError,
    {
        let s = std::str::from_utf8(name).map_err(|_| CoreError::IoError)?;
        let opts = zip::write::SimpleFileOptions::default().compression_method(
            zip::CompressionMethod::Bzip2,
        ).compression_level(Some(self.level as i64)).large_file(true).unix_permissions(0o755);
        self.inner.start_file(s, opts).map_err(|_| CoreError::IoError)?;
        self.inner.write_all(data).map_err(|_| CoreError::IoError)
    }

    /// Relies on zip::ZipWriter::finish: the bytes of the completed archive,
    /// which read back as exactly the entries written, every one of them
    /// decompressing to its bytes. On a sound writer it cannot fail: it only
    /// serializes the central directory into the in-memory buffer.
    #[verifier::external_body]
    pub fn finish(self) -> (r: Result<Vec<u8>, CoreError>)
        ensures
            writer_ok(self) ==> r is Ok,
            r matches Ok(b) ==> archive_entries_of(b@) == Some(zip_entries(self)),
            r matches Ok(b) ==> archive_decodable(b@),
            r matches Err(e) ==> e == CoreError::IoError,
    {
        let cursor = self.inner.finish().map_err(|_| CoreError::IoError)?;
        Ok(cursor.into_inner())
    }
}

impl View for ArchiveReader {
    type V = Seq<(Seq<u8>, Option<Seq<u8>>)>;

    open spec fn view(&self) -> Seq<(Seq<u8>, Option<Seq<u8>>)> {
        reader_entries(*self)
    }
}

impl ArchiveReader {
    /// Relies on zip::ZipArchive::new over an in-memory cursor: it opens
    /// exactly the archives whose bytes parse, onto their entries.
    #[verifier::external_body]
    pub fn open(data: Vec<u8>) -> (r: Result<ArchiveReader, CoreError>)
        ensures
            r is Ok <==> archive_entries_of(data@) is Some,
            r matches Ok(a) ==> archive_entries_of(data@) == Some(reader_entries(a)),
            r matches Ok(a) ==> (reader_readable(a) <==> archive_decodable(data@)),
            r matches Err(e) ==> e == CoreError::IoError,
    {
        match zip::ZipArchive::new(std::io::Cursor::new(data)) {
            Ok(inner) => Ok(ArchiveReader { inner }),
            Err(_) => Err(CoreError::IoError),
        }
    }

    /// Relies on zip::ZipArchive::len: how many entries the archive holds.
    #[verifier::external_body]
    pub fn len(&self) -> (r: usize)
        ensures
            r == self@.len(),
    {
        self.inner.len()
    }

    /// Relies on zip::ZipArchive::by_index with ZipFile::{name_raw, is_dir}
    /// and io::Read::read_to_end: the entry at this index, its bytes read
    /// whole; a directory entry carries no bytes.
    #[verifier::external_body]
    pub fn entry_at(&mut self, idx: usize) -> (r: Result<(Vec<u8>, Option<Vec<u8>>), CoreError>)
        requires
            idx < old(self)@.len(),
        ensures
            final(self)@ == old(self)@,
            reader_readable(*final(self)) == reader_readable(*old(self)),
            reader_readable(*old(self)) ==> r is Ok,
            r matches Ok(t) ==> old(self)@[idx as int] == (t.0@, opt_bytes(t.1)),
            r matches Err(e) ==> e == CoreError::IoError,
    {
        let mut f = self.inner.by_index(idx).map_err(|_| CoreError::IoError)?;
        let name = f.name_raw().to_vec();
        if f.is_dir() {
            Ok((name, None))
        } else {
            let mut data = Vec::new();
            f.read_to_end(&mut data).map_err(|_| CoreError::IoError)?;
            Ok((name, Some(data)))
        }
    }
}

/// Build the archive for a packing run: every recorded directory, then every
/// taken file with its bytes, compressed at the given level, which must be
/// one the bzip2 encoder accepts. On success the archive's bytes read back
/// as exactly those entries, in order, and every entry decompresses, so
/// unpacking them is owed success in turn. Success here is owed whenever
/// every name is valid UTF-8 of an acceptable length and no two recorded
/// names collide.
pub fn pack_entries(dirs: &Vec<Vec<u8>>, files: &Vec<(Vec<u8>, Vec<u8>)>, level: u8) -> (r: Result<Vec<u8>, CoreError>)
    requires
        1 <= level <= 9,
        forall|k: int| 0 <= k < files@.len() ==> spec_file_name_ok((#[trigger] files@[k]).0@),
    ensures
        spec_pack_inputs_ok(dirs@, files@) ==> r is Ok,
        r matches Ok(b) ==> archive_entries_of(b@) == Some(
            dirs@.map_values(|d: Vec<u8>| (spec_dir_entry_name(d@), Option::<Seq<u8>>::None))
                + files@.map_values(|f: (Vec<u8>, Vec<u8>)| (f.0@, Some(f.1@))),
        ),
        r matches Ok(b) ==> archive_decodable(b@),
        r matches Err(e) ==> e == CoreError::IoError,
{
    let ghost names = spec_pack_names(dirs@, files@);
    let ghost dirs_part = dirs@.map_values(
        |d: Vec<u8>| (spec_dir_entry_name(d@), Option::<Seq<u8>>::None),
    );
    let ghost files_part = files@.map_values(|f: (Vec<u8>, Vec<u8>)| (f.0@, Some(f.1@)));
    let mut w = ArchiveWriter::new(level);
    let nd = dirs.len();
    let mut k: usize = 0;
    proof {
        assert(w@ =~= dirs_part.take(0int));
    }
    while k < nd
        invariant
            k <= nd,
            nd == dirs@.len(),
            names == spec_pack_names(dirs@, files@),
            dirs_part == dirs@.map_values(
                |d: Vec<u8>| (spec_dir_entry_name(d@), Option::<Seq<u8>>::None),
            ),
            w@ == dirs_part.take(k as int),
            writer_ok(w),
        decreases nd - k,
    {
        let ghost w_before = w;
        let added = w.add_directory(dirs[k].as_slice());
        if let Err(e) = added {
            proof {
                if spec_pack_inputs_ok(dirs@, files@) {
                    assert forall|j: int| 0 <= j < zip_entries(w_before).len() implies (
                    #[trigger] zip_entries(w_before)[j]).0 != spec_dir_entry_name(
                        dirs@[k as int]@,
                    ) by {
                        assert(names[j] == spec_dir_entry_name(dirs@[j]@));
                        assert(names[k as int] == spec_dir_entry_name(dirs@[k as int]@));
                    }
                    assert(false);
                }
            }
            return Err(e);
        }
        proof {
            assert(dirs_part.take(k as int + 1) =~= dirs_part.take(k as int).push(
                (spec_dir_entry_name(dirs@[k as int]@), Option::<Seq<u8>>::None),
            ));
        }
        k = k + 1;
    }
    proof {
        assert(dirs_part.take(nd as int) =~= dirs_part);
    }
    let nf = files.len();
    let mut m: usize = 0;
    proof {
        assert(dirs_part + files_part.take(0int) =~= dirs_part);
    }
    while m < nf
        invariant
            m <= nf,
            nd == dirs@.len(),
            nf == files@.len(),
            names == spec_pack_names(dirs@, files@),
            forall|k: int| 0 <= k < files@.len() ==> spec_file_name_ok((#[trigger] files@[k]).0@),
            dirs_part == dirs@.map_values(
                |d: Vec<u8>| (spec_dir_entry_name(d@), Option::<Seq<u8>>::None),
            ),
            files_part == files@.map_values(|f: (Vec<u8>, Vec<u8>)| (f.0@, Some(f.1@))),
            w@ == dirs_part + files_part.take(m as int),
            writer_ok(w),
        decreases nf - m,
    {
        let ghost w_before = w;
        let added = w.add_file(files[m].0.as_slice(), files[m].1.as_slice());
        if let Err(e) = added {
            proof {
                if spec_pack_inputs_ok(dirs@, files@) {
                    assert forall|j: int| 0 <= j < zip_entries(w_before).len() implies (
                    #[trigger] zip_entries(w_before)[j]).0 != files@[m as int].0@ by {
                        if j < nd {
                            assert(names[j] == spec_dir_entry_name(dirs@[j]@));
                        } else {
                            assert(names[j] == files@[j - nd].0@);
                        }
                        assert(names[nd + m as int] == files@[m as int].0@);
                    }
                    assert(false);
                }
            }
            return Err(e);
        }
        proof {
            assert(dirs_part + files_part.take(m as int + 1) =~= (dirs_part + files_part.take(
                m as int,
            )).push((files@[m as int].0@, Some(files@[m as int].1@))));
        }
        m = m + 1;
    }
    proof {
        assert(files_part.take(nf as int) =~= files_part);
    }
    w.finish()
}

/// Read every entry out of an archive's bytes, in order. The names are then
/// held against the traversal rule before anything is extracted. Success is
/// owed whenever the bytes parse as an archive whose entries all
/// decompress.
pub fn unpack_entries(data: Vec<u8>) -> (r: Result<Vec<(Vec<u8>, Option<Vec<u8>>)>, CoreError>)
    ensures
        archive_readable(data@) ==> r is Ok,
        r matches Ok(v) ==> archive_entries_of(data@) == Some(
            v@.map_values(|e: (Vec<u8>, Option<Vec<u8>>)| (e.0@, opt_bytes(e.1))),
        ),
        r matches Err(e) ==> e == CoreError::IoError,
{
    let ghost data0 = data@;
    let opened = ArchiveReader::open(data);
    match opened {
        Err(e) => Err(e),
        Ok(mut a) => {
            let n = a.len();
            let mut out: Vec<(Vec<u8>, Option<Vec<u8>>)> = Vec::new();
            let mut k: usize = 0;
            proof {
                assert(out@.map_values(|e: (Vec<u8>, Option<Vec<u8>>)| (e.0@, opt_bytes(e.1)))
                    =~= a@.take(0int));
            }
            while k < n
                invariant
                    k <= n,
                    n == a@.len(),
                    data0 == data@,
                    archive_entries_of(data0) == Some(a@),
                    reader_readable(a) <==> archive_decodable(data0),
                    out@.map_values(|e: (Vec<u8>, Option<Vec<u8>>)| (e.0@, opt_bytes(e.1)))
                        == a@.take(k as int),
                decreases n - k,
            {
                let got = a.entry_at(k);
                match got {
                    Err(e) => {
                        return Err(e);
                    },
                    Ok(t) => {
                        let ghost out_old = out@;
                        let ghost t0 = (t.0@, opt_bytes(t.1));
                        out.push(t);
                        proof {
                            let f = |e: (Vec<u8>, Option<Vec<u8>>)| (e.0@, opt_bytes(e.1));
                            assert(out@.map_values(f) =~= out_old.map_values(f).push(t0));
                            assert(out_old.map_values(f).push(t0) =~= a@.take(k as int + 1));
                        }
                        k = k + 1;
                    },
                }
            }
            proof {
                assert(a@.take(n as int) =~= a@);
            }
            Ok(out)
        },
    }
}


} // verus!
