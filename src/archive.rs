//! Transcoding an upstream archive into a package: which entries are kept,
//! where they go, and the manifest written beside them.
use vstd::prelude::*;
use crate::project::cat;
use crate::zipfile::{
    archive_bytes, archive_data, archive_names, entry_names, finish_writer, new_writer, open_archive,
    read_entry, start_entry, write_data, written_entries, zip_listing, MemArchive, MemWriter,
    archive_readable, entry_names_of, finish_ok, intact, start_ok, write_ok, zip_readable,
    MAX_ENTRY_NAME_CHARS,
};
use vstd::utf8::encode_utf8;
use zip::result::ZipError;
use crate::text::{chars_of, ends_with_str, has_suffix, string_of};
use vstd::string::{StrSliceExecFns, StringExecFns};

verus! {

/// Entries whose name ends with this are the payload of a package.
pub open spec fn is_payload(name: Seq<char>) -> bool {
    has_suffix(name, ".dll"@)
}

/// Position of the last `/` in `s`, or -1 when there is none.
pub open spec fn last_slash(s: Seq<char>) -> int
    decreases s.len(),
{
    if s.len() == 0 {
        -1
    } else if s.last() == '/' {
        s.len() - 1
    } else {
        last_slash(s.drop_last())
    }
}

/// What follows the last `/` of `s`: the entry's file name without its directories.
pub open spec fn base_name(s: Seq<char>) -> Seq<char> {
    s.subrange(last_slash(s) + 1, s.len() as int)
}

/// Where a payload entry is put in the package.
pub open spec fn payload_path(name: Seq<char>) -> Seq<char> {
    "lib/netstandard2.0/"@ + base_name(name)
}

/// The text that stands for `c` in the manifest.
pub open spec fn escape_char(c: char) -> Seq<char> {
    if c == '&' {
        seq!['&', 'a', 'm', 'p', ';']
    } else if c == '<' {
        seq!['&', 'l', 't', ';']
    } else if c == '>' {
        seq!['&', 'g', 't', ';']
    } else if c == '"' {
        seq!['&', 'q', 'u', 'o', 't', ';']
    } else if c == '\'' {
        seq!['&', 'a', 'p', 'o', 's', ';']
    } else {
        seq![c]
    }
}

/// `s` with every markup character replaced by its entity.
pub open spec fn escape(s: Seq<char>) -> Seq<char>
    decreases s.len(),
{
    if s.len() == 0 {
        Seq::empty()
    } else {
        escape(s.drop_last()) + escape_char(s.last())
    }
}

/// The manifest of a package: its id, version and description, each escaped.
pub open spec fn manifest_text(id: Seq<char>, version: Seq<char>, description: Seq<char>) -> Seq<char> {
    NUSPEC_HEAD@ + escape(id) + NUSPEC_VERSION@ + escape(version) + NUSPEC_DESCRIPTION@ + escape(
        description,
    ) + NUSPEC_TAIL@
}

/// The name of the manifest entry.
pub open spec fn manifest_name(id: Seq<char>) -> Seq<char> {
    id + ".nuspec"@
}

/// The name of the package file kept for one release.
pub open spec fn package_file_name(id: Seq<char>, version: Seq<char>) -> Seq<char> {
    id + "."@ + version + ".nupkg"@
}

/// The name of the file the upstream archive is downloaded into.
pub open spec fn download_file_name(id: Seq<char>, version: Seq<char>) -> Seq<char> {
    id + "."@ + version + ".zip"@
}

pub const NUSPEC_HEAD: &'static str = "<?xml version=\"1.0\" encoding=\"utf-8\"?>\n<package xmlns=\"http://schemas.microsoft.com/packaging/2013/05/nuspec.xsd\">\n  <metadata>\n    <id>";

pub const NUSPEC_VERSION: &'static str = "</id>\n    <version>";

pub const NUSPEC_DESCRIPTION: &'static str = "</version>\n    <authors>Thunderstore</authors>\n    <description>";

pub const NUSPEC_TAIL: &'static str = "</description>\n  </metadata>\n</package>\n";

/// Whether an entry of the upstream archive is payload.
pub fn is_payload_name(name: &str) -> (r: bool)
    ensures
        r == is_payload(name@),
{
    ends_with_str(name, ".dll")
}

/// The position just after the last `/` of `v`.
fn base_start(v: &Vec<char>) -> (r: usize)
    ensures
        r == last_slash(v@) + 1,
        r <= v.len(),
{
    let mut start: usize = 0;
    let mut i: usize = 0;
    while i < v.len()
        invariant
            i <= v.len(),
            start <= i,
            start == last_slash(v@.subrange(0, i as int)) + 1,
        decreases v.len() - i,
    {
        assert(v@.subrange(0, i + 1).drop_last() =~= v@.subrange(0, i as int));
        if v[i] == '/' {
            start = i + 1;
        }
        i = i + 1;
    }
    assert(v@.subrange(0, v.len() as int) =~= v@);
    start
}

/// Where a payload entry is put in the package.
pub fn make_payload_path(name: &str) -> (r: String)
    ensures
        r@ == payload_path(name@),
{
    let v = chars_of(name);
    let start = base_start(&v);
    let mut tail: Vec<char> = Vec::new();
    let mut i: usize = start;
    while i < v.len()
        invariant
            start <= i <= v.len(),
            tail@ == v@.subrange(start as int, i as int),
        decreases v.len() - i,
    {
        tail.push(v[i]);
        i = i + 1;
        assert(tail@ =~= v@.subrange(start as int, i as int));
    }
    let t = string_of(&tail);
    cat("lib/netstandard2.0/", t.as_str())
}

/// Appends the text that stands for `c` in the manifest.
fn push_escaped(out: &mut Vec<char>, c: char)
    ensures
        final(out)@ == old(out)@ + escape_char(c),
{
    let ghost o = out@;
    if c == '&' {
        out.push('&');
        out.push('a');
        out.push('m');
        out.push('p');
        out.push(';');
    } else if c == '<' {
        out.push('&');
        out.push('l');
        out.push('t');
        out.push(';');
    } else if c == '>' {
        out.push('&');
        out.push('g');
        out.push('t');
        out.push(';');
    } else if c == '"' {
        out.push('&');
        out.push('q');
        out.push('u');
        out.push('o');
        out.push('t');
        out.push(';');
    } else if c == '\'' {
        out.push('&');
        out.push('a');
        out.push('p');
        out.push('o');
        out.push('s');
        out.push(';');
    } else {
        out.push(c);
    }
    assert(out@ =~= o + escape_char(c));
}

/// `s` with every markup character replaced by its entity.
pub fn escape_markup(s: &str) -> (r: String)
    ensures
        r@ == escape(s@),
{
    let v = chars_of(s);
    let mut out: Vec<char> = Vec::new();
    let mut i: usize = 0;
    while i < v.len()
        invariant
            i <= v.len(),
            v@ == s@,
            out@ == escape(v@.subrange(0, i as int)),
        decreases v.len() - i,
    {
        push_escaped(&mut out, v[i]);
        i = i + 1;
        assert(v@.subrange(0, i as int).drop_last() =~= v@.subrange(0, i - 1));
    }
    assert(v@.subrange(0, v.len() as int) =~= v@);
    string_of(&out)
}

/// The manifest of a package.
pub fn make_manifest(id: &str, version: &str, description: &str) -> (r: String)
    ensures
        r@ == manifest_text(id@, version@, description@),
{
    let mut s = NUSPEC_HEAD.to_owned();
    s.append(escape_markup(id).as_str());
    s.append(NUSPEC_VERSION);
    s.append(escape_markup(version).as_str());
    s.append(NUSPEC_DESCRIPTION);
    s.append(escape_markup(description).as_str());
    s.append(NUSPEC_TAIL);
    s
}

/// The name of the manifest entry.
pub fn make_manifest_name(id: &str) -> (r: String)
    ensures
        r@ == manifest_name(id@),
{
    cat(id, ".nuspec")
}

/// The name of the package file kept for one release.
pub fn make_package_file_name(id: &str, version: &str) -> (r: String)
    ensures
        r@ == package_file_name(id@, version@),
{
    let mut s = id.to_owned();
    s.append(".");
    s.append(version);
    s.append(".nupkg");
    s
}

/// The name of the file the upstream archive is downloaded into.
pub fn make_download_file_name(id: &str, version: &str) -> (r: String)
    ensures
        r@ == download_file_name(id@, version@),
{
    let mut s = id.to_owned();
    s.append(".");
    s.append(version);
    s.append(".zip");
    s
}

/// A package file kept on disk for one release.
pub struct Nupkg {
    path: String,
}

/// The path of a file named `name` in directory `dir`.
pub open spec fn file_path(dir: Seq<char>, name: Seq<char>) -> Seq<char> {
    dir + "/"@ + name
}

impl Nupkg {
    /// The package file of release `version` of `id`, kept in directory `dir`.
    pub fn in_dir(dir: &str, id: &str, version: &str) -> (r: Nupkg)
        ensures
            r.path()@ == file_path(dir@, package_file_name(id@, version@)),
    {
        let mut path = cat(dir, "/");
        path.append(make_package_file_name(id, version).as_str());
        Nupkg { path }
    }

    /// Where the package file lies.
    pub closed spec fn path(&self) -> String {
        self.path
    }

    /// Where the package file lies.
    pub fn path_str(&self) -> (r: &str)
        ensures
            r@ == self.path()@,
    {
        self.path.as_str()
    }
}

/// The path the upstream archive of a release is downloaded to, in `dir`.
pub fn download_path(dir: &str, id: &str, version: &str) -> (r: String)
    ensures
        r@ == file_path(dir@, download_file_name(id@, version@)),
{
    let mut path = cat(dir, "/");
    path.append(make_download_file_name(id, version).as_str());
    path
}

/// Why an archive could not be transcoded.
pub enum TranscodeError {
    /// The zip crate could not read the upstream archive or write the package.
    Archive(ZipError),
    /// Writing an entry's content failed.
    Write(std::io::Error),
    /// An entry name is longer than a zip header can hold.
    NameTooLong(String),
}

/// The payload entries among `names`, in order.
pub open spec fn payload_names(names: Seq<Seq<char>>) -> Seq<Seq<char>>
    decreases names.len(),
{
    if names.len() == 0 {
        Seq::empty()
    } else if is_payload(names.last()) {
        payload_names(names.drop_last()).push(names.last())
    } else {
        payload_names(names.drop_last())
    }
}

/// The package entry made of payload entry `n` of an archive with contents `data`.
pub open spec fn payload_entry(n: Seq<char>, data: Map<Seq<char>, Seq<u8>>) -> (Seq<char>, Seq<u8>) {
    (payload_path(n), data[n])
}

/// The package entries made of the payload entries among `names`.
pub open spec fn payload_entries(names: Seq<Seq<char>>, data: Map<Seq<char>, Seq<u8>>) -> Seq<(Seq<char>, Seq<u8>)> {
    payload_names(names).map_values(|n: Seq<char>| payload_entry(n, data))
}

/// The manifest entry of a package.
pub open spec fn manifest_entry(id: Seq<char>, version: Seq<char>, description: Seq<char>) -> (Seq<char>, Seq<u8>) {
    (manifest_name(id), encode_utf8(manifest_text(id, version, description)))
}

/// All entries of the package made of an archive: its payload, then the manifest.
pub open spec fn package_entries(
    names: Seq<Seq<char>>,
    data: Map<Seq<char>, Seq<u8>>,
    id: Seq<char>,
    version: Seq<char>,
    description: Seq<char>,
) -> Seq<(Seq<char>, Seq<u8>)> {
    payload_entries(names, data).push(manifest_entry(id, version, description))
}

/// `out` is the package made of archive `a`: the bytes of a finished zip
/// holding exactly the entries that the package is made of.
pub open spec fn transcoded_from(
    a: MemArchive,
    id: Seq<char>,
    version: Seq<char>,
    description: Seq<char>,
    out: Seq<u8>,
) -> bool {
    exists|w: MemWriter|
        written_entries(w) == package_entries(archive_names(a), archive_data(a), id, version, description)
            && out == archive_bytes(w)
}

/// Writing the entries `es` one after another into a new writer succeeds at
/// every step: each entry is started, then its content is written.
pub open spec fn writes_ok(es: Seq<(Seq<char>, Seq<u8>)>) -> bool
    decreases es.len(),
{
    if es.len() == 0 {
        true
    } else {
        let p = es.drop_last();
        writes_ok(p) && start_ok(p, es.last().0) && write_ok(p.push((es.last().0, Seq::empty())), es.last().1)
    }
}

/// The zip writer takes the entries `es` and finishes the archive.
pub open spec fn zip_accepts(es: Seq<(Seq<char>, Seq<u8>)>) -> bool {
    writes_ok(es) && finish_ok(es)
}

/// Every entry name fits a zip header.
pub open spec fn names_fit(es: Seq<(Seq<char>, Seq<u8>)>) -> bool {
    forall|k: int| 0 <= k < es.len() ==> (#[trigger] es[k]).0.len() <= MAX_ENTRY_NAME_CHARS
}

/// No two entries share a name.
pub open spec fn names_distinct(es: Seq<(Seq<char>, Seq<u8>)>) -> bool {
    forall|a: int, b: int| 0 <= a < b < es.len() ==> (#[trigger] es[a]).0 != (#[trigger] es[b]).0
}

/// Every payload entry among `names` reads back.
pub open spec fn payload_readable(names: Seq<Seq<char>>, readable: Set<Seq<char>>) -> bool {
    forall|k: int| 0 <= k < names.len() && is_payload(#[trigger] names[k]) ==> readable.contains(names[k])
}

/// The archive with entries `names`, contents `data` and readable entries
/// `readable` transcodes: its payload reads back, and the package's entries
/// have names that fit and are taken by the zip writer.
pub open spec fn transcodes(
    names: Seq<Seq<char>>,
    data: Map<Seq<char>, Seq<u8>>,
    readable: Set<Seq<char>>,
    id: Seq<char>,
    version: Seq<char>,
    description: Seq<char>,
) -> bool {
    let es = package_entries(names, data, id, version, description);
    payload_readable(names, readable) && names_fit(es) && zip_accepts(es)
}

proof fn lemma_writes_ok_prefix(es: Seq<(Seq<char>, Seq<u8>)>, k: int)
    requires
        writes_ok(es),
        0 <= k < es.len(),
    ensures
        start_ok(es.subrange(0, k), es[k].0),
        write_ok(es.subrange(0, k).push((es[k].0, Seq::empty())), es[k].1),
    decreases es.len(),
{
    if k == es.len() - 1 {
        assert(es.drop_last() =~= es.subrange(0, k));
    } else {
        lemma_writes_ok_prefix(es.drop_last(), k);
        assert(es.drop_last().subrange(0, k) =~= es.subrange(0, k));
    }
}

proof fn lemma_payload_prefix(names: Seq<Seq<char>>, i: int)
    requires
        0 <= i <= names.len(),
    ensures
        payload_names(names.subrange(0, i)).len() <= payload_names(names).len(),
        payload_names(names).subrange(0, payload_names(names.subrange(0, i)).len() as int)
            == payload_names(names.subrange(0, i)),
    decreases names.len(),
{
    let p = payload_names(names);
    if i == names.len() {
        assert(names.subrange(0, i) =~= names);
        assert(p.subrange(0, p.len() as int) =~= p);
    } else {
        let t = names.drop_last();
        lemma_payload_prefix(t, i);
        assert(t.subrange(0, i) =~= names.subrange(0, i));
        let q = payload_names(names.subrange(0, i));
        assert(p.subrange(0, q.len() as int) =~= payload_names(t).subrange(0, q.len() as int));
    }
}

proof fn lemma_entries_prefix(
    names: Seq<Seq<char>>,
    data: Map<Seq<char>, Seq<u8>>,
    i: int,
    id: Seq<char>,
    version: Seq<char>,
    description: Seq<char>,
)
    requires
        0 <= i <= names.len(),
    ensures
        payload_entries(names.subrange(0, i), data).len() < package_entries(names, data, id, version, description).len(),
        package_entries(names, data, id, version, description).subrange(
            0,
            payload_entries(names.subrange(0, i), data).len() as int,
        ) == payload_entries(names.subrange(0, i), data),
{
    lemma_payload_prefix(names, i);
    let pe = payload_entries(names.subrange(0, i), data);
    let full = package_entries(names, data, id, version, description);
    assert(full.subrange(0, pe.len() as int) =~= pe);
}

/// Starts an entry and writes its content.
fn add_entry(w: &mut MemWriter, name: &str, data: &[u8]) -> (r: Result<(), TranscodeError>)
    requires
        intact(*old(w)),
    ensures
        r is Ok <==> name@.len() <= MAX_ENTRY_NAME_CHARS && start_ok(written_entries(*old(w)), name@)
            && write_ok(written_entries(*old(w)).push((name@, Seq::empty())), data@),
        entry_names_of(written_entries(*old(w))).contains(name@) ==> r is Err,
        r is Ok ==> intact(*final(w)),
        r is Ok ==> written_entries(*final(w)) == written_entries(*old(w)).push((name@, data@)),
{
    let len = name.unicode_len();
    if len > MAX_ENTRY_NAME_CHARS {
        return Err(TranscodeError::NameTooLong(name.to_owned()));
    }
    match start_entry(w, name) {
        Ok(()) => {},
        Err(e) => {
            return Err(TranscodeError::Archive(e));
        },
    }
    let ghost mid = written_entries(*w);
    match write_data(w, data) {
        Ok(()) => {},
        Err(e) => {
            return Err(TranscodeError::Write(e));
        },
    }
    assert(mid.drop_last() == written_entries(*old(w)));
    assert(Seq::<u8>::empty() + data@ =~= data@);
    proof {
        if data@.len() == 0 {
            assert(data@ =~= Seq::<u8>::empty());
        }
    }
    Ok(())
}

/// The package made of `archive`: each payload entry, in archive order, under
/// `lib/netstandard2.0/` with its directories dropped, then the manifest built
/// from `id`, `version` and `description`. Every other entry is left out.
/// It succeeds exactly when the payload reads back, every entry name fits a
/// zip header and the zip writer takes every entry; the names are then distinct.
pub fn transcode(archive: &mut MemArchive, id: &str, version: &str, description: &str) -> (r: Result<
    Vec<u8>,
    TranscodeError,
>)
    ensures
        r is Ok <==> transcodes(
            archive_names(*old(archive)),
            archive_data(*old(archive)),
            archive_readable(*old(archive)),
            id@,
            version@,
            description@,
        ),
        r matches Ok(out) ==> transcoded_from(*old(archive), id@, version@, description@, out@),
        r is Ok ==> names_distinct(
            package_entries(archive_names(*old(archive)), archive_data(*old(archive)), id@, version@, description@),
        ),
{
    let ghost a0 = *archive;
    let ghost full = package_entries(archive_names(a0), archive_data(a0), id@, version@, description@);
    let ghost rd = archive_readable(a0);
    let names = entry_names(archive);
    let ghost nv = names@.map_values(|s: String| s@);
    let mut w = new_writer();
    let mut i: usize = 0;
    assert(writes_ok(written_entries(w)));
    while i < names.len()
        invariant
            i <= names.len(),
            nv == names@.map_values(|s: String| s@),
            nv == archive_names(a0),
            a0 == *old(archive),
            full == package_entries(nv, archive_data(a0), id@, version@, description@),
            rd == archive_readable(a0),
            archive_names(*archive) == archive_names(a0),
            archive_data(*archive) == archive_data(a0),
            archive_readable(*archive) == rd,
            written_entries(w) == payload_entries(nv.subrange(0, i as int), archive_data(a0)),
            intact(w),
            writes_ok(written_entries(w)),
            names_fit(written_entries(w)),
            names_distinct(written_entries(w)),
            forall|k: int| 0 <= k < i && is_payload(#[trigger] nv[k]) ==> rd.contains(nv[k]),
        decreases names.len() - i,
    {
        let ghost pre = nv.subrange(0, i as int);
        let ghost pre1 = nv.subrange(0, i + 1);
        assert(pre1.drop_last() =~= pre);
        assert(pre1.last() == names@[i as int]@);
        assert(nv[i as int] == names@[i as int]@);
        if is_payload_name(names[i].as_str()) {
            let data = match read_entry(archive, names[i].as_str()) {
                Ok(d) => d,
                Err(e) => {
                    proof {
                        assert(is_payload(nv[i as int]) && !rd.contains(nv[i as int]));
                        assert(!payload_readable(nv, rd));
                    }
                    return Err(TranscodeError::Archive(e));
                },
            };
            let path = make_payload_path(names[i].as_str());
            let ghost before = written_entries(w);
            proof {
                lemma_entries_prefix(nv, archive_data(a0), i + 1, id@, version@, description@);
                lemma_entries_prefix(nv, archive_data(a0), i as int, id@, version@, description@);
                let pe1 = payload_entries(pre1, archive_data(a0));
                assert(payload_names(pre1) == payload_names(pre).push(nv[i as int]));
                assert(pe1 =~= before.push((path@, data@)));
                assert(full.subrange(0, pe1.len() as int) == pe1);
                assert(full.subrange(0, pe1.len() as int)[before.len() as int] == full[before.len() as int]);
                assert(full[before.len() as int] == (path@, data@));
                assert(full.subrange(0, before.len() as int) =~= before);
            }
            let added = add_entry(&mut w, path.as_str(), data.as_slice());
            match added {
                Ok(()) => {},
                Err(e) => {
                    proof {
                        if transcodes(nv, archive_data(a0), rd, id@, version@, description@) {
                            lemma_writes_ok_prefix(full, before.len() as int);
                            assert(full[before.len() as int].0.len() <= MAX_ENTRY_NAME_CHARS);
                        }
                    }
                    return Err(e);
                },
            }
            proof {
                assert(written_entries(w) =~= payload_entries(pre1, archive_data(a0)));
                assert(written_entries(w).drop_last() =~= before);
                assert forall|a: int, b: int| 0 <= a < b < written_entries(w).len() implies
                    (#[trigger] written_entries(w)[a]).0 != (#[trigger] written_entries(w)[b]).0 by {
                    if b == before.len() {
                        if written_entries(w)[a].0 == path@ {
                            assert(entry_names_of(before)[a] == path@);
                        }
                    } else {
                        assert(written_entries(w)[a] == before[a]);
                        assert(written_entries(w)[b] == before[b]);
                    }
                }
            }
        } else {
            assert(payload_names(pre1) == payload_names(pre));
        }
        i = i + 1;
    }
    assert(nv.subrange(0, names.len() as int) =~= nv);
    let manifest = make_manifest(id, version, description);
    let name = make_manifest_name(id);
    let ghost before = written_entries(w);
    let bytes = manifest.as_str().as_bytes();
    assert(full == before.push((name@, bytes@)));
    assert(full.drop_last() =~= before);
    let added = add_entry(&mut w, name.as_str(), bytes);
    match added {
        Ok(()) => {},
        Err(e) => {
            proof {
                if transcodes(nv, archive_data(a0), rd, id@, version@, description@) {
                    assert(full[before.len() as int].0 == name@);
                }
            }
            return Err(e);
        },
    }
    proof {
        assert forall|a: int, b: int| 0 <= a < b < full.len() implies (#[trigger] full[a]).0 != (
        #[trigger] full[b]).0 by {
            if b == before.len() {
                if full[a].0 == name@ {
                    assert(entry_names_of(before)[a] == name@);
                }
            } else {
                assert(full[a] == before[a]);
                assert(full[b] == before[b]);
            }
        }
        assert forall|k: int| 0 <= k < nv.len() && is_payload(#[trigger] nv[k]) implies rd.contains(nv[k]) by {}
    }
    let ghost done = w;
    match finish_writer(w) {
        Ok(out) => Ok(out),
        Err(e) => Err(TranscodeError::Archive(e)),
    }
}

/// The package made of the upstream archive whose bytes are `src`: the bytes
/// of a finished zip holding the entries made of the entries that `src` lists.
/// Fails when `src` cannot be read as an archive or an entry cannot be copied.
pub fn transcode_bytes(src: Vec<u8>, id: &str, version: &str, description: &str) -> (r: Result<
    Vec<u8>,
    TranscodeError,
>)
    ensures
        !zip_readable(src@) ==> r is Err,
        r is Ok <==> zip_readable(src@) && transcodes(
            zip_listing(src@).0,
            zip_listing(src@).1,
            zip_listing(src@).2,
            id@,
            version@,
            description@,
        ),
        r is Ok ==> names_distinct(
            package_entries(zip_listing(src@).0, zip_listing(src@).1, id@, version@, description@),
        ),
        r matches Ok(out) ==> exists|w: MemWriter|
            written_entries(w) == package_entries(
                zip_listing(src@).0,
                zip_listing(src@).1,
                id@,
                version@,
                description@,
            ) && out@ == archive_bytes(w),
{
    let mut archive = match open_archive(src) {
        Ok(a) => a,
        Err(e) => {
            return Err(TranscodeError::Archive(e));
        },
    };
    let r = transcode(&mut archive, id, version, description);
    r
}

} // verus!
