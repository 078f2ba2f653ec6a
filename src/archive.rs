use vstd::prelude::*;
use std::io::Read;
use crate::domain::{Domain, domain_name};
use crate::text::{chars_of, contains, ends_with, extension_present, has_extension, has_substring, has_suffix};

verus! {

#[verifier::external_type_specification]
#[verifier::external_body]
#[verifier::reject_recursive_types(R)]
pub struct ExZipArchive<R>(zip::ZipArchive<R>);

#[verifier::external_type_specification]
#[verifier::external_body]
#[verifier::reject_recursive_types(T)]
pub struct ExCursor<T>(std::io::Cursor<T>);

#[verifier::external_type_specification]
#[verifier::external_body]
pub struct ExZipError(zip::result::ZipError);

/// A zip archive read from bytes held in memory.
pub type ZipReader = zip::ZipArchive<std::io::Cursor<Vec<u8>>>;

/// The names of an archive's entries, in index order.
pub uninterp spec fn zip_entry_names(a: ZipReader) -> Seq<Seq<char>>;

/// For each entry of an archive, in index order, its decompressed bytes, or
/// none where the entry cannot be read (an unsupported method, a damaged
/// stream, a checksum that does not match).
pub uninterp spec fn zip_entry_data(a: ZipReader) -> Seq<Option<Seq<u8>>>;

/// Whether the bytes `b` hold a zip archive that can be opened.
pub uninterp spec fn zip_opens(b: Seq<u8>) -> bool;

/// The entry names of the archive the bytes `b` hold, in index order.
pub uninterp spec fn zip_names_in(b: Seq<u8>) -> Seq<Seq<char>>;

/// The entry contents of the archive the bytes `b` hold, in index order, as
/// [`zip_entry_data`] gives them.
pub uninterp spec fn zip_data_in(b: Seq<u8>) -> Seq<Option<Seq<u8>>>;

/// Relies on `zip::ZipArchive::new`, which reads the central directory of
/// the archive held in `bytes`: whether it succeeds, and the entries of the
/// archive it opens, depend on the bytes alone.
#[verifier::external_body]
fn open_zip(bytes: Vec<u8>) -> (r: Result<ZipReader, zip::result::ZipError>)
    ensures
        r is Ok <==> zip_opens(bytes@),
        r matches Ok(a) ==> zip_entry_names(a) == zip_names_in(bytes@) && zip_entry_data(a)
            == zip_data_in(bytes@),
{
    zip::ZipArchive::new(std::io::Cursor::new(bytes))
}

/// Relies on `zip::ZipArchive::len`: the number of entries.
#[verifier::external_body]
fn zip_len(a: &ZipReader) -> (r: usize)
    ensures
        r == zip_entry_names(*a).len(),
{
    a.len()
}

/// Relies on `zip::ZipArchive::name_for_index`: the name of the entry at an
/// index, and none past the last entry.
#[verifier::external_body]
fn zip_name(a: &ZipReader, i: usize) -> (r: Option<String>)
    ensures
        r is Some <==> i < zip_entry_names(*a).len(),
        r is Some ==> r->0@ == zip_entry_names(*a)[i as int],
{
    a.name_for_index(i).map(|s| s.to_string())
}

/// Relies on `zip::ZipArchive::by_index` and on reading the entry it hands
/// out to its end: the decompressed bytes of the entry at an index, or an
/// error where the entry cannot be read or there is no such entry. Reading
/// leaves the entries as they were.
#[verifier::external_body]
fn zip_read(a: &mut ZipReader, i: usize) -> (r: Result<Vec<u8>, zip::result::ZipError>)
    ensures
        zip_entry_names(*final(a)) == zip_entry_names(*old(a)),
        zip_entry_data(*final(a)) == zip_entry_data(*old(a)),
        r is Ok <==> i < zip_entry_names(*old(a)).len() && zip_entry_data(*old(a))[i as int] is Some,
        r matches Ok(data) ==> zip_entry_data(*old(a))[i as int] == Some(data@),
{
    let mut entry = a.by_index(i)?;
    let mut data = Vec::new();
    entry.read_to_end(&mut data).map_err(zip::result::ZipError::Io)?;
    Ok(data)
}

/// What can go wrong when reading an archive.
#[derive(Clone, Copy, Debug, PartialEq, Eq, Structural)]
pub enum ArchiveError {
    /// The bytes are not a zip archive that can be read.
    Corrupt,
    /// An entry could not be read or decompressed.
    Unreadable,
}

/// An opened, read-only archive of named byte blobs.
pub struct Archive {
    inner: ZipReader,
}

impl View for Archive {
    type V = Seq<Seq<char>>;

    /// The entry names, in index order.
    closed spec fn view(&self) -> Seq<Seq<char>> {
        zip_entry_names(self.inner)
    }
}

/// The directory that archives written by this application keep their
/// databases in.
pub open spec fn container_dir() -> Seq<char> {
    "databases/"@
}

/// The extension of a database file.
pub open spec fn db_ext() -> Seq<char> {
    ".db"@
}

/// The exact entry names tried for a domain, in order of preference.
pub open spec fn candidates(d: Domain) -> Seq<Seq<char>> {
    let n = domain_name(d);
    seq![container_dir() + n + db_ext(), n + db_ext(), container_dir() + n, n]
}

/// Entries that operating systems add to archives and that never hold data.
pub open spec fn is_junk(name: Seq<char>) -> bool {
    has_substring(name, "__MACOSX"@) || has_substring(name, ".DS_Store"@)
}

/// Whether an entry can stand for a domain when no exact name is present:
/// it is no junk, it contains the domain's name, and it either ends with the
/// database extension or names a file without an extension.
pub open spec fn loose_match(name: Seq<char>, d: Domain) -> bool {
    !is_junk(name) && has_substring(name, domain_name(d)) && (has_suffix(name, db_ext())
        || !has_extension(name))
}

/// The index of the first name equal to `t`, or the length if there is none.
pub open spec fn first_equal(s: Seq<Seq<char>>, t: Seq<char>) -> int
    decreases s.len(),
{
    if s.len() == 0 {
        0
    } else if s[0] == t {
        0
    } else {
        1 + first_equal(s.drop_first(), t)
    }
}

/// The index of the first name that loosely matches `d`, or the length if
/// there is none.
pub open spec fn first_loose(s: Seq<Seq<char>>, d: Domain) -> int
    decreases s.len(),
{
    if s.len() == 0 {
        0
    } else if loose_match(s[0], d) {
        0
    } else {
        1 + first_loose(s.drop_first(), d)
    }
}

/// The entry that stands for a domain: the first entry named like the first
/// candidate present, in the order of `candidates`; failing all four, the
/// first entry that loosely matches; else none.
pub open spec fn resolution(names: Seq<Seq<char>>, d: Domain) -> Option<int> {
    let c = candidates(d);
    let n = names.len() as int;
    if first_equal(names, c[0]) < n {
        Some(first_equal(names, c[0]))
    } else if first_equal(names, c[1]) < n {
        Some(first_equal(names, c[1]))
    } else if first_equal(names, c[2]) < n {
        Some(first_equal(names, c[2]))
    } else if first_equal(names, c[3]) < n {
        Some(first_equal(names, c[3]))
    } else if first_loose(names, d) < n {
        Some(first_loose(names, d))
    } else {
        None
    }
}

proof fn lemma_first_equal(s: Seq<Seq<char>>, t: Seq<char>, k: int)
    requires
        0 <= k <= s.len(),
        forall|j: int| 0 <= j < k ==> s[j] != t,
        k == s.len() || s[k] == t,
    ensures
        first_equal(s, t) == k,
    decreases k,
{
    if k > 0 {
        lemma_first_equal(s.drop_first(), t, k - 1);
    }
}

proof fn lemma_first_loose(s: Seq<Seq<char>>, d: Domain, k: int)
    requires
        0 <= k <= s.len(),
        forall|j: int| 0 <= j < k ==> !loose_match(s[j], d),
        k == s.len() || loose_match(s[k], d),
    ensures
        first_loose(s, d) == k,
    decreases k,
{
    if k > 0 {
        lemma_first_loose(s.drop_first(), d, k - 1);
    }
}

/// The views of a list of strings.
pub open spec fn views(v: Seq<String>) -> Seq<Seq<char>> {
    v.map_values(|s: String| s@)
}

/// The exact entry names tried for a domain, in order of preference.
pub fn candidate_names(d: Domain) -> (r: Vec<String>)
    ensures
        r@.len() == 4,
        views(r@) == candidates(d),
{
    let name = d.name();
    let mut nested_ext = String::from_str("databases/");
    nested_ext.append(name.as_str());
    nested_ext.append(".db");
    let mut root_ext = name.clone();
    root_ext.append(".db");
    let mut nested = String::from_str("databases/");
    nested.append(name.as_str());
    let r = vec![nested_ext, root_ext, nested, name];
    assert(views(r@) =~= candidates(d));
    r
}

/// The index of the first of `names` equal to `target`, or the length of
/// `names` if there is none.
fn find_exact(names: &Vec<String>, target: &String) -> (r: usize)
    ensures
        r == first_equal(views(names@), target@),
{
    let ghost s = views(names@);
    let mut i: usize = 0;
    while i < names.len()
        invariant
            s == views(names@),
            i <= names@.len(),
            forall|j: int| 0 <= j < i ==> s[j] != target@,
        decreases names@.len() - i,
    {
        if names[i] == *target {
            proof {
                lemma_first_equal(s, target@, i as int);
            }
            return i;
        }
        i += 1;
    }
    proof {
        lemma_first_equal(s, target@, i as int);
    }
    i
}

/// Whether an entry name is junk that operating systems add to archives.
pub fn junk_entry(name: &Vec<char>) -> (r: bool)
    ensures
        r == is_junk(name@),
{
    let mac = chars_of("__MACOSX");
    let store = chars_of(".DS_Store");
    contains(name, &mac) || contains(name, &store)
}

/// Whether an entry name can stand for domain `d` when no exact name is
/// present.
pub fn loosely_matches(name: &str, d: Domain) -> (r: bool)
    ensures
        r == loose_match(name@, d),
{
    let chars = chars_of(name);
    if junk_entry(&chars) {
        return false;
    }
    let stem = d.name();
    let stem_chars = chars_of(stem.as_str());
    if !contains(&chars, &stem_chars) {
        return false;
    }
    let ext = chars_of(".db");
    ends_with(&chars, &ext) || !extension_present(&chars)
}

/// The index of the first of `names` that loosely matches `d`, or the length
/// of `names` if there is none.
fn find_loose(names: &Vec<String>, d: Domain) -> (r: usize)
    ensures
        r == first_loose(views(names@), d),
{
    let ghost s = views(names@);
    let mut i: usize = 0;
    while i < names.len()
        invariant
            s == views(names@),
            i <= names@.len(),
            forall|j: int| 0 <= j < i ==> !loose_match(s[j], d),
        decreases names@.len() - i,
    {
        if loosely_matches(names[i].as_str(), d) {
            proof {
                lemma_first_loose(s, d, i as int);
            }
            return i;
        }
        i += 1;
    }
    proof {
        lemma_first_loose(s, d, i as int);
    }
    i
}

/// The index of the entry among `names` that stands for domain `d`: the
/// first exact candidate present, in order of preference, else the first
/// loose match, else none.
pub fn resolve_entry(names: &Vec<String>, d: Domain) -> (r: Option<usize>)
    ensures
        r matches Some(i) ==> resolution(views(names@), d) == Some(i as int),
        r is None ==> resolution(views(names@), d) is None,
{
    let cands = candidate_names(d);
    let n = names.len();
    let mut k: usize = 0;
    while k < 4
        invariant
            views(cands@) == candidates(d),
            cands@.len() == 4,
            n == names@.len(),
            k <= 4,
            forall|j: int| 0 <= j < k ==> first_equal(views(names@), candidates(d)[j]) >= n,
        decreases 4 - k,
    {
        let i = find_exact(names, &cands[k]);
        assert(views(cands@)[k as int] == cands@[k as int]@);
        if i < n {
            return Some(i);
        }
        k += 1;
    }
    let i = find_loose(names, d);
    if i < n {
        Some(i)
    } else {
        None
    }
}

impl Archive {
    /// Opens the archive held in `bytes`.
    pub fn open(bytes: Vec<u8>) -> (r: Result<Archive, ArchiveError>)
        ensures
            r is Ok <==> zip_opens(bytes@),
            r matches Ok(a) ==> a@ == zip_names_in(bytes@) && a.data() == zip_data_in(bytes@),
            r matches Err(e) ==> e == ArchiveError::Corrupt,
    {
        match open_zip(bytes) {
            Ok(inner) => Ok(Archive { inner }),
            Err(_) => Err(ArchiveError::Corrupt),
        }
    }

    /// The number of entries.
    pub fn len(&self) -> (r: usize)
        ensures
            r == self@.len(),
    {
        zip_len(&self.inner)
    }

    /// The names of all entries, in index order.
    pub fn entry_names(&self) -> (r: Vec<String>)
        ensures
            views(r@) == self@,
    {
        let n = zip_len(&self.inner);
        let mut r: Vec<String> = Vec::new();
        let mut i: usize = 0;
        while i < n
            invariant
                n == self@.len(),
                i <= n,
                r@.len() == i,
                forall|j: int| 0 <= j < i ==> #[trigger] r@[j]@ == self@[j],
            decreases n - i,
        {
            match zip_name(&self.inner, i) {
                Some(s) => r.push(s),
                None => {
                    assert(false);
                    r.push(String::new());
                },
            }
            i += 1;
        }
        assert(views(r@) =~= self@);
        r
    }

    /// The index of the entry that stands for domain `d`, if any.
    pub fn resolve(&self, d: Domain) -> (r: Option<usize>)
        ensures
            r matches Some(i) ==> resolution(self@, d) == Some(i as int),
            r is None ==> resolution(self@, d) is None,
    {
        let names = self.entry_names();
        resolve_entry(&names, d)
    }

    /// For each entry, in index order, its decompressed bytes, or none where
    /// it cannot be read.
    pub closed spec fn data(&self) -> Seq<Option<Seq<u8>>> {
        zip_entry_data(self.inner)
    }

    /// The bytes of the entry at index `i`.
    pub fn read(&mut self, i: usize) -> (r: Result<Vec<u8>, ArchiveError>)
        ensures
            final(self)@ == old(self)@,
            final(self).data() == old(self).data(),
            r is Ok <==> i < old(self)@.len() && old(self).data()[i as int] is Some,
            r matches Ok(bytes) ==> old(self).data()[i as int] == Some(bytes@),
            r matches Err(e) ==> e == ArchiveError::Unreadable,
    {
        match zip_read(&mut self.inner, i) {
            Ok(data) => Ok(data),
            Err(_) => Err(ArchiveError::Unreadable),
        }
    }
}

} // verus!
