//! Inventory scanning decisions: which directory entries count as
//! packages, which files in a package directory count as versions, and
//! the ordering of the scanned inventory.

use vstd::prelude::*;
use crate::package::watcher::{find_last_byte, lemma_find_last_byte_bounds};
use crate::package::xml::{spec_collapse_ws, collapse_ws, PackageXML};
use crate::package::xml_reader::{spec_normalize_manifest, view_manifest, view_opt, PackageXmlError};
use vstd::multiset::Multiset;
use crate::version::Version;
use crate::version::syntax::{
    spec_parse_version, spec_underscores_to_spaces, underscores_to_spaces,
};

verus! {

/// A byte a package identifier segment may hold: a letter, a digit, an
/// underscore or a hyphen.
pub open spec fn is_id_byte(b: u8) -> bool {
    (97 <= b && b <= 122) || (65 <= b && b <= 90) || (48 <= b && b <= 57) || b == 95 || b == 45
}

/// A valid package identifier: at least three non-empty dot-separated
/// segments of letters, digits, underscores and hyphens.
pub open spec fn spec_is_package_id(s: Seq<u8>) -> bool {
    &&& s.len() >= 1
    &&& forall|i: int| 0 <= i < s.len() ==> (is_id_byte(#[trigger] s[i]) || s[i] == 46)
    &&& s[0] != 46
    &&& s[s.len() - 1] != 46
    &&& forall|i: int| 0 <= i < s.len() - 1 ==> !(#[trigger] s[i] == 46 && s[i + 1] == 46)
    &&& exists|i: int, j: int| 0 <= i < j < s.len() && s[i] == 46 && s[j] == 46
}

/// Decides whether a name is a valid package identifier.
pub fn is_package_id(s: &[u8]) -> (r: bool)
    ensures
        r == spec_is_package_id(s@),
{
    if s.len() == 0 {
        return false;
    }
    if s[0] == 46 || s[s.len() - 1] == 46 {
        return false;
    }
    let mut dots: usize = 0;
    let ghost mut first_dot: int = 0;
    let ghost mut second_dot: int = 0;
    let mut i: usize = 0;
    while i < s.len()
        invariant
            1 <= s@.len(),
            0 <= i <= s@.len(),
            dots <= i,
            forall|j: int| 0 <= j < i ==> (is_id_byte(#[trigger] s@[j]) || s@[j] == 46),
            forall|j: int| 0 <= j < i - 1 ==> !(#[trigger] s@[j] == 46 && s@[j + 1] == 46),
            i >= 1 ==> s@[i - 1] != 46 || dots >= 1,
            dots >= 1 ==> 0 <= first_dot < i && s@[first_dot] == 46,
            dots >= 2 ==> first_dot < second_dot < i && s@[second_dot] == 46,
            dots == 0 ==> forall|j: int| 0 <= j < i ==> s@[j] != 46,
            dots == 1 ==> forall|j: int| 0 <= j < i && j != first_dot ==> s@[j] != 46,
        decreases s@.len() - i,
    {
        let b = s[i];
        let ok = (97 <= b && b <= 122) || (65 <= b && b <= 90) || (48 <= b && b <= 57) || b == 95
            || b == 45;
        if !ok && b != 46 {
            return false;
        }
        if b == 46 {
            if i >= 1 && s[i - 1] == 46 {
                return false;
            }
            if i == 0 {
                return false;
            }
            dots = dots + 1;
            proof {
                if dots == 1 {
                    first_dot = i as int;
                } else if dots == 2 {
                    second_dot = i as int;
                }
            }
        }
        i = i + 1;
    }
    if dots >= 2 {
        proof {
            assert(0 <= first_dot < second_dot < s@.len() && s@[first_dot] == 46 && s@[second_dot]
                == 46);
        }
        true
    } else {
        proof {
            if exists|a: int, b: int| 0 <= a < b < s@.len() && s@[a] == 46 && s@[b] == 46 {
                let (a, b) = choose|a: int, b: int|
                    0 <= a < b < s@.len() && s@[a] == 46 && s@[b] == 46;
                if dots == 0 {
                    assert(s@[a] != 46);
                } else {
                    if a != first_dot {
                        assert(s@[a] != 46);
                    }
                    if b != first_dot {
                        assert(s@[b] != 46);
                    }
                }
            }
        }
        false
    }
}

/// What the scanner does with one entry of the package directory.
#[derive(Debug, Eq, PartialEq, Clone, Copy, Structural)]
pub enum PackageDirAction {
    SkipDotfile,
    SkipAuthFile,
    SkipInvalidId,
    SkipNotDirectory,
    Scan,
}

/// The name of the authorization configuration file.
pub open spec fn auth_json_name() -> Seq<u8> {
    seq![97u8, 117u8, 116u8, 104u8, 46u8, 106u8, 115u8, 111u8, 110u8]
}

/// The name of the example authorization configuration file.
pub open spec fn auth_json_example_name() -> Seq<u8> {
    auth_json_name() + seq![46u8, 101u8, 120u8, 97u8, 109u8, 112u8, 108u8, 101u8]
}

/// What the scanner does with one entry of the package directory:
/// dotfiles, the authorization files, invalid identifiers and
/// non-directories are skipped; the rest are scanned as packages.
pub open spec fn spec_classify_package_entry(name: Seq<u8>, is_dir: bool) -> PackageDirAction {
    if name.len() >= 1 && name[0] == 46 {
        PackageDirAction::SkipDotfile
    } else if name == auth_json_name() || name == auth_json_example_name() {
        PackageDirAction::SkipAuthFile
    } else if !spec_is_package_id(name) {
        PackageDirAction::SkipInvalidId
    } else if !is_dir {
        PackageDirAction::SkipNotDirectory
    } else {
        PackageDirAction::Scan
    }
}

/// Classifies one entry of the package directory.
pub fn classify_package_entry(name: &[u8], is_dir: bool) -> (r: PackageDirAction)
    ensures
        r == spec_classify_package_entry(name@, is_dir),
{
    if name.len() >= 1 && name[0] == 46 {
        return PackageDirAction::SkipDotfile;
    }
    let auth: [u8; 9] = [97, 117, 116, 104, 46, 106, 115, 111, 110];
    let auth_example: [u8; 17] = [
        97,
        117,
        116,
        104,
        46,
        106,
        115,
        111,
        110,
        46,
        101,
        120,
        97,
        109,
        112,
        108,
        101,
    ];
    proof {
        assert(auth@ =~= auth_json_name());
        assert(auth_example@ =~= auth_json_example_name());
    }
    if crate::auth::types::compare_bytes(name, &auth) || crate::auth::types::compare_bytes(
        name,
        &auth_example,
    ) {
        return PackageDirAction::SkipAuthFile;
    }
    if !is_package_id(name) {
        return PackageDirAction::SkipInvalidId;
    }
    if !is_dir {
        return PackageDirAction::SkipNotDirectory;
    }
    PackageDirAction::Scan
}

/// What the scanner does with one file inside a package directory.
#[derive(Debug, Eq, PartialEq, Clone, Copy, Structural)]
pub enum VersionFileAction {
    SkipDotfile,
    SkipUnparsedVersion,
    SkipNotFile,
    CounterFile,
    SkipNotTar,
    Tar(Version),
}

/// The stem of a file name: the part before the last dot, or the whole
/// name when the dot is missing or leads the name.
pub open spec fn spec_file_stem(name: Seq<u8>) -> Seq<u8> {
    let dot = find_last_byte(name, 46);
    if dot >= 1 {
        name.take(dot)
    } else {
        name
    }
}

/// The extension of a file name: the part after the last dot, when that
/// dot leaves a non-empty stem.
pub open spec fn spec_file_extension(name: Seq<u8>) -> Option<Seq<u8>> {
    let dot = find_last_byte(name, 46);
    if dot >= 1 {
        Some(name.skip(dot + 1))
    } else {
        None
    }
}

/// What the scanner does with one file inside a package directory:
/// dotfiles are skipped; the stem, with underscores as spaces, must
/// start with a version; non-files are skipped; `.txt` files are the
/// download counters; anything but `.tar` is skipped; a `.tar` file is
/// read as that version.
pub open spec fn spec_classify_version_file(name: Seq<u8>, is_file: bool) -> VersionFileAction {
    if name.len() >= 1 && name[0] == 46 {
        VersionFileAction::SkipDotfile
    } else {
        match spec_parse_version(spec_underscores_to_spaces(spec_file_stem(name))) {
            None => VersionFileAction::SkipUnparsedVersion,
            Some((v, _)) => if !is_file {
                VersionFileAction::SkipNotFile
            } else if spec_file_extension(name) == Some(seq![116u8, 120u8, 116u8]) {
                VersionFileAction::CounterFile
            } else if spec_file_extension(name) != Some(seq![116u8, 97u8, 114u8]) {
                VersionFileAction::SkipNotTar
            } else {
                VersionFileAction::Tar(v)
            },
        }
    }
}

/// Classifies one file inside a package directory.
pub fn classify_version_file(name: &[u8], is_file: bool) -> (r: VersionFileAction)
    requires
        name@.len() < 0x8000000000000000,
    ensures
        r == spec_classify_version_file(name@, is_file),
{
    if name.len() >= 1 && name[0] == 46 {
        return VersionFileAction::SkipDotfile;
    }
    proof {
        lemma_find_last_byte_bounds(name@, 46);
    }
    let dot = crate::package::watcher::find_last_byte_at(name, 46);
    let stem = if dot >= 1 {
        vstd::slice::slice_subrange(name, 0, dot as usize)
    } else {
        name
    };
    proof {
        assert(stem@ =~= spec_file_stem(name@));
    }
    let spaced = underscores_to_spaces(stem);
    let v = match Version::parser(spaced.as_slice()) {
        None => { return VersionFileAction::SkipUnparsedVersion; },
        Some((v, _)) => v,
    };
    if !is_file {
        return VersionFileAction::SkipNotFile;
    }
    let ext = if dot >= 1 {
        Some(vstd::slice::slice_subrange(name, (dot + 1) as usize, name.len()))
    } else {
        None
    };
    proof {
        match spec_file_extension(name@) {
            Some(e) => {
                assert(ext is Some);
            },
            None => {},
        }
    }
    match ext {
        Some(e) => {
            proof {
                assert(e@ =~= spec_file_extension(name@).unwrap());
            }
            let txt: [u8; 3] = [116, 120, 116];
            let tar: [u8; 3] = [116, 97, 114];
            proof {
                assert(txt@ =~= seq![116u8, 120u8, 116u8]);
                assert(tar@ =~= seq![116u8, 97u8, 114u8]);
            }
            if crate::auth::types::compare_bytes(e, &txt) {
                VersionFileAction::CounterFile
            } else if !crate::auth::types::compare_bytes(e, &tar) {
                VersionFileAction::SkipNotTar
            } else {
                VersionFileAction::Tar(v)
            }
        },
        None => {
            proof {
                assert(spec_file_extension(name@) is None);
            }
            VersionFileAction::SkipNotTar
        },
    }
}

/// What `sha2::Sha256` digests the input to. The result depends on the
/// bytes alone.
pub uninterp spec fn sha256_of(bytes: Seq<u8>) -> Seq<u8>;

/// Relies on sha2::Sha256::digest: the 32-byte SHA-256 digest of the
/// input; deterministic in the bytes.
#[verifier::external_body]
fn sha256(bytes: &[u8]) -> (r: Vec<u8>)
    ensures
        r@ == sha256_of(bytes@),
        r@.len() == 32,
{
    <sha2::Sha256 as sha2::digest::Digest>::digest(bytes).to_vec()
}

/// What a tar archive holds, entry by entry and in order: each entry's
/// file name (the last component of its path, as bytes; empty when the
/// path has none), whether it is a regular file, and its contents;
/// nothing when the archive, an entry, a path or a content cannot be
/// read. The result depends on the bytes alone.
pub uninterp spec fn tar_entries_of(tar: Seq<u8>) -> Option<Seq<(Seq<u8>, bool, Seq<u8>)>>;

/// Relies on the tar crate (Archive::entries, Header::entry_type,
/// Header::path, Entry::read_to_end): the archive's entries are handed
/// out as plain values, in order; an unreadable archive, entry, path or
/// content yields nothing. Deterministic in the bytes.
#[verifier::external_body]
fn tar_entries(bytes: &[u8]) -> (r: Option<Vec<(Vec<u8>, bool, Vec<u8>)>>)
    ensures
        match r {
            Some(es) => tar_entries_of(bytes@) == Some(
                Seq::new(es@.len(), |i: int| (es@[i].0@, es@[i].1, es@[i].2@)),
            ),
            None => tar_entries_of(bytes@) is None,
        },
{
    let mut archive = tar::Archive::new(bytes);
    let mut out: Vec<(Vec<u8>, bool, Vec<u8>)> = Vec::new();
    for entry in archive.entries().ok()? {
        let mut entry = entry.ok()?;
        let name = match entry.header().path().ok()?.file_name() {
            Some(n) => n.as_encoded_bytes().to_vec(),
            None => Vec::new(),
        };
        let is_file = entry.header().entry_type().is_file();
        let mut contents = Vec::new();
        std::io::Read::read_to_end(&mut entry, &mut contents).ok()?;
        out.push((name, is_file, contents));
    }
    Some(out)
}

/// The manifest file's name inside an archive.
pub open spec fn package_xml_name() -> Seq<u8> {
    seq![112u8, 97u8, 99u8, 107u8, 97u8, 103u8, 101u8, 46u8, 120u8, 109u8, 108u8]
}

/// What scanning the entries from index `i` for the manifest yields:
/// non-file entries are skipped; the first regular file named
/// `package.xml` wins; a regular file whose path carries no name fails
/// the archive.
pub open spec fn spec_find_package_xml(entries: Seq<(Seq<u8>, bool, Seq<u8>)>, i: int) -> Option<
    Seq<u8>,
>
    decreases entries.len() - i,
{
    if i < 0 || i >= entries.len() {
        None
    } else if entries[i].1 {
        if entries[i].0.len() == 0 {
            None
        } else if entries[i].0 == package_xml_name() {
            Some(entries[i].2)
        } else {
            spec_find_package_xml(entries, i + 1)
        }
    } else {
        spec_find_package_xml(entries, i + 1)
    }
}

/// What searching a tar archive for a regular file named `package.xml`
/// yields: that file's contents, or nothing when the archive cannot be
/// read or holds no such file.
pub open spec fn package_xml_of(tar: Seq<u8>) -> Option<Seq<u8>> {
    match tar_entries_of(tar) {
        Some(es) => spec_find_package_xml(es, 0),
        None => None,
    }
}

/// Scans the entries for the manifest: the first regular file named
/// `package.xml`; a regular file without a name fails the archive.
#[verifier::loop_isolation(false)]
fn find_package_xml(entries: &Vec<(Vec<u8>, bool, Vec<u8>)>) -> (r: Option<usize>)
    ensures
        ({
            let es = Seq::new(
                entries@.len(),
                |i: int| (entries@[i].0@, entries@[i].1, entries@[i].2@),
            );
            match r {
                Some(ix) => 0 <= ix < entries@.len() && spec_find_package_xml(es, 0) == Some(
                    entries@[ix as int].2@,
                ),
                None => spec_find_package_xml(es, 0) is None,
            }
        }),
{
    let ghost es = Seq::new(
        entries@.len(),
        |i: int| (entries@[i].0@, entries@[i].1, entries@[i].2@),
    );
    let manifest_name: [u8; 11] = [112, 97, 99, 107, 97, 103, 101, 46, 120, 109, 108];
    proof {
        assert(manifest_name@ =~= package_xml_name());
    }
    let mut i: usize = 0;
    while i < entries.len()
        invariant
            0 <= i <= entries@.len(),
            spec_find_package_xml(es, 0) == spec_find_package_xml(es, i as int),
        decreases entries@.len() - i,
    {
        let entry = &entries[i];
        if entry.1 {
            if entry.0.len() == 0 {
                return None;
            }
            if crate::auth::types::compare_bytes(entry.0.as_slice(), &manifest_name) {
                return Some(i);
            }
        }
        i = i + 1;
    }
    None
}

/// Searches a tar archive for its manifest: the first regular file
/// named `package.xml`.
fn tar_package_xml(bytes: &[u8]) -> (r: Option<Vec<u8>>)
    ensures
        match r {
            Some(x) => package_xml_of(bytes@) == Some(x@),
            None => package_xml_of(bytes@) is None,
        },
{
    let entries = match tar_entries(bytes) {
        Some(es) => es,
        None => { return None; },
    };
    match find_package_xml(&entries) {
        Some(ix) => Some(copy_entry_contents(&entries, ix)),
        None => None,
    }
}

/// Copies one entry's contents out of the entry list.
fn copy_entry_contents(entries: &Vec<(Vec<u8>, bool, Vec<u8>)>, ix: usize) -> (r: Vec<u8>)
    requires
        ix < entries@.len(),
    ensures
        r@ == entries@[ix as int].2@,
{
    vstd::slice::slice_to_vec(entries[ix].2.as_slice())
}

/// The hexadecimal digit of a nibble, lower case.
pub open spec fn spec_hex_digit(n: u8) -> u8 {
    if n < 10 {
        (48 + n) as u8
    } else {
        (87 + n) as u8
    }
}

/// The lower-case hexadecimal rendering of a byte string, two digits
/// per byte.
pub open spec fn spec_hex(s: Seq<u8>) -> Seq<u8>
    decreases s.len(),
{
    if s.len() == 0 {
        Seq::<u8>::empty()
    } else {
        seq![
            spec_hex_digit(s[0] / 16),
            spec_hex_digit(s[0] % 16),
        ] + spec_hex(s.skip(1))
    }
}

/// Renders a byte string in lower-case hexadecimal.
#[verifier::loop_isolation(false)]
pub fn to_hex(s: &[u8]) -> (r: Vec<u8>)
    ensures
        r@ == spec_hex(s@),
{
    let mut i: usize = s.len();
    proof {
        assert(s@.skip(s@.len() as int) =~= Seq::<u8>::empty());
    }
    let mut tail: Vec<u8> = Vec::new();
    while i > 0
        invariant
            0 <= i <= s@.len(),
            tail@ == spec_hex(s@.skip(i as int)),
        decreases i,
    {
        let b = s[i - 1];
        let hi = b / 16;
        let lo = b % 16;
        let hid: u8 = if hi < 10 {
            48 + hi
        } else {
            87 + hi
        };
        let lod: u8 = if lo < 10 {
            48 + lo
        } else {
            87 + lo
        };
        tail.insert(0, lod);
        tail.insert(0, hid);
        proof {
            assert(s@.skip(i as int - 1)[0] == s@[i as int - 1]);
            assert(s@.skip(i as int - 1).skip(1) =~= s@.skip(i as int));
            assert(tail@ =~= seq![
                spec_hex_digit(s@[i as int - 1] / 16),
                spec_hex_digit(s@[i as int - 1] % 16),
            ] + spec_hex(s@.skip(i as int)));
        }
        i = i - 1;
    }
    proof {
        assert(s@.skip(0) =~= s@);
    }
    tail
}

/// One scanned package version: its manifest, the hexadecimal SHA-256
/// of its archive, and its modification time in seconds, when known.
#[derive(Debug)]
pub struct PackageInfo {
    pub data: PackageXML,
    pub hash: Vec<u8>,
    pub mtime: Option<u64>,
}

/// The versions of one package, ascending by version.
pub type PackageVersions = Vec<PackageInfo>;

/// One published inventory: the packages sorted by name, when the scan
/// finished, how long it took, and how many versions it attempted.
#[derive(Debug)]
pub struct PackageList {
    pub packages: Vec<PackageVersions>,
    pub updated_at: u64,
    pub updated_in_ms: u64,
    pub scanned_version_count: u32,
}

/// Why an archive is rejected by the scanner.
#[derive(Debug, Eq, PartialEq, Clone, Copy, Structural)]
pub enum ArchiveError {
    /// The archive cannot be read or holds no `package.xml`.
    MissingPackageXml,
    /// The manifest cannot be interpreted.
    Manifest(PackageXmlError),
    /// The manifest's name differs from the directory name.
    NameMismatch,
    /// The manifest's version differs from the file name's version.
    VersionMismatch,
}

/// Normalizes the whitespace of the manifest's display strings: package
/// names, descriptions, the author, and the author URL. Everything else
/// is kept as it is.
fn normalize_manifest(p: PackageXML) -> (r: PackageXML)
    ensures
        view_manifest(r) == spec_normalize_manifest(view_manifest(p)),
{
    let ghost m0 = view_manifest(p);
    let mut p = p;
    let mut names: Vec<crate::package::xml::PackageName> = Vec::new();
    core::mem::swap(&mut names, &mut p.package_information.name);
    let ghost names0 = names@;
    let mut new_names: Vec<crate::package::xml::PackageName> = Vec::new();
    let mut i: usize = 0;
    while i < names.len()
        invariant
            0 <= i <= names@.len(),
            names@ == names0,
            new_names@.len() == i,
            forall|j: int|
                0 <= j < i ==> {
                    &&& (#[trigger] new_names@[j]).name@ == spec_collapse_ws(names0[j].name@)
                    &&& view_opt(new_names@[j].language) == view_opt(names0[j].language)
                },
        decreases names@.len() - i,
    {
        let entry = &names[i];
        new_names.push(
            crate::package::xml::PackageName {
                name: collapse_ws(entry.name.as_slice()),
                language: copy_opt(&entry.language),
            },
        );
        i = i + 1;
    }
    p.package_information.name = new_names;
    let mut descriptions: Vec<crate::package::xml::PackageDescription> = Vec::new();
    core::mem::swap(&mut descriptions, &mut p.package_information.description);
    let ghost descs0 = descriptions@;
    let mut new_descriptions: Vec<crate::package::xml::PackageDescription> = Vec::new();
    let mut k: usize = 0;
    while k < descriptions.len()
        invariant
            0 <= k <= descriptions@.len(),
            descriptions@ == descs0,
            new_descriptions@.len() == k,
            forall|j: int|
                0 <= j < k ==> {
                    &&& (#[trigger] new_descriptions@[j]).description@ == spec_collapse_ws(
                        descs0[j].description@,
                    )
                    &&& view_opt(new_descriptions@[j].language) == view_opt(descs0[j].language)
                },
        decreases descriptions@.len() - k,
    {
        let entry = &descriptions[k];
        new_descriptions.push(
            crate::package::xml::PackageDescription {
                description: collapse_ws(entry.description.as_slice()),
                language: copy_opt(&entry.language),
            },
        );
        k = k + 1;
    }
    p.package_information.description = new_descriptions;
    p.author_information.author = collapse_ws(p.author_information.author.as_slice());
    p.author_information.author_url = match &p.author_information.author_url {
        Some(u) => Some(collapse_ws(u.as_slice())),
        None => None,
    };
    proof {
        let out = view_manifest(p);
        let want = spec_normalize_manifest(m0);
        assert(out.package_information.name =~= want.package_information.name) by {
            assert forall|i: int|
                0 <= i < out.package_information.name.len()
                    implies out.package_information.name[i] == want.package_information.name[i] by {
                assert(p.package_information.name@[i].name@ == spec_collapse_ws(
                    names0[i].name@,
                ));
                assert(view_opt(p.package_information.name@[i].language) == view_opt(
                    names0[i].language,
                ));
            }
        }
        assert(out.package_information.description =~= want.package_information.description) by {
            assert forall|i: int|
                0 <= i < out.package_information.description.len()
                    implies out.package_information.description[i]
                    == want.package_information.description[i] by {
                assert(p.package_information.description@[i].description@ == spec_collapse_ws(
                    descs0[i].description@,
                ));
                assert(view_opt(p.package_information.description@[i].language) == view_opt(
                    descs0[i].language,
                ));
            }
        }
        assert(out.required_packages =~= want.required_packages);
        assert(out.optional_packages =~= want.optional_packages);
        assert(out.excluded_packages =~= want.excluded_packages);
        assert(out.instructions =~= want.instructions);
        assert(out.compatibility =~= want.compatibility);
        assert(out == want);
    }
    p
}

/// Copies an optional byte string, keeping presence and contents.
fn copy_opt(v: &Option<Vec<u8>>) -> (r: Option<Vec<u8>>)
    ensures
        view_opt(r) == view_opt(*v),
{
    match v {
        Some(x) => Some(vstd::slice::slice_to_vec(x.as_slice())),
        None => None,
    }
}

/// Reads one package archive: the archive must hold a `package.xml`
/// whose document interprets as a manifest, the manifest's name must
/// equal the directory name and its version the version from the file
/// name; exactly then the result is that manifest with its display
/// strings whitespace-normalized, together with the archive's digest
/// and the modification time. Each error names what broke: no
/// manifest file, the document error itself, or the failing
/// consistency check.
pub fn read_package_archive(
    tar_bytes: &[u8],
    package_name: &[u8],
    package_version: &Version,
    mtime: Option<u64>,
) -> (r: Result<PackageInfo, ArchiveError>)
    ensures
        match r {
            Ok(info) => match package_xml_of(tar_bytes@) {
                Some(xml) => match crate::package::xml_reader::spec_read_manifest(xml) {
                    Ok(m) => {
                        &&& m.name == package_name@
                        &&& m.package_information.version == *package_version
                        &&& view_manifest(info.data)
                            == crate::package::xml_reader::spec_normalize_manifest(m)
                        &&& info.data.name@ == package_name@
                        &&& info.data.package_information.version == *package_version
                        &&& info.hash@ == spec_hex(sha256_of(tar_bytes@))
                        &&& info.mtime == mtime
                    },
                    Err(_) => false,
                },
                None => false,
            },
            Err(ArchiveError::MissingPackageXml) => package_xml_of(tar_bytes@) is None,
            Err(ArchiveError::Manifest(e)) => match package_xml_of(tar_bytes@) {
                Some(xml) => crate::package::xml_reader::spec_read_manifest(xml) == Err::<
                    crate::package::xml_reader::SpecPackageXML,
                    PackageXmlError,
                >(e),
                None => false,
            },
            Err(ArchiveError::NameMismatch) => match package_xml_of(tar_bytes@) {
                Some(xml) => match crate::package::xml_reader::spec_read_manifest(xml) {
                    Ok(m) => m.name != package_name@,
                    Err(_) => false,
                },
                None => false,
            },
            Err(ArchiveError::VersionMismatch) => match package_xml_of(tar_bytes@) {
                Some(xml) => match crate::package::xml_reader::spec_read_manifest(xml) {
                    Ok(m) => m.name == package_name@ && m.package_information.version
                        != *package_version,
                    Err(_) => false,
                },
                None => false,
            },
        },
{
    let xml_bytes = match tar_package_xml(tar_bytes) {
        Some(b) => b,
        None => { return Err(ArchiveError::MissingPackageXml); },
    };
    let manifest = match PackageXML::try_from(xml_bytes.as_slice()) {
        Ok(m) => m,
        Err(e) => { return Err(ArchiveError::Manifest(e)); },
    };
    if !crate::auth::types::compare_bytes(manifest.name.as_slice(), package_name) {
        return Err(ArchiveError::NameMismatch);
    }
    let mv = &manifest.package_information.version;
    if !(mv.major() == package_version.major() && mv.minor() == package_version.minor()
        && mv.patch() == package_version.patch() && mv.suffix() == package_version.suffix()) {
        return Err(ArchiveError::VersionMismatch);
    }
    let manifest = normalize_manifest(manifest);
    let digest = sha256(tar_bytes);
    let hash = to_hex(digest.as_slice());
    Ok(PackageInfo { data: manifest, hash, mtime })
}

/// Ascending by version: no later entry is below an earlier one.
pub open spec fn spec_sorted_by_version(s: Seq<PackageInfo>) -> bool {
    forall|i: int, j: int|
        0 <= i < j < s.len() ==> !(#[trigger] s[j]).data.package_information.version.spec_lt(
            (#[trigger] s[i]).data.package_information.version,
        )
}

/// A list whose adjacent entries never descend is sorted throughout.
proof fn lemma_adjacent_sorted(s: Seq<PackageInfo>, i: int, j: int)
    requires
        forall|k: int|
            0 <= k < s.len() - 1 ==> !(#[trigger] s[k + 1]).data.package_information.version.spec_lt(
                s[k].data.package_information.version,
            ),
        0 <= i < j < s.len(),
    ensures
        !s[j].data.package_information.version.spec_lt(s[i].data.package_information.version),
    decreases j - i,
{
    if j == i + 1 {
        assert(!s[i + 1].data.package_information.version.spec_lt(
            s[i].data.package_information.version,
        ));
    } else {
        lemma_adjacent_sorted(s, i, j - 1);
        assert(!s[j - 1 + 1].data.package_information.version.spec_lt(
            s[j - 1].data.package_information.version,
        ));
        crate::version::lemma_le_transitive(
            s[i].data.package_information.version,
            s[j - 1].data.package_information.version,
            s[j].data.package_information.version,
        );
    }
}

/// Decides whether a version list is ascending by version.
#[verifier::loop_isolation(false)]
pub fn is_sorted_by_version(v: &Vec<PackageInfo>) -> (r: bool)
    ensures
        r == spec_sorted_by_version(v@),
{
    let mut k: usize = 0;
    while v.len() >= 1 && k < v.len() - 1
        invariant
            0 <= k <= v@.len(),
            v@.len() >= 1 ==> k <= v@.len() - 1,
            forall|j: int|
                0 <= j < k ==> !(#[trigger] v@[j + 1]).data.package_information.version.spec_lt(
                    v@[j].data.package_information.version,
                ),
        decreases v@.len() - k,
    {
        if v[k + 1].data.package_information.version.lt(&v[k].data.package_information.version) {
            return false;
        }
        k = k + 1;
    }
    proof {
        assert forall|i: int, j: int|
            0 <= i < j < v@.len() implies !(#[trigger] v@[j]).data.package_information.version.spec_lt(
            (#[trigger] v@[i]).data.package_information.version,
        ) by {
            lemma_adjacent_sorted(v@, i, j);
        }
    }
    true
}

/// Sorts one package's versions ascending by version, keeping exactly
/// the same entries.
#[verifier::loop_isolation(false)]
pub fn sort_versions(v: Vec<PackageInfo>) -> (r: Vec<PackageInfo>)
    ensures
        spec_sorted_by_version(r@),
        r@.to_multiset() == v@.to_multiset(),
{
    let ghost orig = v@;
    let mut v = v;
    let mut out: Vec<PackageInfo> = Vec::new();
    proof {
        broadcast use vstd::seq_lib::group_to_multiset_ensures;
        assert(out@.to_multiset().add(v@.to_multiset()) =~= orig.to_multiset());
    }
    while v.len() > 0
        invariant
            spec_sorted_by_version(out@),
            out@.to_multiset().add(v@.to_multiset()) =~= orig.to_multiset(),
        decreases v@.len(),
    {
        let ghost v_before = v@;
        let e = v.remove(0);
        let mut pos: usize = 0;
        while pos < out.len() && !e.data.package_information.version.lt(
            &out[pos].data.package_information.version,
        )
            invariant
                0 <= pos <= out@.len(),
                forall|j: int|
                    0 <= j < pos ==> !e.data.package_information.version.spec_lt(
                        (#[trigger] out@[j]).data.package_information.version,
                    ),
            decreases out@.len() - pos,
        {
            pos = pos + 1;
        }
        let ghost out_before = out@;
        out.insert(pos, e);
        proof {
            assert(out@.remove(pos as int) =~= out_before);
            assert(out@[pos as int] == e);
            assert(out@.to_multiset() =~= out_before.to_multiset().insert(e)) by {
                assert(out@.remove(pos as int).to_multiset() =~= out@.to_multiset().remove(e));
                let m1 = out_before.to_multiset();
                let m2 = out@.to_multiset();
                assert(m2.remove(e) =~= m1);
                assert(out@.contains(e)) by {
                    assert(out@[pos as int] == e);
                }
                assert(m2.count(e) > 0);
                assert(m2 =~= m1.insert(e)) by {
                    assert forall|x: PackageInfo| m2.count(x) == m1.insert(e).count(x) by {
                        if x == e {
                            assert(m2.remove(e).count(e) == m2.count(e) - 1);
                        } else {
                            assert(m2.remove(e).count(x) == m2.count(x));
                        }
                    }
                }
            }
            assert(v_before.remove(0).to_multiset() =~= v_before.to_multiset().remove(
                v_before[0],
            ));
            assert(out@.to_multiset().add(v@.to_multiset()) =~= orig.to_multiset()) by {
                assert forall|x: PackageInfo|
                    out@.to_multiset().add(v@.to_multiset()).count(x) == orig.to_multiset().count(
                    x,
                ) by {
                    assert(out_before.to_multiset().add(v_before.to_multiset()).count(x)
                        == orig.to_multiset().count(x));
                }
            }
            assert(spec_sorted_by_version(out@)) by {
                assert forall|i: int, j: int|
                    0 <= i < j < out@.len() implies !(#[trigger] out@[j]).data.package_information.version.spec_lt(
                    (#[trigger] out@[i]).data.package_information.version,
                ) by {
                    let ev = e.data.package_information.version;
                    if i < pos && j == pos {
                        assert(out@[i] == out_before[i]);
                        assert(!ev.spec_lt(out_before[i].data.package_information.version));
                    } else if i == pos && j > pos {
                        assert(out@[j] == out_before[j - 1]);
                        if out_before[j - 1].data.package_information.version.spec_lt(ev) {
                            assert(ev.spec_lt(
                                out_before[pos as int].data.package_information.version,
                            ));
                            crate::version::lemma_lt_transitive(
                                out_before[j - 1].data.package_information.version,
                                ev,
                                out_before[pos as int].data.package_information.version,
                            );
                            assert(!out_before[j - 1].data.package_information.version.spec_lt(
                                out_before[pos as int].data.package_information.version,
                            ));
                        }
                    } else if i < pos && j > pos {
                        assert(out@[i] == out_before[i]);
                        assert(out@[j] == out_before[j - 1]);
                    } else if j < pos {
                        assert(out@[i] == out_before[i]);
                        assert(out@[j] == out_before[j]);
                    } else if i > pos {
                        assert(out@[i] == out_before[i - 1]);
                        assert(out@[j] == out_before[j - 1]);
                    }
                }
            }
        }
    }
    proof {
        assert(v@.to_multiset() =~= Multiset::<PackageInfo>::empty());
        assert(out@.to_multiset() =~= orig.to_multiset());
    }
    out
}

/// Strict lexicographic order on byte strings.
pub open spec fn spec_bytes_lt(a: Seq<u8>, b: Seq<u8>) -> bool
    decreases a.len(),
{
    if b.len() == 0 {
        false
    } else if a.len() == 0 {
        true
    } else if a[0] < b[0] {
        true
    } else if a[0] > b[0] {
        false
    } else {
        spec_bytes_lt(a.skip(1), b.skip(1))
    }
}

/// The lexicographic order is irreflexive.
pub proof fn lemma_bytes_lt_irreflexive(a: Seq<u8>)
    ensures
        !spec_bytes_lt(a, a),
    decreases a.len(),
{
    if a.len() > 0 {
        lemma_bytes_lt_irreflexive(a.skip(1));
    }
}

/// The lexicographic order is transitive.
pub proof fn lemma_bytes_lt_transitive(a: Seq<u8>, b: Seq<u8>, c: Seq<u8>)
    requires
        spec_bytes_lt(a, b),
        spec_bytes_lt(b, c),
    ensures
        spec_bytes_lt(a, c),
    decreases a.len(),
{
    if a.len() > 0 {
        if a[0] == b[0] && b[0] == c[0] {
            lemma_bytes_lt_transitive(a.skip(1), b.skip(1), c.skip(1));
        }
    }
}

/// Decides the lexicographic order on byte strings.
pub fn bytes_lt(a: &[u8], b: &[u8]) -> (r: bool)
    ensures
        r == spec_bytes_lt(a@, b@),
    decreases a@.len(),
{
    if b.len() == 0 {
        return false;
    }
    if a.len() == 0 {
        return true;
    }
    if a[0] < b[0] {
        return true;
    }
    if a[0] > b[0] {
        return false;
    }
    let at = vstd::slice::slice_subrange(a, 1, a.len());
    let bt = vstd::slice::slice_subrange(b, 1, b.len());
    proof {
        assert(at@ =~= a@.skip(1));
        assert(bt@ =~= b@.skip(1));
    }
    bytes_lt(at, bt)
}

/// Every inner list holds at least one version, so a package has a name
/// to sort by: the name of its first entry's manifest.
pub open spec fn spec_packages_wf(s: Seq<Vec<PackageInfo>>) -> bool {
    forall|i: int| 0 <= i < s.len() ==> (#[trigger] s[i])@.len() >= 1
}

/// Ascending by the first entry's package name.
pub open spec fn spec_sorted_by_name(s: Seq<Vec<PackageInfo>>) -> bool {
    forall|i: int, j: int|
        0 <= i < j < s.len() ==> !spec_bytes_lt(
            (#[trigger] s[j])@[0].data.name@,
            (#[trigger] s[i])@[0].data.name@,
        )
}

/// Sorts the packages ascending by the name of their first version's
/// manifest, keeping exactly the same packages.
#[verifier::loop_isolation(false)]
pub fn sort_packages(v: Vec<Vec<PackageInfo>>) -> (r: Vec<Vec<PackageInfo>>)
    requires
        spec_packages_wf(v@),
    ensures
        spec_sorted_by_name(r@),
        r@.to_multiset() == v@.to_multiset(),
{
    let ghost orig = v@;
    let mut v = v;
    let mut out: Vec<Vec<PackageInfo>> = Vec::new();
    proof {
        broadcast use vstd::seq_lib::group_to_multiset_ensures;
        assert(out@.to_multiset().add(v@.to_multiset()) =~= orig.to_multiset());
    }
    while v.len() > 0
        invariant
            spec_sorted_by_name(out@),
            spec_packages_wf(out@),
            spec_packages_wf(v@),
            out@.to_multiset().add(v@.to_multiset()) =~= orig.to_multiset(),
        decreases v@.len(),
    {
        let ghost v_before = v@;
        proof {
            assert(v@[0]@.len() >= 1);
        }
        let e = v.remove(0);
        let mut pos: usize = 0;
        while pos < out.len() && !bytes_lt(e[0].data.name.as_slice(), out[pos][0].data.name.as_slice())
            invariant
                0 <= pos <= out@.len(),
                forall|j: int|
                    0 <= j < pos ==> !spec_bytes_lt(e@[0].data.name@, (#[trigger] out@[j])@[0].data.name@),
            decreases out@.len() - pos,
        {
            pos = pos + 1;
        }
        let ghost out_before = out@;
        out.insert(pos, e);
        proof {
            assert(out@.remove(pos as int) =~= out_before);
            assert(out@[pos as int] == e);
            assert(out@.to_multiset() =~= out_before.to_multiset().insert(e)) by {
                assert(out@.remove(pos as int).to_multiset() =~= out@.to_multiset().remove(e));
                let m1 = out_before.to_multiset();
                let m2 = out@.to_multiset();
                assert(m2.remove(e) =~= m1);
                assert(out@.contains(e)) by {
                    assert(out@[pos as int] == e);
                }
                assert(m2.count(e) > 0);
                assert(m2 =~= m1.insert(e)) by {
                    assert forall|x: Vec<PackageInfo>| m2.count(x) == m1.insert(e).count(x) by {
                        if x == e {
                            assert(m2.remove(e).count(e) == m2.count(e) - 1);
                        } else {
                            assert(m2.remove(e).count(x) == m2.count(x));
                        }
                    }
                }
            }
            assert(v_before.remove(0).to_multiset() =~= v_before.to_multiset().remove(
                v_before[0],
            ));
            assert(out@.to_multiset().add(v@.to_multiset()) =~= orig.to_multiset()) by {
                assert forall|x: Vec<PackageInfo>|
                    out@.to_multiset().add(v@.to_multiset()).count(x) == orig.to_multiset().count(
                    x,
                ) by {
                    assert(out_before.to_multiset().add(v_before.to_multiset()).count(x)
                        == orig.to_multiset().count(x));
                }
            }
            assert(spec_packages_wf(out@)) by {
                assert forall|i: int| 0 <= i < out@.len() implies (#[trigger] out@[i])@.len() >= 1
                    by {
                    if i < pos {
                        assert(out@[i] == out_before[i]);
                    } else if i > pos {
                        assert(out@[i] == out_before[i - 1]);
                    }
                }
            }
            assert(spec_sorted_by_name(out@)) by {
                assert forall|i: int, j: int|
                    0 <= i < j < out@.len() implies !spec_bytes_lt(
                    (#[trigger] out@[j])@[0].data.name@,
                    (#[trigger] out@[i])@[0].data.name@,
                ) by {
                    let ek = e@[0].data.name@;
                    if i < pos && j == pos {
                        assert(out@[i] == out_before[i]);
                        assert(!spec_bytes_lt(ek, out_before[i]@[0].data.name@));
                    } else if i == pos && j > pos {
                        assert(out@[j] == out_before[j - 1]);
                        if spec_bytes_lt(out_before[j - 1]@[0].data.name@, ek) {
                            assert(spec_bytes_lt(ek, out_before[pos as int]@[0].data.name@));
                            lemma_bytes_lt_transitive(
                                out_before[j - 1]@[0].data.name@,
                                ek,
                                out_before[pos as int]@[0].data.name@,
                            );
                            lemma_bytes_lt_irreflexive(out_before[pos as int]@[0].data.name@);
                            if j - 1 > pos {
                                assert(!spec_bytes_lt(
                                    out_before[j - 1]@[0].data.name@,
                                    out_before[pos as int]@[0].data.name@,
                                ));
                            }
                        }
                    } else if i < pos && j > pos {
                        assert(out@[i] == out_before[i]);
                        assert(out@[j] == out_before[j - 1]);
                    } else if j < pos {
                        assert(out@[i] == out_before[i]);
                        assert(out@[j] == out_before[j]);
                    } else if i > pos {
                        assert(out@[i] == out_before[i - 1]);
                        assert(out@[j] == out_before[j - 1]);
                    }
                }
            }
        }
    }
    proof {
        assert(v@.to_multiset() =~= Multiset::<Vec<PackageInfo>>::empty());
        assert(out@.to_multiset() =~= orig.to_multiset());
    }
    out
}

} // verus!
