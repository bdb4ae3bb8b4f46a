//! Tests for manifest reading, scanner decisions, the watcher's trigger
//! rules, the download counter, and the HTTP decisions.

use package_server::auth::types::AuthData;
use package_server::http::download::{
    download_location, download_outcome, find_package, latest_accessible, package_location,
    DownloadOutcome, DownloadRequest, FileOpen,
};
use package_server::http::error::{download_error, Error};
use package_server::http::headers::{
    etag_content, none_match, not_modified, xml_acceptable, EntityTag, IfNoneMatch, MediaRange,
};
use package_server::http::helpers::{AuthInfo, RedirectType};
use package_server::package::counter::{
    format_counter, increment_count, initial_count, parse_counter,
};
use package_server::package::list::{
    classify_package_entry, classify_version_file, is_package_id, is_sorted_by_version,
    read_package_archive, sort_packages, sort_versions, to_hex, PackageDirAction, PackageInfo,
    VersionFileAction,
};
use package_server::package::watcher::{
    first_trigger, path_matches, should_scan, WatchEvent, WatchEventKind,
};
use package_server::package::xml::{collapse_ws, Compatibility, License, PackageXML};
use package_server::package::xml_reader::{parse_package, PackageXmlError, XmlNode};
use package_server::version::{Suffix, SuffixType, Version};

fn v(input: &str) -> Version {
    Version::parser(input.as_bytes()).unwrap().0
}

const MANIFEST: &str = r#"<?xml version="1.0" encoding="UTF-8"?>
<package name="com.example.foo">
    <packageinformation>
        <packagename>Example   Package</packagename>
        <packagename language="de-DE">Beispiel</packagename>
        <packagedescription>A demo.</packagedescription>
        <version>1.2.3</version>
        <date>2021-07-21</date>
        <license>MIT &lt;https://example.com&gt;</license>
        <isapplication>1</isapplication>
    </packageinformation>
    <authorinformation>
        <author>Jane
            Doe</author>
        <authorurl>https://example.org</authorurl>
    </authorinformation>
    <requiredpackages>
        <requiredpackage minversion="5.2.0">com.woltlab.wcf</requiredpackage>
    </requiredpackages>
    <excludedpackages>
        <excludedpackage version="6.0.0">com.woltlab.wcf</excludedpackage>
    </excludedpackages>
    <instructions type="install"/>
    <instructions type="update" fromversion="1.2.2"/>
    <compatibility>
        <api version="2018"/>
    </compatibility>
</package>"#;

#[test]
fn test_manifest_from_xml() {
    let m = PackageXML::try_from(MANIFEST.as_bytes()).unwrap();
    assert_eq!(m.name, b"com.example.foo".to_vec());
    assert_eq!(m.package_information.version, v("1.2.3"));
    assert_eq!(m.package_information.date, b"2021-07-21".to_vec());
    assert!(m.package_information.is_application);
    assert_eq!(m.package_information.name.len(), 2);
    assert_eq!(m.package_information.name[0].name, b"Example   Package".to_vec());
    assert_eq!(m.package_information.name[1].language, Some(b"de-DE".to_vec()));
    let license = m.package_information.license.as_ref().unwrap();
    assert_eq!(license.value, b"MIT".to_vec());
    assert_eq!(license.url, Some(b"https://example.com/".to_vec()));
    assert_eq!(m.required_packages.len(), 1);
    assert_eq!(m.required_packages[0].identifier, b"com.woltlab.wcf".to_vec());
    assert_eq!(m.required_packages[0].min_version, b"5.2.0".to_vec());
    assert_eq!(m.excluded_packages.len(), 1);
    assert_eq!(m.excluded_packages[0].version, Some(b"6.0.0".to_vec()));
    assert_eq!(m.instructions.len(), 1);
    assert_eq!(m.instructions[0].from_version, b"1.2.2".to_vec());
    assert_eq!(m.compatibility.len(), 1);
    assert_eq!(m.compatibility[0], Compatibility(2018));
}

#[test]
fn test_manifest_errors() {
    assert_eq!(
        PackageXML::try_from(b"not xml"),
        Err(PackageXmlError::XmlTree)
    );
    assert_eq!(
        PackageXML::try_from(b"<other/>"),
        Err(PackageXmlError::InvalidRoot)
    );
    assert_eq!(
        PackageXML::try_from(b"<package/>"),
        Err(PackageXmlError::MissingAttribute)
    );
    assert_eq!(
        PackageXML::try_from(
            br#"<package name="a.b.c"><packageinformation><version>zzz</version></packageinformation></package>"#
        ),
        Err(PackageXmlError::Nom)
    );
    assert_eq!(
        PackageXML::try_from(
            br#"<package name="a.b.c"><compatibility><api version="2016"/></compatibility></package>"#
        ),
        Err(PackageXmlError::InvalidCompatibility)
    );
    assert_eq!(
        PackageXML::try_from(br#"<package name="a.b.c"><instructions/></package>"#),
        Err(PackageXmlError::MissingAttribute)
    );
}

#[test]
fn test_last_occurrence_wins() {
    let m = PackageXML::try_from(
        br#"<package name="a.b.c">
            <requiredpackages>
                <requiredpackage minversion="1.0.0">x.y.z</requiredpackage>
            </requiredpackages>
            <requiredpackages>
                <requiredpackage minversion="2.0.0">u.v.w</requiredpackage>
            </requiredpackages>
        </package>"#,
    )
    .unwrap();
    assert_eq!(m.required_packages.len(), 1);
    assert_eq!(m.required_packages[0].identifier, b"u.v.w".to_vec());
}

#[test]
fn test_parse_package_tree() {
    let root = XmlNode {
        name: b"package".to_vec(),
        attributes: vec![(b"name".to_vec(), b"a.b.c".to_vec())],
        text: None,
        is_element: true,
        children: vec![XmlNode {
            name: b"authorinformation".to_vec(),
            attributes: Vec::new(),
            text: None,
            is_element: true,
            children: vec![XmlNode {
                name: b"author".to_vec(),
                attributes: Vec::new(),
                text: Some(b"Jane".to_vec()),
                is_element: true,
                children: Vec::new(),
            }],
        }],
    };
    let m = parse_package(&root).unwrap();
    assert_eq!(m.name, b"a.b.c".to_vec());
    assert_eq!(m.author_information.author, b"Jane".to_vec());
}

#[test]
fn test_license_forms() {
    let l = License::try_from(b"MIT <https://example.com>").unwrap();
    assert_eq!(l.value, b"MIT".to_vec());
    assert_eq!(l.url, Some(b"https://example.com/".to_vec()));

    let bare = License::try_from(b"Proprietary").unwrap();
    assert_eq!(bare.value, b"Proprietary".to_vec());
    assert_eq!(bare.url, None);

    let url_only = License::try_from(b" <https://example.com>").unwrap();
    assert_eq!(url_only.value, b"https://example.com/".to_vec());

    assert!(License::try_from(b"").is_none());
    // The URL-shaped part with an unparseable URL keeps the text.
    let broken = License::try_from(b"MIT <https://>").unwrap();
    assert_eq!(broken.value, b"MIT".to_vec());
    assert_eq!(broken.url, None);
}

#[test]
fn test_compatibility_years() {
    assert_eq!(Compatibility::try_from(b"2017"), Some(Compatibility(2017)));
    assert_eq!(Compatibility::try_from(b"2019"), Some(Compatibility(2019)));
    assert_eq!(Compatibility::try_from(b"2020"), Some(Compatibility(2020)));
    assert_eq!(Compatibility::try_from(b"2099"), Some(Compatibility(2099)));
    assert_eq!(Compatibility::try_from(b"2016"), None);
    assert_eq!(Compatibility::try_from(b"2100"), None);
    assert_eq!(Compatibility::try_from(b"18"), None);
    assert_eq!(Compatibility::try_from(b"x018"), None);
}

#[test]
fn test_collapse_whitespace() {
    assert_eq!(collapse_ws(b"a  b"), b"a b".to_vec());
    assert_eq!(collapse_ws(b"a\r\n   b"), b"a b".to_vec());
    assert_eq!(collapse_ws(b"a\nb"), b"a b".to_vec());
    assert_eq!(collapse_ws(b" a "), b" a ".to_vec());
    assert_eq!(collapse_ws(b"plain"), b"plain".to_vec());
}

fn tar_with_manifest(manifest: &str) -> Vec<u8> {
    let mut builder = tar::Builder::new(Vec::new());
    let bytes = manifest.as_bytes();
    let mut header = tar::Header::new_gnu();
    header.set_size(bytes.len() as u64);
    header.set_mode(0o644);
    header.set_cksum();
    builder
        .append_data(&mut header, "package.xml", bytes)
        .unwrap();
    builder.into_inner().unwrap()
}

#[test]
fn test_read_package_archive() {
    let tar_bytes = tar_with_manifest(MANIFEST);
    let info = read_package_archive(
        &tar_bytes,
        b"com.example.foo",
        &v("1.2.3"),
        Some(1_626_800_000),
    )
    .unwrap();
    assert_eq!(info.data.name, b"com.example.foo".to_vec());
    assert_eq!(info.data.package_information.version, v("1.2.3"));
    assert_eq!(info.mtime, Some(1_626_800_000));
    // Display strings come out normalized.
    assert_eq!(info.data.package_information.name[0].name, b"Example Package".to_vec());
    assert_eq!(info.data.author_information.author, b"Jane Doe".to_vec());
    // The recorded hash is the hex SHA-256 of the archive bytes.
    let expected: Vec<u8> = {
        let digest = <sha2::Sha256 as sha2::digest::Digest>::digest(&tar_bytes);
        let mut out = Vec::new();
        for b in digest {
            let hex = b"0123456789abcdef";
            out.push(hex[(b >> 4) as usize]);
            out.push(hex[(b & 15) as usize]);
        }
        out
    };
    assert_eq!(info.hash, expected);

    // Mismatching names and versions reject the archive.
    assert!(read_package_archive(&tar_bytes, b"com.example.bar", &v("1.2.3"), None).is_err());
    assert!(read_package_archive(&tar_bytes, b"com.example.foo", &v("1.2.4"), None).is_err());
    assert!(read_package_archive(b"not a tar", b"com.example.foo", &v("1.2.3"), None).is_err());
}

#[test]
fn test_hex_rendering() {
    assert_eq!(to_hex(b"\x00\xff\x10"), b"00ff10".to_vec());
    assert_eq!(to_hex(b""), b"".to_vec());
}

#[test]
fn test_classify_package_entries() {
    assert_eq!(
        classify_package_entry(b".hidden", true),
        PackageDirAction::SkipDotfile
    );
    assert_eq!(
        classify_package_entry(b"auth.json", true),
        PackageDirAction::SkipAuthFile
    );
    assert_eq!(
        classify_package_entry(b"auth.json.example", true),
        PackageDirAction::SkipAuthFile
    );
    assert_eq!(
        classify_package_entry(b"notdotted", true),
        PackageDirAction::SkipInvalidId
    );
    assert_eq!(
        classify_package_entry(b"two.parts", true),
        PackageDirAction::SkipInvalidId
    );
    assert_eq!(
        classify_package_entry(b"com.example.foo", false),
        PackageDirAction::SkipNotDirectory
    );
    assert_eq!(
        classify_package_entry(b"com.example.foo", true),
        PackageDirAction::Scan
    );
}

#[test]
fn test_package_id_syntax() {
    assert!(is_package_id(b"com.example.foo"));
    assert!(is_package_id(b"a.b.c.d"));
    assert!(is_package_id(b"A-1_x.B2.c"));
    assert!(!is_package_id(b"a.b"));
    assert!(!is_package_id(b"a..b.c"));
    assert!(!is_package_id(b".a.b.c"));
    assert!(!is_package_id(b"a.b.c."));
    assert!(!is_package_id(b"a.b.c!"));
    assert!(!is_package_id(b""));
}

#[test]
fn test_classify_version_files() {
    assert_eq!(
        classify_version_file(b".hidden", true),
        VersionFileAction::SkipDotfile
    );
    assert_eq!(
        classify_version_file(b"readme.tar", true),
        VersionFileAction::SkipUnparsedVersion
    );
    assert_eq!(
        classify_version_file(b"1.2.3.tar", false),
        VersionFileAction::SkipNotFile
    );
    assert_eq!(
        classify_version_file(b"1.2.3.txt", true),
        VersionFileAction::CounterFile
    );
    assert_eq!(
        classify_version_file(b"1.2.3.zip", true),
        VersionFileAction::SkipNotTar
    );
    assert_eq!(
        classify_version_file(b"1.2.3.tar", true),
        VersionFileAction::Tar(v("1.2.3"))
    );
    assert_eq!(
        classify_version_file(b"1.2.3_pl_4.tar", true),
        VersionFileAction::Tar(Version::new(
            1,
            2,
            3,
            Some(Suffix::new(SuffixType::PatchLevel, 4))
        ))
    );
}

fn entry(version: &str) -> PackageInfo {
    let tar_bytes = tar_with_manifest(&format!(
        r#"<package name="a.b.c"><packageinformation><version>{}</version></packageinformation></package>"#,
        version
    ));
    read_package_archive(&tar_bytes, b"a.b.c", &v(version), None).unwrap()
}

#[test]
fn test_sorting() {
    let unsorted = vec![entry("2.0.0"), entry("1.0.0 Beta 1"), entry("1.0.0")];
    let sorted = sort_versions(unsorted);
    let versions: Vec<Version> = sorted
        .iter()
        .map(|e| e.data.package_information.version)
        .collect();
    assert_eq!(versions, vec![v("1.0.0 Beta 1"), v("1.0.0"), v("2.0.0")]);

    let tar_b = tar_with_manifest(
        r#"<package name="b.b.b"><packageinformation><version>1.0.0</version></packageinformation></package>"#,
    );
    let pkg_b = vec![read_package_archive(&tar_b, b"b.b.b", &v("1.0.0"), None).unwrap()];
    let tar_a = tar_with_manifest(
        r#"<package name="a.a.a"><packageinformation><version>1.0.0</version></packageinformation></package>"#,
    );
    let pkg_a = vec![read_package_archive(&tar_a, b"a.a.a", &v("1.0.0"), None).unwrap()];
    let sorted = sort_packages(vec![pkg_b, pkg_a]);
    assert_eq!(sorted[0][0].data.name, b"a.a.a".to_vec());
    assert_eq!(sorted[1][0].data.name, b"b.b.b".to_vec());
}

#[test]
fn test_counter_values() {
    assert_eq!(parse_counter(b"0"), Some(0));
    assert_eq!(parse_counter(b"42"), Some(42));
    assert_eq!(parse_counter(b"+42"), Some(42));
    assert_eq!(parse_counter(b""), None);
    assert_eq!(parse_counter(b"4 2"), None);
    assert_eq!(parse_counter(b"-1"), None);
    assert_eq!(parse_counter(b"18446744073709551615"), Some(u64::MAX));
    assert_eq!(parse_counter(b"18446744073709551616"), None);

    assert_eq!(format_counter(0), b"0".to_vec());
    assert_eq!(format_counter(1234), b"1234".to_vec());
    for n in [0u64, 1, 9, 10, 99, 12345678901234567] {
        assert_eq!(parse_counter(&format_counter(n)), Some(n));
    }

    assert_eq!(initial_count(None), 0);
    assert_eq!(initial_count(Some(b"7")), 7);
    assert_eq!(initial_count(Some(b"junk")), 0);
    assert_eq!(increment_count(7), 8);
    assert_eq!(
        parse_counter(&format_counter(increment_count(7))),
        Some(8)
    );
}

fn event(kind: WatchEventKind, path: &str) -> WatchEvent {
    WatchEvent {
        kind,
        paths: vec![path.as_bytes().to_vec()],
        needs_rescan: false,
        first_path_is_dir: false,
    }
}

#[test]
fn test_watcher_triggers() {
    let auth = b"/srv/packages/auth.json";
    assert!(path_matches(b"/srv/packages/com.example.foo/1.0.0.tar", auth));
    assert!(path_matches(b"/srv/packages/auth.json", auth));
    assert!(!path_matches(b"/srv/packages/com.example.foo/1.0.0.txt", auth));
    assert!(!path_matches(b"/srv/packages/.tar", auth));

    assert!(should_scan(
        &event(WatchEventKind::CreateFile, "/srv/packages/p.q.r/1.0.0.tar"),
        auth
    ));
    assert!(!should_scan(
        &event(WatchEventKind::CreateFile, "/srv/packages/p.q.r/notes.txt"),
        auth
    ));
    assert!(should_scan(
        &event(WatchEventKind::CreateFolder, "/srv/packages/p.q.r"),
        auth
    ));
    assert!(should_scan(
        &event(WatchEventKind::ModifyData, "/srv/packages/auth.json"),
        auth
    ));
    assert!(!should_scan(&event(WatchEventKind::Other, "/srv/packages/x"), auth));
    let mut rescan = event(WatchEventKind::Other, "/ignored");
    rescan.needs_rescan = true;
    assert!(should_scan(&rescan, auth));

    let mut rename = event(WatchEventKind::RenameBoth, "/srv/packages/a.txt");
    rename.paths.push(b"/srv/packages/b.tar".to_vec());
    assert!(should_scan(&rename, auth));
}

#[test]
fn test_batch_starts_at_most_one_scan() {
    let auth = b"/srv/packages/auth.json";
    let batch = vec![
        event(WatchEventKind::Other, "/srv/x"),
        event(WatchEventKind::CreateFile, "/srv/packages/p.q.r/1.0.0.tar"),
        event(WatchEventKind::CreateFile, "/srv/packages/p.q.r/2.0.0.tar"),
    ];
    assert_eq!(first_trigger(&batch, auth), Some(1));
    let quiet = vec![
        event(WatchEventKind::Other, "/srv/x"),
        event(WatchEventKind::CreateFile, "/srv/packages/p.q.r/notes.txt"),
    ];
    assert_eq!(first_trigger(&quiet, auth), None);
}

#[test]
fn test_conditional_requests() {
    let tag = EntityTag {
        weak: false,
        tag: b"abc".to_vec(),
    };
    let weak_twin = EntityTag {
        weak: true,
        tag: b"abc".to_vec(),
    };
    let other = EntityTag {
        weak: false,
        tag: b"xyz".to_vec(),
    };
    assert!(!none_match(Some(&tag), Some(&IfNoneMatch::Any)));
    assert!(!none_match(
        Some(&tag),
        Some(&IfNoneMatch::Items(vec![weak_twin]))
    ));
    assert!(none_match(Some(&tag), Some(&IfNoneMatch::Items(vec![other]))));
    assert!(none_match(Some(&tag), None));

    let matching = IfNoneMatch::Items(vec![EntityTag {
        weak: false,
        tag: b"abc".to_vec(),
    }]);
    assert!(not_modified(Some(&tag), Some(&matching), None, None));
    let missing = IfNoneMatch::Items(vec![EntityTag {
        weak: false,
        tag: b"zzz".to_vec(),
    }]);
    assert!(!not_modified(Some(&tag), Some(&missing), Some(5), Some(9)));
    assert!(not_modified(Some(&tag), None, Some(5), Some(9)));
    assert!(not_modified(Some(&tag), None, Some(9), Some(9)));
    assert!(!not_modified(Some(&tag), None, Some(10), Some(9)));
    assert!(!not_modified(Some(&tag), None, None, Some(9)));
}

#[test]
fn test_etag_content_forms() {
    assert_eq!(etag_content(7, b"en-US", None, None), b"7,en-US".to_vec());
    assert_eq!(
        etag_content(7, b"en-US", Some(b"alice"), None),
        b"7,en-US,alice,".to_vec()
    );
    assert_eq!(
        etag_content(7, b"en-US", None, Some(b"de")),
        b"7,en-US,,de".to_vec()
    );
    assert_eq!(
        etag_content(7, b"en-US", Some(b"alice"), Some(b"de")),
        b"7,en-US,alice,de".to_vec()
    );
}

fn range(kind: &str, subtype: &str) -> MediaRange {
    MediaRange {
        kind: kind.as_bytes().to_vec(),
        subtype: subtype.as_bytes().to_vec(),
    }
}

#[test]
fn test_xml_accept_check() {
    assert!(xml_acceptable(None));
    assert!(xml_acceptable(Some(&Vec::new())));
    assert!(xml_acceptable(Some(&vec![range("text", "xml")])));
    assert!(xml_acceptable(Some(&vec![range("*", "*")])));
    assert!(xml_acceptable(Some(&vec![
        range("application", "json"),
        range("text", "xml")
    ])));
    // The literal scenario: Accept: application/json alone is refused.
    assert!(!xml_acceptable(Some(&vec![range("application", "json")])));
    assert!(!xml_acceptable(Some(&vec![range("text", "html")])));
}

#[test]
fn test_download_outcomes() {
    assert_eq!(
        download_outcome(true, FileOpen::Opened, true, None, true),
        DownloadOutcome::Serve { count: true }
    );
    assert_eq!(
        download_outcome(true, FileOpen::Opened, true, None, false),
        DownloadOutcome::Serve { count: false }
    );
    assert_eq!(
        download_outcome(true, FileOpen::NotFound, false, None, true),
        DownloadOutcome::UnknownPackageVersion
    );
    assert_eq!(
        download_outcome(true, FileOpen::Failed, true, None, true),
        DownloadOutcome::PackageReadFailed
    );
    let v21 = b"2.1".to_vec();
    assert_eq!(
        download_outcome(false, FileOpen::NotFound, true, Some(&v21), true),
        DownloadOutcome::PaymentRequired
    );
    let v20 = b"2.0".to_vec();
    assert_eq!(
        download_outcome(false, FileOpen::NotFound, true, Some(&v20), true),
        DownloadOutcome::AccessDenied
    );
    assert_eq!(
        download_outcome(false, FileOpen::NotFound, true, None, true),
        DownloadOutcome::AccessDenied
    );
    assert_eq!(
        download_outcome(false, FileOpen::NotFound, false, Some(&v21), true),
        DownloadOutcome::UnknownPackage
    );
}

#[test]
fn test_request_merge() {
    let form = DownloadRequest {
        api_version: Some(b"2.1".to_vec()),
        package_name: None,
        package_version: Some(b"1.0.0".to_vec()),
    };
    let query = DownloadRequest {
        api_version: Some(b"2.0".to_vec()),
        package_name: Some(b"com.example.foo".to_vec()),
        package_version: None,
    };
    let merged = DownloadRequest::merge(form, query);
    assert_eq!(merged.api_version, Some(b"2.1".to_vec()));
    assert_eq!(merged.package_name, Some(b"com.example.foo".to_vec()));
    assert_eq!(merged.package_version, Some(b"1.0.0".to_vec()));
}

#[test]
fn test_locations() {
    assert_eq!(
        download_location(
            b"https://host",
            b"com.example.foo",
            &Version::new(1, 2, 3, Some(Suffix::new(SuffixType::Alpha, 1)))
        ),
        b"https://host/com.example.foo/1.2.3_alpha_1/".to_vec()
    );
    // The form-parameter redirect of the main endpoint.
    assert_eq!(
        package_location(b"https://host", b"com.example.foo", Some(&b"1.2.3".to_vec())),
        b"https://host/com.example.foo/1.2.3/".to_vec()
    );
    assert_eq!(
        package_location(b"https://host", b"com.example.foo", None),
        b"https://host/com.example.foo/".to_vec()
    );
    assert_eq!(
        RedirectType::Other(b"https://host/x/".to_vec()).status_code(),
        303
    );
    assert_eq!(RedirectType::Permanent(b"/".to_vec()).status_code(), 308);
    assert_eq!(
        RedirectType::Other(b"https://host/x/".to_vec()).to(),
        b"https://host/x/".to_vec()
    );
}

#[test]
fn test_latest_accessible_redirect() {
    let mut auth = AuthData::new();
    auth.packages = vec![(
        package_server::auth::types::PackageName::new(b"com.example.foo".to_vec()),
        package_server::acl::Ruleset::parser(b"1.0.0 <= $v < 2.0.0").unwrap(),
    )];
    let anon = AuthInfo { username: None };
    let versions = vec![entry_named("com.example.foo", "1.0.0"), entry_named(
        "com.example.foo",
        "1.5.1",
    ), entry_named("com.example.foo", "2.0.0")];
    let packages = vec![versions];
    let pkg = find_package(&packages, b"com.example.foo").unwrap();
    let latest = latest_accessible(pkg, b"com.example.foo", &anon, &auth).unwrap();
    assert_eq!(pkg[latest].data.package_information.version, v("1.5.1"));
    let location = download_location(
        b"https://host",
        b"com.example.foo",
        &pkg[latest].data.package_information.version,
    );
    assert_eq!(location, b"https://host/com.example.foo/1.5.1/".to_vec());
    assert!(find_package(&packages, b"com.example.bar").is_none());
}

fn entry_named(name: &str, version: &str) -> PackageInfo {
    let tar_bytes = tar_with_manifest(&format!(
        r#"<package name="{}"><packageinformation><version>{}</version></packageinformation></package>"#,
        name, version
    ));
    read_package_archive(&tar_bytes, name.as_bytes(), &v(version), None).unwrap()
}

#[test]
fn test_download_filename() {
    assert_eq!(
        package_server::http::download::download_filename(b"com.example.foo", b"1.2.3"),
        b"com.example.foo_v1.2.3.tar".to_vec()
    );
}

#[test]
fn test_ranged_download_decision() {
    // A user whose ruleset covers the requested version is served the
    // file; outside the range the request is denied or upgraded to
    // payment-required.
    let mut auth = AuthData::new();
    auth.packages = vec![(
        package_server::auth::types::PackageName::new(b"com.example.foo".to_vec()),
        package_server::acl::Ruleset::parser(b"1.0.0 <= $v < 2.0.0").unwrap(),
    )];
    let anon = AuthInfo { username: None };
    let ok = package_server::http::helpers::is_accessible(
        b"com.example.foo",
        &v("1.2.3"),
        &anon,
        &auth,
    );
    assert!(ok);
    assert_eq!(
        download_outcome(ok, FileOpen::Opened, true, None, true),
        DownloadOutcome::Serve { count: true }
    );
    let denied = package_server::http::helpers::is_accessible(
        b"com.example.foo",
        &v("0.9.0"),
        &anon,
        &auth,
    );
    assert!(!denied);
    let v21 = b"2.1".to_vec();
    assert_eq!(
        download_outcome(denied, FileOpen::NotFound, true, Some(&v21), true),
        DownloadOutcome::PaymentRequired
    );
}

#[test]
fn test_error_status_codes() {
    assert_eq!(Error::AccessDenied.status_code(), 401);
    assert_eq!(Error::FileNotFound(b"x".to_vec()).status_code(), 404);
    assert_eq!(Error::NotAcceptable(b"application/json".to_vec()).status_code(), 406);
    assert_eq!(Error::UnknownPackage(b"a.b.c".to_vec()).status_code(), 404);
    assert_eq!(
        Error::UnknownPackageVersion(b"a.b.c".to_vec(), v("1.0.0")).status_code(),
        404
    );
    assert_eq!(Error::PackageReadFailed(b"a.b.c".to_vec()).status_code(), 500);
    assert_eq!(
        Error::PaymentRequired(b"a.b.c".to_vec(), v("1.0.0")).status_code(),
        402
    );
    assert_eq!(Error::PackageListUnavailable.status_code(), 503);

    let denied = download_error(
        &DownloadOutcome::AccessDenied,
        b"a.b.c",
        &v("1.0.0"),
    )
    .unwrap();
    assert!(matches!(denied, Error::AccessDenied));
    let paid = download_error(
        &DownloadOutcome::PaymentRequired,
        b"a.b.c",
        &v("0.9.0"),
    )
    .unwrap();
    assert_eq!(paid.status_code(), 402);
    assert!(download_error(
        &DownloadOutcome::Serve { count: true },
        b"a.b.c",
        &v("1.0.0")
    )
    .is_none());
}

#[test]
fn test_license_line_feeds() {
    // A line feed is consumable only as the whitespace before the URL
    // part; anywhere else the license is dropped.
    assert!(License::try_from(b"A\nB").is_none());
    assert!(License::try_from(b"GPL\nv3 or later").is_none());
    let split_at_newline = License::try_from(b"MIT\n<https://example.com>").unwrap();
    assert_eq!(split_at_newline.value, b"MIT".to_vec());
    assert_eq!(split_at_newline.url, Some(b"https://example.com/".to_vec()));
    assert!(License::try_from(b"MIT <https://example.com\n>").is_none());
}

#[test]
fn test_tar_entry_selection() {
    // The manifest must be named exactly `package.xml`, whatever
    // directory it sits in; other files are passed over.
    let mut builder = tar::Builder::new(Vec::new());
    for (path, content) in [
        ("readme.txt", "hello"),
        ("nested/package.xml",
         r#"<package name="a.b.c"><packageinformation><version>1.0.0</version></packageinformation></package>"#),
    ] {
        let bytes = content.as_bytes();
        let mut header = tar::Header::new_gnu();
        header.set_size(bytes.len() as u64);
        header.set_mode(0o644);
        header.set_cksum();
        builder.append_data(&mut header, path, bytes).unwrap();
    }
    let tar_bytes = builder.into_inner().unwrap();
    let info = read_package_archive(&tar_bytes, b"a.b.c", &v("1.0.0"), None).unwrap();
    assert_eq!(info.data.name, b"a.b.c".to_vec());

    // An archive without a manifest is rejected as missing.
    let mut builder = tar::Builder::new(Vec::new());
    let bytes = b"no manifest";
    let mut header = tar::Header::new_gnu();
    header.set_size(bytes.len() as u64);
    header.set_mode(0o644);
    header.set_cksum();
    builder.append_data(&mut header, "other.xml", &bytes[..]).unwrap();
    let tar_bytes = builder.into_inner().unwrap();
    assert!(matches!(
        read_package_archive(&tar_bytes, b"a.b.c", &v("1.0.0"), None),
        Err(package_server::package::list::ArchiveError::MissingPackageXml)
    ));
}

#[test]
fn test_sortedness_check() {
    let sorted = vec![entry("1.0.0 Beta 1"), entry("1.0.0"), entry("2.0.0")];
    assert!(is_sorted_by_version(&sorted));
    let unsorted = vec![entry("2.0.0"), entry("1.0.0")];
    assert!(!is_sorted_by_version(&unsorted));
    assert!(is_sorted_by_version(&Vec::new()));
}
