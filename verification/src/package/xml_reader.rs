//! Reading a package manifest from an XML document.
//!
//! The document is turned into a plain tree of nodes; the manifest is
//! then interpreted from that tree: the root must be `package` with a
//! `name` attribute, recognized child blocks contribute their fields,
//! unknown elements are ignored, and for the list-valued blocks the last
//! occurrence wins.

use vstd::prelude::*;
use crate::package::xml::{
    langid_of, spec_compat_year, spec_license_of, AuthorInformation, Compatibility,
    ExcludedPackage, License, OptionalPackage, PackageDescription, PackageInformation,
    PackageName, PackageXML, RequiredPackage, UpdateInstruction, url_normalized_of,
};
use crate::version::Version;
use crate::version::syntax::spec_parse_version;

verus! {

/// An XML element as a plain value: its name, attributes, first text
/// child, and children, with non-element nodes marked.
#[derive(Debug)]
pub struct XmlNode {
    pub name: Vec<u8>,
    pub attributes: Vec<(Vec<u8>, Vec<u8>)>,
    pub text: Option<Vec<u8>>,
    pub is_element: bool,
    pub children: Vec<XmlNode>,
}

/// Why a manifest cannot be read.
#[derive(Debug, Eq, PartialEq, Clone, Copy, Structural)]
pub enum PackageXmlError {
    /// The document is not well-formed XML.
    XmlTree,
    /// The root element is not `package`.
    InvalidRoot,
    /// A required attribute is missing.
    MissingAttribute,
    /// A required element text is missing.
    MissingText,
    /// The version element does not hold a version.
    Nom,
    /// A language attribute does not hold a language identifier.
    InvalidLanguage,
    /// A compatibility entry is outside the supported range.
    InvalidCompatibility,
}

/// The spec-level rendering of a localized name.
pub struct SpecPackageName {
    pub name: Seq<u8>,
    pub language: Option<Seq<u8>>,
}

/// The spec-level rendering of a localized description.
pub struct SpecPackageDescription {
    pub description: Seq<u8>,
    pub language: Option<Seq<u8>>,
}

/// The spec-level rendering of a license.
pub struct SpecLicense {
    pub value: Seq<u8>,
    pub url: Option<Seq<u8>>,
}

/// The spec-level rendering of the `packageinformation` block.
pub struct SpecPackageInformation {
    pub name: Seq<SpecPackageName>,
    pub description: Seq<SpecPackageDescription>,
    pub url: Option<Seq<u8>>,
    pub is_application: bool,
    pub version: Version,
    pub date: Seq<u8>,
    pub license: Option<SpecLicense>,
}

/// The spec-level rendering of the `authorinformation` block.
pub struct SpecAuthorInformation {
    pub author: Seq<u8>,
    pub author_url: Option<Seq<u8>>,
}

/// The spec-level rendering of a whole manifest: required packages as
/// (identifier, minimum version), excluded packages as (identifier,
/// optional version).
pub struct SpecPackageXML {
    pub name: Seq<u8>,
    pub package_information: SpecPackageInformation,
    pub author_information: SpecAuthorInformation,
    pub required_packages: Seq<(Seq<u8>, Seq<u8>)>,
    pub optional_packages: Seq<Seq<u8>>,
    pub excluded_packages: Seq<(Seq<u8>, Option<Seq<u8>>)>,
    pub instructions: Seq<Seq<u8>>,
    pub compatibility: Seq<u16>,
}

pub open spec fn view_opt(v: Option<Vec<u8>>) -> Option<Seq<u8>> {
    match v {
        Some(x) => Some(x@),
        None => None,
    }
}

pub open spec fn view_info(p: PackageInformation) -> SpecPackageInformation {
    SpecPackageInformation {
        name: Seq::new(
            p.name@.len(),
            |i: int|
                SpecPackageName {
                    name: p.name@[i].name@,
                    language: view_opt(p.name@[i].language),
                },
        ),
        description: Seq::new(
            p.description@.len(),
            |i: int|
                SpecPackageDescription {
                    description: p.description@[i].description@,
                    language: view_opt(p.description@[i].language),
                },
        ),
        url: view_opt(p.url),
        is_application: p.is_application,
        version: p.version,
        date: p.date@,
        license: match p.license {
            Some(l) => Some(SpecLicense { value: l.value@, url: view_opt(l.url) }),
            None => None,
        },
    }
}

pub open spec fn view_manifest(p: PackageXML) -> SpecPackageXML {
    SpecPackageXML {
        name: p.name@,
        package_information: view_info(p.package_information),
        author_information: SpecAuthorInformation {
            author: p.author_information.author@,
            author_url: view_opt(p.author_information.author_url),
        },
        required_packages: Seq::new(
            p.required_packages@.len(),
            |i: int| (p.required_packages@[i].identifier@, p.required_packages@[i].min_version@),
        ),
        optional_packages: Seq::new(
            p.optional_packages@.len(),
            |i: int| p.optional_packages@[i].identifier@,
        ),
        excluded_packages: Seq::new(
            p.excluded_packages@.len(),
            |i: int|
                (p.excluded_packages@[i].identifier@, view_opt(p.excluded_packages@[i].version)),
        ),
        instructions: Seq::new(p.instructions@.len(), |i: int| p.instructions@[i].from_version@),
        compatibility: Seq::new(p.compatibility@.len(), |i: int| p.compatibility@[i].0),
    }
}

/// The name of the root element a manifest document must carry.
pub open spec fn tag_package() -> Seq<u8> {
    seq![112u8, 97u8, 99u8, 107u8, 97u8, 103u8, 101u8]
}

/// A manifest with its display strings whitespace-normalized: package
/// names, descriptions, the author and the author URL collapse their
/// whitespace runs; everything else is unchanged.
pub open spec fn spec_normalize_manifest(m: SpecPackageXML) -> SpecPackageXML {
    SpecPackageXML {
        package_information: SpecPackageInformation {
            name: Seq::new(
                m.package_information.name.len(),
                |i: int|
                    SpecPackageName {
                        name: crate::package::xml::spec_collapse_ws(
                            m.package_information.name[i].name,
                        ),
                        language: m.package_information.name[i].language,
                    },
            ),
            description: Seq::new(
                m.package_information.description.len(),
                |i: int|
                    SpecPackageDescription {
                        description: crate::package::xml::spec_collapse_ws(
                            m.package_information.description[i].description,
                        ),
                        language: m.package_information.description[i].language,
                    },
            ),
            ..m.package_information
        },
        author_information: SpecAuthorInformation {
            author: crate::package::xml::spec_collapse_ws(m.author_information.author),
            author_url: match m.author_information.author_url {
                Some(u) => Some(crate::package::xml::spec_collapse_ws(u)),
                None => None,
            },
        },
        ..m
    }
}

/// The first attribute stored under the name, if any.
pub open spec fn spec_attr_from(attrs: Seq<(Vec<u8>, Vec<u8>)>, key: Seq<u8>, i: int) -> Option<
    Seq<u8>,
>
    decreases attrs.len() - i,
{
    if i < 0 || i >= attrs.len() {
        None
    } else if attrs[i].0@ == key {
        Some(attrs[i].1@)
    } else {
        spec_attr_from(attrs, key, i + 1)
    }
}

pub open spec fn spec_attr(n: XmlNode, key: Seq<u8>) -> Option<Seq<u8>> {
    spec_attr_from(n.attributes@, key, 0)
}

/// Looks up an attribute by name; the first match wins.
fn attr<'a>(n: &'a XmlNode, key: &[u8]) -> (r: Option<&'a Vec<u8>>)
    ensures
        match r {
            Some(v) => spec_attr(*n, key@) == Some(v@),
            None => spec_attr(*n, key@) is None,
        },
{
    let mut i: usize = 0;
    while i < n.attributes.len()
        invariant
            0 <= i <= n.attributes@.len(),
            spec_attr(*n, key@) == spec_attr_from(n.attributes@, key@, i as int),
        decreases n.attributes@.len() - i,
    {
        if crate::auth::types::compare_bytes(n.attributes[i].0.as_slice(), key) {
            return Some(&n.attributes[i].1);
        }
        i = i + 1;
    }
    None
}

pub open spec fn tag_packageinformation() -> Seq<u8> {
    seq![
        112u8, 97u8, 99u8, 107u8, 97u8, 103u8, 101u8, 105u8, 110u8, 102u8, 111u8, 114u8, 109u8,
        97u8, 116u8, 105u8, 111u8, 110u8,
    ]
}

pub open spec fn tag_authorinformation() -> Seq<u8> {
    seq![
        97u8, 117u8, 116u8, 104u8, 111u8, 114u8, 105u8, 110u8, 102u8, 111u8, 114u8, 109u8, 97u8,
        116u8, 105u8, 111u8, 110u8,
    ]
}

pub open spec fn tag_requiredpackages() -> Seq<u8> {
    seq![
        114u8, 101u8, 113u8, 117u8, 105u8, 114u8, 101u8, 100u8, 112u8, 97u8, 99u8, 107u8, 97u8,
        103u8, 101u8, 115u8,
    ]
}

pub open spec fn tag_optionalpackages() -> Seq<u8> {
    seq![
        111u8, 112u8, 116u8, 105u8, 111u8, 110u8, 97u8, 108u8, 112u8, 97u8, 99u8, 107u8, 97u8,
        103u8, 101u8, 115u8,
    ]
}

pub open spec fn tag_excludedpackages() -> Seq<u8> {
    seq![
        101u8, 120u8, 99u8, 108u8, 117u8, 100u8, 101u8, 100u8, 112u8, 97u8, 99u8, 107u8, 97u8,
        103u8, 101u8, 115u8,
    ]
}

pub open spec fn tag_instructions() -> Seq<u8> {
    seq![105u8, 110u8, 115u8, 116u8, 114u8, 117u8, 99u8, 116u8, 105u8, 111u8, 110u8, 115u8]
}

pub open spec fn tag_compatibility() -> Seq<u8> {
    seq![99u8, 111u8, 109u8, 112u8, 97u8, 116u8, 105u8, 98u8, 105u8, 108u8, 105u8, 116u8, 121u8]
}

/// What interpreting the `packageinformation` children from index `i`
/// with an accumulated block yields.
pub open spec fn spec_info_fold(
    children: Seq<XmlNode>,
    i: int,
    acc: SpecPackageInformation,
) -> Result<SpecPackageInformation, PackageXmlError>
    decreases children.len() - i,
{
    if i < 0 || i >= children.len() {
        Ok(acc)
    } else {
        let c = children[i];
        if !c.is_element {
            spec_info_fold(children, i + 1, acc)
        } else if c.name@ == seq![
            112u8, 97u8, 99u8, 107u8, 97u8, 103u8, 101u8, 110u8, 97u8, 109u8, 101u8,
        ] {
            match c.text {
                None => Err(PackageXmlError::MissingText),
                Some(t) => match spec_lang_attr(c) {
                    Err(e) => Err(e),
                    Ok(lang) => spec_info_fold(
                        children,
                        i + 1,
                        SpecPackageInformation {
                            name: acc.name.push(SpecPackageName { name: t@, language: lang }),
                            ..acc
                        },
                    ),
                },
            }
        } else if c.name@ == seq![
            112u8, 97u8, 99u8, 107u8, 97u8, 103u8, 101u8, 100u8, 101u8, 115u8, 99u8, 114u8, 105u8,
            112u8, 116u8, 105u8, 111u8, 110u8,
        ] {
            match spec_lang_attr(c) {
                Err(e) => Err(e),
                Ok(lang) => spec_info_fold(
                    children,
                    i + 1,
                    SpecPackageInformation {
                        description: acc.description.push(
                            SpecPackageDescription {
                                description: match c.text {
                                    Some(t) => t@,
                                    None => Seq::<u8>::empty(),
                                },
                                language: lang,
                            },
                        ),
                        ..acc
                    },
                ),
            }
        } else if c.name@ == seq![117u8, 114u8, 108u8] {
            spec_info_fold(
                children,
                i + 1,
                SpecPackageInformation {
                    url: match c.text {
                        Some(t) => url_normalized_of(t@),
                        None => None,
                    },
                    ..acc
                },
            )
        } else if c.name@ == seq![
            105u8, 115u8, 97u8, 112u8, 112u8, 108u8, 105u8, 99u8, 97u8, 116u8, 105u8, 111u8, 110u8,
        ] {
            spec_info_fold(
                children,
                i + 1,
                SpecPackageInformation {
                    is_application: match c.text {
                        Some(t) => t@ == seq![49u8],
                        None => false,
                    },
                    ..acc
                },
            )
        } else if c.name@ == seq![118u8, 101u8, 114u8, 115u8, 105u8, 111u8, 110u8] {
            match c.text {
                None => Err(PackageXmlError::MissingText),
                Some(t) => match spec_parse_version(t@) {
                    Some((v, rest)) => if rest.len() == 0 {
                        spec_info_fold(
                            children,
                            i + 1,
                            SpecPackageInformation { version: v, ..acc },
                        )
                    } else {
                        Err(PackageXmlError::Nom)
                    },
                    None => Err(PackageXmlError::Nom),
                },
            }
        } else if c.name@ == seq![100u8, 97u8, 116u8, 101u8] {
            match c.text {
                None => Err(PackageXmlError::MissingText),
                Some(t) => spec_info_fold(
                    children,
                    i + 1,
                    SpecPackageInformation { date: t@, ..acc },
                ),
            }
        } else if c.name@ == seq![108u8, 105u8, 99u8, 101u8, 110u8, 115u8, 101u8] {
            spec_info_fold(
                children,
                i + 1,
                SpecPackageInformation {
                    license: match c.text {
                        Some(t) => match spec_license_of(t@) {
                            Some((value, url)) => Some(SpecLicense { value, url }),
                            None => None,
                        },
                        None => None,
                    },
                    ..acc
                },
            )
        } else {
            spec_info_fold(children, i + 1, acc)
        }
    }
}

/// What a node's optional `language` attribute denotes: no attribute is
/// no language; an attribute must hold a valid identifier, rendered
/// canonically.
pub open spec fn spec_lang_attr(c: XmlNode) -> Result<Option<Seq<u8>>, PackageXmlError> {
    match spec_attr(c, seq![108u8, 97u8, 110u8, 103u8, 117u8, 97u8, 103u8, 101u8]) {
        None => Ok(None),
        Some(l) => match langid_of(l) {
            Some(canon) => Ok(Some(canon)),
            None => Err(PackageXmlError::InvalidLanguage),
        },
    }
}

/// What interpreting the `authorinformation` children yields.
pub open spec fn spec_author_fold(
    children: Seq<XmlNode>,
    i: int,
    acc: SpecAuthorInformation,
) -> Result<SpecAuthorInformation, PackageXmlError>
    decreases children.len() - i,
{
    if i < 0 || i >= children.len() {
        Ok(acc)
    } else {
        let c = children[i];
        if !c.is_element {
            spec_author_fold(children, i + 1, acc)
        } else if c.name@ == seq![97u8, 117u8, 116u8, 104u8, 111u8, 114u8] {
            match c.text {
                None => Err(PackageXmlError::MissingText),
                Some(t) => spec_author_fold(
                    children,
                    i + 1,
                    SpecAuthorInformation { author: t@, ..acc },
                ),
            }
        } else if c.name@ == seq![97u8, 117u8, 116u8, 104u8, 111u8, 114u8, 117u8, 114u8, 108u8] {
            spec_author_fold(
                children,
                i + 1,
                SpecAuthorInformation {
                    author_url: match c.text {
                        Some(t) => Some(t@),
                        None => None,
                    },
                    ..acc
                },
            )
        } else {
            spec_author_fold(children, i + 1, acc)
        }
    }
}

/// What the `requiredpackage` items of a `requiredpackages` block
/// yield: each needs its text and a `minversion` attribute.
pub open spec fn spec_required_fold(children: Seq<XmlNode>, i: int, acc: Seq<(Seq<u8>, Seq<u8>)>) -> Result<
    Seq<(Seq<u8>, Seq<u8>)>,
    PackageXmlError,
>
    decreases children.len() - i,
{
    if i < 0 || i >= children.len() {
        Ok(acc)
    } else {
        let c = children[i];
        if c.is_element && c.name@ == seq![
            114u8, 101u8, 113u8, 117u8, 105u8, 114u8, 101u8, 100u8, 112u8, 97u8, 99u8, 107u8,
            97u8, 103u8, 101u8,
        ] {
            match c.text {
                None => Err(PackageXmlError::MissingText),
                Some(t) => match spec_attr(
                    c,
                    seq![109u8, 105u8, 110u8, 118u8, 101u8, 114u8, 115u8, 105u8, 111u8, 110u8],
                ) {
                    None => Err(PackageXmlError::MissingAttribute),
                    Some(mv) => spec_required_fold(children, i + 1, acc.push((t@, mv))),
                },
            }
        } else {
            spec_required_fold(children, i + 1, acc)
        }
    }
}

/// What the `optionalpackage` items of an `optionalpackages` block
/// yield: each needs its text.
pub open spec fn spec_optional_fold(children: Seq<XmlNode>, i: int, acc: Seq<Seq<u8>>) -> Result<
    Seq<Seq<u8>>,
    PackageXmlError,
>
    decreases children.len() - i,
{
    if i < 0 || i >= children.len() {
        Ok(acc)
    } else {
        let c = children[i];
        if c.is_element && c.name@ == seq![
            111u8, 112u8, 116u8, 105u8, 111u8, 110u8, 97u8, 108u8, 112u8, 97u8, 99u8, 107u8, 97u8,
            103u8, 101u8,
        ] {
            match c.text {
                None => Err(PackageXmlError::MissingText),
                Some(t) => spec_optional_fold(children, i + 1, acc.push(t@)),
            }
        } else {
            spec_optional_fold(children, i + 1, acc)
        }
    }
}

/// What the `excludedpackage` items of an `excludedpackages` block
/// yield: each needs its text; the `version` attribute is optional.
pub open spec fn spec_excluded_fold(
    children: Seq<XmlNode>,
    i: int,
    acc: Seq<(Seq<u8>, Option<Seq<u8>>)>,
) -> Result<Seq<(Seq<u8>, Option<Seq<u8>>)>, PackageXmlError>
    decreases children.len() - i,
{
    if i < 0 || i >= children.len() {
        Ok(acc)
    } else {
        let c = children[i];
        if c.is_element && c.name@ == seq![
            101u8, 120u8, 99u8, 108u8, 117u8, 100u8, 101u8, 100u8, 112u8, 97u8, 99u8, 107u8, 97u8,
            103u8, 101u8,
        ] {
            match c.text {
                None => Err(PackageXmlError::MissingText),
                Some(t) => spec_excluded_fold(
                    children,
                    i + 1,
                    acc.push(
                        (
                            t@,
                            spec_attr(
                                c,
                                seq![118u8, 101u8, 114u8, 115u8, 105u8, 111u8, 110u8],
                            ),
                        ),
                    ),
                ),
            }
        } else {
            spec_excluded_fold(children, i + 1, acc)
        }
    }
}

/// What the element items of a `compatibility` block yield: each needs a
/// `version` attribute naming a supported year.
pub open spec fn spec_compat_fold(children: Seq<XmlNode>, i: int, acc: Seq<u16>) -> Result<
    Seq<u16>,
    PackageXmlError,
>
    decreases children.len() - i,
{
    if i < 0 || i >= children.len() {
        Ok(acc)
    } else {
        let c = children[i];
        if c.is_element {
            match spec_attr(c, seq![118u8, 101u8, 114u8, 115u8, 105u8, 111u8, 110u8]) {
                None => Err(PackageXmlError::MissingAttribute),
                Some(v) => match spec_compat_year(v) {
                    None => Err(PackageXmlError::InvalidCompatibility),
                    Some(year) => spec_compat_fold(children, i + 1, acc.push(year)),
                },
            }
        } else {
            spec_compat_fold(children, i + 1, acc)
        }
    }
}

/// What one `instructions` block contributes: its `type` attribute is
/// required; only `update` blocks contribute, with their required
/// `fromversion` attribute.
pub open spec fn spec_instructions_of(c: XmlNode) -> Result<Seq<Seq<u8>>, PackageXmlError> {
    match spec_attr(c, seq![116u8, 121u8, 112u8, 101u8]) {
        None => Err(PackageXmlError::MissingAttribute),
        Some(t) => if t == seq![117u8, 112u8, 100u8, 97u8, 116u8, 101u8] {
            match spec_attr(
                c,
                seq![
                    102u8, 114u8, 111u8, 109u8, 118u8, 101u8, 114u8, 115u8, 105u8, 111u8, 110u8,
                ],
            ) {
                None => Err(PackageXmlError::MissingAttribute),
                Some(fv) => Ok(seq![fv]),
            }
        } else {
            Ok(Seq::<Seq<u8>>::empty())
        },
    }
}

/// What interpreting the root's children yields: recognized blocks
/// contribute, unknown elements are skipped; `instructions` blocks
/// append, the other list blocks replace what came before.
pub open spec fn spec_pkg_fold(children: Seq<XmlNode>, i: int, acc: SpecPackageXML) -> Result<
    SpecPackageXML,
    PackageXmlError,
>
    decreases children.len() - i,
{
    if i < 0 || i >= children.len() {
        Ok(acc)
    } else {
        let c = children[i];
        if !c.is_element {
            spec_pkg_fold(children, i + 1, acc)
        } else if c.name@ == tag_packageinformation() {
            match spec_info_fold(c.children@, 0, acc.package_information) {
                Err(e) => Err(e),
                Ok(info) => spec_pkg_fold(
                    children,
                    i + 1,
                    SpecPackageXML { package_information: info, ..acc },
                ),
            }
        } else if c.name@ == tag_authorinformation() {
            match spec_author_fold(c.children@, 0, acc.author_information) {
                Err(e) => Err(e),
                Ok(a) => spec_pkg_fold(
                    children,
                    i + 1,
                    SpecPackageXML { author_information: a, ..acc },
                ),
            }
        } else if c.name@ == tag_requiredpackages() {
            match spec_required_fold(c.children@, 0, Seq::empty()) {
                Err(e) => Err(e),
                Ok(rs) => spec_pkg_fold(
                    children,
                    i + 1,
                    SpecPackageXML { required_packages: rs, ..acc },
                ),
            }
        } else if c.name@ == tag_optionalpackages() {
            match spec_optional_fold(c.children@, 0, Seq::empty()) {
                Err(e) => Err(e),
                Ok(os) => spec_pkg_fold(
                    children,
                    i + 1,
                    SpecPackageXML { optional_packages: os, ..acc },
                ),
            }
        } else if c.name@ == tag_excludedpackages() {
            match spec_excluded_fold(c.children@, 0, Seq::empty()) {
                Err(e) => Err(e),
                Ok(es) => spec_pkg_fold(
                    children,
                    i + 1,
                    SpecPackageXML { excluded_packages: es, ..acc },
                ),
            }
        } else if c.name@ == tag_instructions() {
            match spec_instructions_of(c) {
                Err(e) => Err(e),
                Ok(fvs) => spec_pkg_fold(
                    children,
                    i + 1,
                    SpecPackageXML { instructions: acc.instructions + fvs, ..acc },
                ),
            }
        } else if c.name@ == tag_compatibility() {
            match spec_compat_fold(c.children@, 0, Seq::empty()) {
                Err(e) => Err(e),
                Ok(cs) => spec_pkg_fold(
                    children,
                    i + 1,
                    SpecPackageXML { compatibility: cs, ..acc },
                ),
            }
        } else {
            spec_pkg_fold(children, i + 1, acc)
        }
    }
}

/// The empty manifest a parse starts from, under a root name.
pub open spec fn spec_initial_manifest(name: Seq<u8>) -> SpecPackageXML {
    SpecPackageXML {
        name: name,
        package_information: SpecPackageInformation {
            name: Seq::empty(),
            description: Seq::empty(),
            url: None,
            is_application: false,
            version: Version { major: 0, minor: 0, patch: 0, suffix: None },
            date: Seq::<u8>::empty(),
            license: None,
        },
        author_information: SpecAuthorInformation {
            author: Seq::<u8>::empty(),
            author_url: None,
        },
        required_packages: Seq::empty(),
        optional_packages: Seq::empty(),
        excluded_packages: Seq::empty(),
        instructions: Seq::empty(),
        compatibility: Seq::empty(),
    }
}

/// What interpreting a root element as a manifest yields: the root must
/// carry a `name` attribute; its children then fold into the manifest.
pub open spec fn spec_parse_package(root: XmlNode) -> Result<SpecPackageXML, PackageXmlError> {
    match spec_attr(root, seq![110u8, 97u8, 109u8, 101u8]) {
        None => Err(PackageXmlError::MissingAttribute),
        Some(nm) => spec_pkg_fold(root.children@, 0, spec_initial_manifest(nm)),
    }
}

/// What reading a manifest from document bytes yields: unreadable XML
/// is the tree error, a root other than `package` the root error, and
/// otherwise the tree's interpretation, with its exact error.
pub open spec fn spec_read_manifest(bytes: Seq<u8>) -> Result<SpecPackageXML, PackageXmlError> {
    match xml_tree_of(bytes) {
        None => Err(PackageXmlError::XmlTree),
        Some(root) => if root.name@ != tag_package() {
            Err(PackageXmlError::InvalidRoot)
        } else {
            spec_parse_package(root)
        },
    }
}

/// Copies a byte string.
fn copy_bytes(v: &Vec<u8>) -> (r: Vec<u8>)
    ensures
        r@ == v@,
{
    vstd::slice::slice_to_vec(v.as_slice())
}

/// Copies an optional byte string.
fn copy_opt_bytes(v: &Option<Vec<u8>>) -> (r: Option<Vec<u8>>)
    ensures
        view_opt(r) == view_opt(*v),
{
    match v {
        Some(x) => Some(copy_bytes(x)),
        None => None,
    }
}

/// Reads a node's optional `language` attribute: absent is no language;
/// present, it must hold a valid identifier, which is canonicalized.
fn lang_attr(c: &XmlNode) -> (r: Result<Option<Vec<u8>>, PackageXmlError>)
    ensures
        match r {
            Ok(l) => spec_lang_attr(*c) == Ok::<Option<Seq<u8>>, PackageXmlError>(view_opt(l)),
            Err(e) => spec_lang_attr(*c) == Err::<Option<Seq<u8>>, PackageXmlError>(e),
        },
{
    let key: [u8; 8] = [108, 97, 110, 103, 117, 97, 103, 101];
    proof {
        assert(key@ =~= seq![108u8, 97u8, 110u8, 103u8, 117u8, 97u8, 103u8, 101u8]);
    }
    match attr(c, &key) {
        None => Ok(None),
        Some(l) => match crate::package::xml::langid_normalize(l.as_slice()) {
            Some(canon) => Ok(Some(canon)),
            None => Err(PackageXmlError::InvalidLanguage),
        },
    }
}

/// Interprets the children of a `packageinformation` block into the
/// accumulated block.
#[verifier::loop_isolation(false)]
fn parse_package_information(children: &Vec<XmlNode>, acc: PackageInformation) -> (r: Result<
    PackageInformation,
    PackageXmlError,
>)
    ensures
        match r {
            Ok(out) => spec_info_fold(children@, 0, view_info(acc)) == Ok::<
                SpecPackageInformation,
                PackageXmlError,
            >(view_info(out)),
            Err(e) => spec_info_fold(children@, 0, view_info(acc)) == Err::<
                SpecPackageInformation,
                PackageXmlError,
            >(e),
        },
{
    let t_packagename: [u8; 11] = [112, 97, 99, 107, 97, 103, 101, 110, 97, 109, 101];
    let t_packagedescription: [u8; 18] = [
        112,
        97,
        99,
        107,
        97,
        103,
        101,
        100,
        101,
        115,
        99,
        114,
        105,
        112,
        116,
        105,
        111,
        110,
    ];
    let t_url: [u8; 3] = [117, 114, 108];
    let t_isapplication: [u8; 13] = [105, 115, 97, 112, 112, 108, 105, 99, 97, 116, 105, 111, 110];
    let t_version: [u8; 7] = [118, 101, 114, 115, 105, 111, 110];
    let t_date: [u8; 4] = [100, 97, 116, 101];
    let t_license: [u8; 7] = [108, 105, 99, 101, 110, 115, 101];
    let mut cur = acc;
    let ghost init = view_info(cur);
    let mut i: usize = 0;
    while i < children.len()
        invariant
            0 <= i <= children@.len(),
            t_packagename@ =~= seq![
                112u8, 97u8, 99u8, 107u8, 97u8, 103u8, 101u8, 110u8, 97u8, 109u8, 101u8,
            ],
            t_packagedescription@ =~= seq![
                112u8, 97u8, 99u8, 107u8, 97u8, 103u8, 101u8, 100u8, 101u8, 115u8, 99u8, 114u8,
                105u8, 112u8, 116u8, 105u8, 111u8, 110u8,
            ],
            t_url@ =~= seq![117u8, 114u8, 108u8],
            t_isapplication@ =~= seq![
                105u8, 115u8, 97u8, 112u8, 112u8, 108u8, 105u8, 99u8, 97u8, 116u8, 105u8, 111u8,
                110u8,
            ],
            t_version@ =~= seq![118u8, 101u8, 114u8, 115u8, 105u8, 111u8, 110u8],
            t_date@ =~= seq![100u8, 97u8, 116u8, 101u8],
            t_license@ =~= seq![108u8, 105u8, 99u8, 101u8, 110u8, 115u8, 101u8],
            spec_info_fold(children@, 0, init) == spec_info_fold(
                children@,
                i as int,
                view_info(cur),
            ),
        decreases children@.len() - i,
    {
        let c = &children[i];
        if !c.is_element {
        } else if crate::auth::types::compare_bytes(c.name.as_slice(), &t_packagename) {
            let t = match &c.text {
                Some(t) => t,
                None => { return Err(PackageXmlError::MissingText); },
            };
            let lang = match lang_attr(c) {
                Ok(l) => l,
                Err(e) => { return Err(e); },
            };
            let ghost before = view_info(cur);
            cur.name.push(PackageName { name: copy_bytes(t), language: lang });
            proof {
                assert(view_info(cur).name =~= before.name.push(
                    SpecPackageName { name: t@, language: view_opt(lang) },
                ));
                assert(view_info(cur).description =~= before.description);
                assert(view_info(cur) == SpecPackageInformation {
                    name: before.name.push(
                        SpecPackageName { name: t@, language: view_opt(lang) },
                    ),
                    ..before
                });
            }
        } else if crate::auth::types::compare_bytes(c.name.as_slice(), &t_packagedescription) {
            let lang = match lang_attr(c) {
                Ok(l) => l,
                Err(e) => { return Err(e); },
            };
            let text = match &c.text {
                Some(t) => copy_bytes(t),
                None => Vec::new(),
            };
            let ghost before = view_info(cur);
            let ghost textv = text@;
            cur.description.push(PackageDescription { description: text, language: lang });
            proof {
                assert(view_info(cur).description =~= before.description.push(
                    SpecPackageDescription { description: textv, language: view_opt(lang) },
                ));
                assert(view_info(cur).name =~= before.name);
                assert(view_info(cur) == SpecPackageInformation {
                    description: before.description.push(
                        SpecPackageDescription { description: textv, language: view_opt(lang) },
                    ),
                    ..before
                });
            }
        } else if crate::auth::types::compare_bytes(c.name.as_slice(), &t_url) {
            let ghost before = view_info(cur);
            cur.url = match &c.text {
                Some(t) => crate::package::xml::url_normalize(t.as_slice()),
                None => None,
            };
            proof {
                assert(view_info(cur).name =~= before.name);
                assert(view_info(cur).description =~= before.description);
            }
        } else if crate::auth::types::compare_bytes(c.name.as_slice(), &t_isapplication) {
            let one: [u8; 1] = [49];
            let ghost before = view_info(cur);
            cur.is_application = match &c.text {
                Some(t) => crate::auth::types::compare_bytes(t.as_slice(), &one),
                None => false,
            };
            proof {
                assert(one@ =~= seq![49u8]);
                assert(view_info(cur).name =~= before.name);
                assert(view_info(cur).description =~= before.description);
            }
        } else if crate::auth::types::compare_bytes(c.name.as_slice(), &t_version) {
            let t = match &c.text {
                Some(t) => t,
                None => { return Err(PackageXmlError::MissingText); },
            };
            let v = match Version::try_from(t.as_slice()) {
                Some(v) => v,
                None => {
                    proof {
                        match spec_parse_version(t@) {
                            Some((pv, rest)) => {
                                if rest.len() == 0 {
                                    assert(rest =~= Seq::<u8>::empty());
                                }
                            },
                            None => {},
                        }
                    }
                    return Err(PackageXmlError::Nom);
                },
            };
            proof {
                match spec_parse_version(t@) {
                    Some((pv, rest)) => {
                        if rest.len() == 0 {
                            assert(rest =~= Seq::<u8>::empty());
                        }
                    },
                    None => {},
                }
            }
            let ghost before = view_info(cur);
            cur.version = v;
            proof {
                assert(view_info(cur).name =~= before.name);
                assert(view_info(cur).description =~= before.description);
            }
        } else if crate::auth::types::compare_bytes(c.name.as_slice(), &t_date) {
            let t = match &c.text {
                Some(t) => t,
                None => { return Err(PackageXmlError::MissingText); },
            };
            let ghost before = view_info(cur);
            cur.date = copy_bytes(t);
            proof {
                assert(view_info(cur).name =~= before.name);
                assert(view_info(cur).description =~= before.description);
            }
        } else if crate::auth::types::compare_bytes(c.name.as_slice(), &t_license) {
            let ghost before = view_info(cur);
            cur.license = match &c.text {
                Some(t) => License::try_from(t.as_slice()),
                None => None,
            };
            proof {
                assert(view_info(cur).name =~= before.name);
                assert(view_info(cur).description =~= before.description);
            }
        }
        i = i + 1;
    }
    Ok(cur)
}

/// Interprets the children of an `authorinformation` block into the
/// accumulated block.
#[verifier::loop_isolation(false)]
fn parse_author_information(children: &Vec<XmlNode>, acc: AuthorInformation) -> (r: Result<
    AuthorInformation,
    PackageXmlError,
>)
    ensures
        ({
            let accv = SpecAuthorInformation {
                author: acc.author@,
                author_url: view_opt(acc.author_url),
            };
            match r {
                Ok(out) => spec_author_fold(children@, 0, accv) == Ok::<
                    SpecAuthorInformation,
                    PackageXmlError,
                >(
                    SpecAuthorInformation {
                        author: out.author@,
                        author_url: view_opt(out.author_url),
                    },
                ),
                Err(e) => spec_author_fold(children@, 0, accv) == Err::<
                    SpecAuthorInformation,
                    PackageXmlError,
                >(e),
            }
        }),
{
    let t_author: [u8; 6] = [97, 117, 116, 104, 111, 114];
    let t_authorurl: [u8; 9] = [97, 117, 116, 104, 111, 114, 117, 114, 108];
    let mut cur = acc;
    let ghost init = SpecAuthorInformation {
        author: cur.author@,
        author_url: view_opt(cur.author_url),
    };
    let mut i: usize = 0;
    while i < children.len()
        invariant
            0 <= i <= children@.len(),
            t_author@ =~= seq![97u8, 117u8, 116u8, 104u8, 111u8, 114u8],
            t_authorurl@ =~= seq![97u8, 117u8, 116u8, 104u8, 111u8, 114u8, 117u8, 114u8, 108u8],
            spec_author_fold(children@, 0, init) == spec_author_fold(
                children@,
                i as int,
                SpecAuthorInformation { author: cur.author@, author_url: view_opt(cur.author_url) },
            ),
        decreases children@.len() - i,
    {
        let c = &children[i];
        if !c.is_element {
        } else if crate::auth::types::compare_bytes(c.name.as_slice(), &t_author) {
            let t = match &c.text {
                Some(t) => t,
                None => { return Err(PackageXmlError::MissingText); },
            };
            cur.author = copy_bytes(t);
        } else if crate::auth::types::compare_bytes(c.name.as_slice(), &t_authorurl) {
            cur.author_url = copy_opt_bytes(&c.text);
        }
        i = i + 1;
    }
    Ok(cur)
}

/// Interprets the items of a `requiredpackages` block.
#[verifier::loop_isolation(false)]
fn parse_required_packages(children: &Vec<XmlNode>) -> (r: Result<
    Vec<RequiredPackage>,
    PackageXmlError,
>)
    ensures
        ({
            let view = |out: Vec<RequiredPackage>|
                Seq::new(out@.len(), |i: int| (out@[i].identifier@, out@[i].min_version@));
            match r {
                Ok(out) => spec_required_fold(children@, 0, Seq::empty()) == Ok::<
                    Seq<(Seq<u8>, Seq<u8>)>,
                    PackageXmlError,
                >(Seq::new(out@.len(), |i: int| (out@[i].identifier@, out@[i].min_version@))),
                Err(e) => spec_required_fold(children@, 0, Seq::empty()) == Err::<
                    Seq<(Seq<u8>, Seq<u8>)>,
                    PackageXmlError,
                >(e),
            }
        }),
{
    let t_item: [u8; 15] = [114, 101, 113, 117, 105, 114, 101, 100, 112, 97, 99, 107, 97, 103, 101];
    let t_minversion: [u8; 10] = [109, 105, 110, 118, 101, 114, 115, 105, 111, 110];
    let mut out: Vec<RequiredPackage> = Vec::new();
    proof {
        assert(Seq::new(out@.len(), |k: int| (out@[k].identifier@, out@[k].min_version@))
            =~= Seq::<(Seq<u8>, Seq<u8>)>::empty());
    }
    let mut i: usize = 0;
    while i < children.len()
        invariant
            0 <= i <= children@.len(),
            t_item@ =~= seq![
                114u8, 101u8, 113u8, 117u8, 105u8, 114u8, 101u8, 100u8, 112u8, 97u8, 99u8, 107u8,
                97u8, 103u8, 101u8,
            ],
            t_minversion@ =~= seq![
                109u8, 105u8, 110u8, 118u8, 101u8, 114u8, 115u8, 105u8, 111u8, 110u8,
            ],
            spec_required_fold(children@, 0, Seq::empty()) == spec_required_fold(
                children@,
                i as int,
                Seq::new(out@.len(), |k: int| (out@[k].identifier@, out@[k].min_version@)),
            ),
        decreases children@.len() - i,
    {
        let c = &children[i];
        if c.is_element && crate::auth::types::compare_bytes(c.name.as_slice(), &t_item) {
            let t = match &c.text {
                Some(t) => t,
                None => { return Err(PackageXmlError::MissingText); },
            };
            let mv = match attr(c, &t_minversion) {
                Some(v) => v,
                None => { return Err(PackageXmlError::MissingAttribute); },
            };
            let ghost before = Seq::new(
                out@.len(),
                |k: int| (out@[k].identifier@, out@[k].min_version@),
            );
            out.push(RequiredPackage { identifier: copy_bytes(t), min_version: copy_bytes(mv) });
            proof {
                assert(Seq::new(
                    out@.len(),
                    |k: int| (out@[k].identifier@, out@[k].min_version@),
                ) =~= before.push((t@, mv@)));
            }
        }
        i = i + 1;
    }
    Ok(out)
}

/// Interprets the items of an `optionalpackages` block.
#[verifier::loop_isolation(false)]
fn parse_optional_packages(children: &Vec<XmlNode>) -> (r: Result<
    Vec<OptionalPackage>,
    PackageXmlError,
>)
    ensures
        match r {
            Ok(out) => spec_optional_fold(children@, 0, Seq::empty()) == Ok::<
                Seq<Seq<u8>>,
                PackageXmlError,
            >(Seq::new(out@.len(), |i: int| out@[i].identifier@)),
            Err(e) => spec_optional_fold(children@, 0, Seq::empty()) == Err::<
                Seq<Seq<u8>>,
                PackageXmlError,
            >(e),
        },
{
    let t_item: [u8; 15] = [111, 112, 116, 105, 111, 110, 97, 108, 112, 97, 99, 107, 97, 103, 101];
    let mut out: Vec<OptionalPackage> = Vec::new();
    proof {
        assert(Seq::new(out@.len(), |k: int| out@[k].identifier@) =~= Seq::<Seq<u8>>::empty());
    }
    let mut i: usize = 0;
    while i < children.len()
        invariant
            0 <= i <= children@.len(),
            t_item@ =~= seq![
                111u8, 112u8, 116u8, 105u8, 111u8, 110u8, 97u8, 108u8, 112u8, 97u8, 99u8, 107u8,
                97u8, 103u8, 101u8,
            ],
            spec_optional_fold(children@, 0, Seq::empty()) == spec_optional_fold(
                children@,
                i as int,
                Seq::new(out@.len(), |k: int| out@[k].identifier@),
            ),
        decreases children@.len() - i,
    {
        let c = &children[i];
        if c.is_element && crate::auth::types::compare_bytes(c.name.as_slice(), &t_item) {
            let t = match &c.text {
                Some(t) => t,
                None => { return Err(PackageXmlError::MissingText); },
            };
            let ghost before = Seq::new(out@.len(), |k: int| out@[k].identifier@);
            out.push(OptionalPackage { identifier: copy_bytes(t) });
            proof {
                assert(Seq::new(out@.len(), |k: int| out@[k].identifier@) =~= before.push(t@));
            }
        }
        i = i + 1;
    }
    Ok(out)
}

/// Interprets the items of an `excludedpackages` block.
#[verifier::loop_isolation(false)]
fn parse_excluded_packages(children: &Vec<XmlNode>) -> (r: Result<
    Vec<ExcludedPackage>,
    PackageXmlError,
>)
    ensures
        match r {
            Ok(out) => spec_excluded_fold(children@, 0, Seq::empty()) == Ok::<
                Seq<(Seq<u8>, Option<Seq<u8>>)>,
                PackageXmlError,
            >(Seq::new(out@.len(), |i: int| (out@[i].identifier@, view_opt(out@[i].version)))),
            Err(e) => spec_excluded_fold(children@, 0, Seq::empty()) == Err::<
                Seq<(Seq<u8>, Option<Seq<u8>>)>,
                PackageXmlError,
            >(e),
        },
{
    let t_item: [u8; 15] = [101, 120, 99, 108, 117, 100, 101, 100, 112, 97, 99, 107, 97, 103, 101];
    let t_version: [u8; 7] = [118, 101, 114, 115, 105, 111, 110];
    let mut out: Vec<ExcludedPackage> = Vec::new();
    proof {
        assert(Seq::new(out@.len(), |k: int| (out@[k].identifier@, view_opt(out@[k].version)))
            =~= Seq::<(Seq<u8>, Option<Seq<u8>>)>::empty());
    }
    let mut i: usize = 0;
    while i < children.len()
        invariant
            0 <= i <= children@.len(),
            t_item@ =~= seq![
                101u8, 120u8, 99u8, 108u8, 117u8, 100u8, 101u8, 100u8, 112u8, 97u8, 99u8, 107u8,
                97u8, 103u8, 101u8,
            ],
            t_version@ =~= seq![118u8, 101u8, 114u8, 115u8, 105u8, 111u8, 110u8],
            spec_excluded_fold(children@, 0, Seq::empty()) == spec_excluded_fold(
                children@,
                i as int,
                Seq::new(out@.len(), |k: int| (out@[k].identifier@, view_opt(out@[k].version))),
            ),
        decreases children@.len() - i,
    {
        let c = &children[i];
        if c.is_element && crate::auth::types::compare_bytes(c.name.as_slice(), &t_item) {
            let t = match &c.text {
                Some(t) => t,
                None => { return Err(PackageXmlError::MissingText); },
            };
            let version = match attr(c, &t_version) {
                Some(v) => Some(copy_bytes(v)),
                None => None,
            };
            let ghost before = Seq::new(
                out@.len(),
                |k: int| (out@[k].identifier@, view_opt(out@[k].version)),
            );
            let ghost vv = view_opt(version);
            out.push(ExcludedPackage { identifier: copy_bytes(t), version });
            proof {
                assert(Seq::new(
                    out@.len(),
                    |k: int| (out@[k].identifier@, view_opt(out@[k].version)),
                ) =~= before.push((t@, vv)));
            }
        }
        i = i + 1;
    }
    Ok(out)
}

/// Interprets the items of a `compatibility` block.
#[verifier::loop_isolation(false)]
fn parse_compatibility(children: &Vec<XmlNode>) -> (r: Result<Vec<Compatibility>, PackageXmlError>)
    ensures
        match r {
            Ok(out) => spec_compat_fold(children@, 0, Seq::empty()) == Ok::<
                Seq<u16>,
                PackageXmlError,
            >(Seq::new(out@.len(), |i: int| out@[i].0)),
            Err(e) => spec_compat_fold(children@, 0, Seq::empty()) == Err::<
                Seq<u16>,
                PackageXmlError,
            >(e),
        },
{
    let t_version: [u8; 7] = [118, 101, 114, 115, 105, 111, 110];
    let mut out: Vec<Compatibility> = Vec::new();
    proof {
        assert(Seq::new(out@.len(), |k: int| out@[k].0) =~= Seq::<u16>::empty());
    }
    let mut i: usize = 0;
    while i < children.len()
        invariant
            0 <= i <= children@.len(),
            t_version@ =~= seq![118u8, 101u8, 114u8, 115u8, 105u8, 111u8, 110u8],
            spec_compat_fold(children@, 0, Seq::empty()) == spec_compat_fold(
                children@,
                i as int,
                Seq::new(out@.len(), |k: int| out@[k].0),
            ),
        decreases children@.len() - i,
    {
        let c = &children[i];
        if c.is_element {
            let v = match attr(c, &t_version) {
                Some(v) => v,
                None => { return Err(PackageXmlError::MissingAttribute); },
            };
            let year = match Compatibility::try_from(v.as_slice()) {
                Some(y) => y,
                None => { return Err(PackageXmlError::InvalidCompatibility); },
            };
            let ghost before = Seq::new(out@.len(), |k: int| out@[k].0);
            out.push(year);
            proof {
                assert(Seq::new(out@.len(), |k: int| out@[k].0) =~= before.push(year.0));
            }
        }
        i = i + 1;
    }
    Ok(out)
}

/// Interprets a root element as a manifest: the root must carry a
/// `name` attribute; recognized child blocks contribute their fields,
/// unknown elements are ignored, and for the list-valued blocks the
/// last occurrence wins.
#[verifier::loop_isolation(false)]
pub fn parse_package(root: &XmlNode) -> (r: Result<PackageXML, PackageXmlError>)
    ensures
        match r {
            Ok(p) => spec_parse_package(*root) == Ok::<SpecPackageXML, PackageXmlError>(
                view_manifest(p),
            ),
            Err(e) => spec_parse_package(*root) == Err::<SpecPackageXML, PackageXmlError>(e),
        },
{
    let k_name: [u8; 4] = [110, 97, 109, 101];
    proof {
        assert(k_name@ =~= seq![110u8, 97u8, 109u8, 101u8]);
    }
    let name = match attr(root, &k_name) {
        Some(n) => copy_bytes(n),
        None => { return Err(PackageXmlError::MissingAttribute); },
    };
    let t_info: [u8; 18] = [
        112,
        97,
        99,
        107,
        97,
        103,
        101,
        105,
        110,
        102,
        111,
        114,
        109,
        97,
        116,
        105,
        111,
        110,
    ];
    let t_auth: [u8; 17] = [
        97,
        117,
        116,
        104,
        111,
        114,
        105,
        110,
        102,
        111,
        114,
        109,
        97,
        116,
        105,
        111,
        110,
    ];
    let t_req: [u8; 16] = [
        114,
        101,
        113,
        117,
        105,
        114,
        101,
        100,
        112,
        97,
        99,
        107,
        97,
        103,
        101,
        115,
    ];
    let t_opt: [u8; 16] = [
        111,
        112,
        116,
        105,
        111,
        110,
        97,
        108,
        112,
        97,
        99,
        107,
        97,
        103,
        101,
        115,
    ];
    let t_exc: [u8; 16] = [
        101,
        120,
        99,
        108,
        117,
        100,
        101,
        100,
        112,
        97,
        99,
        107,
        97,
        103,
        101,
        115,
    ];
    let t_ins: [u8; 12] = [105, 110, 115, 116, 114, 117, 99, 116, 105, 111, 110, 115];
    let t_com: [u8; 13] = [99, 111, 109, 112, 97, 116, 105, 98, 105, 108, 105, 116, 121];
    let t_type: [u8; 4] = [116, 121, 112, 101];
    let t_update: [u8; 6] = [117, 112, 100, 97, 116, 101];
    let t_fromversion: [u8; 11] = [102, 114, 111, 109, 118, 101, 114, 115, 105, 111, 110];
    let mut cur = PackageXML {
        name,
        package_information: PackageInformation {
            name: Vec::new(),
            description: Vec::new(),
            url: None,
            is_application: false,
            version: Version::new(0, 0, 0, None),
            date: Vec::new(),
            license: None,
        },
        author_information: AuthorInformation { author: Vec::new(), author_url: None },
        required_packages: Vec::new(),
        optional_packages: Vec::new(),
        excluded_packages: Vec::new(),
        instructions: Vec::new(),
        compatibility: Vec::new(),
    };
    let ghost init = view_manifest(cur);
    proof {
        assert(init.package_information.name =~= spec_initial_manifest(
            cur.name@,
        ).package_information.name);
        assert(init.package_information.description =~= spec_initial_manifest(
            cur.name@,
        ).package_information.description);
        assert(init.required_packages =~= spec_initial_manifest(cur.name@).required_packages);
        assert(init.optional_packages =~= spec_initial_manifest(cur.name@).optional_packages);
        assert(init.excluded_packages =~= spec_initial_manifest(cur.name@).excluded_packages);
        assert(init.instructions =~= spec_initial_manifest(cur.name@).instructions);
        assert(init.compatibility =~= spec_initial_manifest(cur.name@).compatibility);
        assert(init.name =~= spec_initial_manifest(cur.name@).name);
        assert(init.package_information.date =~= spec_initial_manifest(
            cur.name@,
        ).package_information.date);
        assert(init.author_information.author =~= spec_initial_manifest(
            cur.name@,
        ).author_information.author);
        assert(init == spec_initial_manifest(cur.name@));
    }
    let mut i: usize = 0;
    while i < root.children.len()
        invariant
            0 <= i <= root.children@.len(),
            t_info@ =~= tag_packageinformation(),
            t_auth@ =~= tag_authorinformation(),
            t_req@ =~= tag_requiredpackages(),
            t_opt@ =~= tag_optionalpackages(),
            t_exc@ =~= tag_excludedpackages(),
            t_ins@ =~= tag_instructions(),
            t_com@ =~= tag_compatibility(),
            t_type@ =~= seq![116u8, 121u8, 112u8, 101u8],
            t_update@ =~= seq![117u8, 112u8, 100u8, 97u8, 116u8, 101u8],
            t_fromversion@ =~= seq![
                102u8, 114u8, 111u8, 109u8, 118u8, 101u8, 114u8, 115u8, 105u8, 111u8, 110u8,
            ],
            spec_pkg_fold(root.children@, 0, init) == spec_pkg_fold(
                root.children@,
                i as int,
                view_manifest(cur),
            ),
        decreases root.children@.len() - i,
    {
        let c = &root.children[i];
        if !c.is_element {
        } else if crate::auth::types::compare_bytes(c.name.as_slice(), &t_info) {
            let mut info = PackageInformation {
                name: Vec::new(),
                description: Vec::new(),
                url: None,
                is_application: false,
                version: Version::new(0, 0, 0, None),
                date: Vec::new(),
                license: None,
            };
            core::mem::swap(&mut info, &mut cur.package_information);
            match parse_package_information(&c.children, info) {
                Ok(out) => {
                    cur.package_information = out;
                },
                Err(e) => {
                    return Err(e);
                },
            }
        } else if crate::auth::types::compare_bytes(c.name.as_slice(), &t_auth) {
            let mut a = AuthorInformation { author: Vec::new(), author_url: None };
            core::mem::swap(&mut a, &mut cur.author_information);
            match parse_author_information(&c.children, a) {
                Ok(out) => {
                    cur.author_information = out;
                },
                Err(e) => {
                    return Err(e);
                },
            }
        } else if crate::auth::types::compare_bytes(c.name.as_slice(), &t_req) {
            match parse_required_packages(&c.children) {
                Ok(out) => {
                    cur.required_packages = out;
                },
                Err(e) => {
                    return Err(e);
                },
            }
        } else if crate::auth::types::compare_bytes(c.name.as_slice(), &t_opt) {
            match parse_optional_packages(&c.children) {
                Ok(out) => {
                    cur.optional_packages = out;
                },
                Err(e) => {
                    return Err(e);
                },
            }
        } else if crate::auth::types::compare_bytes(c.name.as_slice(), &t_exc) {
            match parse_excluded_packages(&c.children) {
                Ok(out) => {
                    cur.excluded_packages = out;
                },
                Err(e) => {
                    return Err(e);
                },
            }
        } else if crate::auth::types::compare_bytes(c.name.as_slice(), &t_ins) {
            let ty = match attr(c, &t_type) {
                Some(t) => t,
                None => { return Err(PackageXmlError::MissingAttribute); },
            };
            if crate::auth::types::compare_bytes(ty.as_slice(), &t_update) {
                let fv = match attr(c, &t_fromversion) {
                    Some(v) => v,
                    None => { return Err(PackageXmlError::MissingAttribute); },
                };
                let ghost before = view_manifest(cur);
                cur.instructions.push(UpdateInstruction { from_version: copy_bytes(fv) });
                proof {
                    assert(view_manifest(cur).instructions =~= before.instructions + seq![fv@]);
                }
            } else {
                proof {
                    assert(view_manifest(cur).instructions =~= view_manifest(cur).instructions
                        + Seq::<Seq<u8>>::empty());
                }
            }
        } else if crate::auth::types::compare_bytes(c.name.as_slice(), &t_com) {
            match parse_compatibility(&c.children) {
                Ok(out) => {
                    cur.compatibility = out;
                },
                Err(e) => {
                    return Err(e);
                },
            }
        }
        i = i + 1;
    }
    Ok(cur)
}

#[verifier::external_type_specification]
#[verifier::external_body]
pub struct ExRoxmlNode<'a, 'input: 'a>(roxmltree::Node<'a, 'input>);

/// Relies on roxmltree::Node: each node's local tag name, attributes,
/// first text child, element flag and children are moved into the
/// library's own tree, one for one.
#[verifier::external_body]
fn node_to_tree(n: roxmltree::Node<'_, '_>) -> XmlNode {
    XmlNode {
        name: n.tag_name().name().as_bytes().to_vec(),
        attributes: n.attributes().map(
            |a| (a.name().as_bytes().to_vec(), a.value().as_bytes().to_vec()),
        ).collect(),
        text: n.text().map(|t| t.as_bytes().to_vec()),
        is_element: n.is_element(),
        children: n.children().map(node_to_tree).collect(),
    }
}

/// What parsing the bytes as an XML document yields: its root element
/// as the library's own tree, or nothing when the bytes are not UTF-8
/// or not well-formed XML. The result depends on the bytes alone.
pub uninterp spec fn xml_tree_of(bytes: Seq<u8>) -> Option<XmlNode>;

/// Relies on roxmltree::Document::parse: the document is parsed and its
/// root element handed over as the library's own tree; bytes that are
/// not UTF-8 or not well-formed XML yield nothing. Deterministic in the
/// bytes.
#[verifier::external_body]
fn xml_tree(bytes: &[u8]) -> (r: Option<XmlNode>)
    ensures
        match r {
            Some(t) => xml_tree_of(bytes@) == Some(t),
            None => xml_tree_of(bytes@) is None,
        },
{
    let doc = roxmltree::Document::parse(core::str::from_utf8(bytes).ok()?).ok()?;
    Some(node_to_tree(doc.root_element()))
}

impl PackageXML {
    /// Reads a manifest from the bytes of an XML document: a manifest is
    /// returned exactly when the bytes parse as an XML document whose
    /// root is `package` and whose tree interprets as a manifest, and it
    /// is that tree's interpretation; a failure carries exactly the
    /// error that reading the document yields.
    pub fn try_from(bytes: &[u8]) -> (r: Result<PackageXML, PackageXmlError>)
        ensures
            match r {
                Ok(p) => spec_read_manifest(bytes@) == Ok::<SpecPackageXML, PackageXmlError>(
                    view_manifest(p),
                ),
                Err(e) => spec_read_manifest(bytes@) == Err::<SpecPackageXML, PackageXmlError>(e),
            },
    {
        let root = match xml_tree(bytes) {
            Some(r) => r,
            None => { return Err(PackageXmlError::XmlTree); },
        };
        let t_package: [u8; 7] = [112, 97, 99, 107, 97, 103, 101];
        proof {
            assert(t_package@ =~= tag_package());
        }
        if !crate::auth::types::compare_bytes(root.name.as_slice(), &t_package) {
            return Err(PackageXmlError::InvalidRoot);
        }
        match parse_package(&root) {
            Ok(p) => Ok(p),
            Err(e) => Err(e),
        }
    }
}

} // verus!
