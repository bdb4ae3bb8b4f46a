//! Tests for password handling, the configuration reader, and the
//! authorizer.

use package_server::acl::Ruleset;
use package_server::auth::json::read_auth_json;
use package_server::auth::password::{DoubleBcrypt, PasswordHash, StoredPassword};
use package_server::auth::types::{AuthData, PackageName, UserInfo};
use package_server::http::helpers::{get_auth_info, is_accessible, AuthInfo};
use package_server::version::Version;

fn v(input: &str) -> Version {
    Version::parser(input.as_bytes()).unwrap().0
}

fn rule(input: &str) -> Ruleset {
    Ruleset::parser(input.as_bytes()).unwrap()
}

#[test]
fn test_verify() {
    assert!(DoubleBcrypt(
        b"$2a$08$3GNrFLqG5M7BsGI/BtxcGuNWX2iY/UsfTwWnmJiddHB.z/PdkAsR2".to_vec()
    )
    .verify(b"root"));
    assert!(DoubleBcrypt(
        b"$2a$08$JSycOvMzyJYp86mzTjCeROOLAWel2fibGyE1ILX1Y9ISdeF/pulP.".to_vec()
    )
    .verify(b"test"));
}

#[test]
fn test_verify_method() {
    assert!(DoubleBcrypt(
        b"$2a$08$3GNrFLqG5M7BsGI/BtxcGuNWX2iY/UsfTwWnmJiddHB.z/PdkAsR2".to_vec()
    )
    .verify(b"root"));
    assert!(DoubleBcrypt(
        b"$2a$08$JSycOvMzyJYp86mzTjCeROOLAWel2fibGyE1ILX1Y9ISdeF/pulP.".to_vec()
    )
    .verify(b"test"));
}

#[test]
fn test_parse() {
    {
        let data = read_auth_json(b"{}").unwrap();
        assert_eq!(data.users.len(), 0);
        assert_eq!(data.groups.len(), 0);
        assert_eq!(data.packages.len(), 0);
    }

    {
        let data = read_auth_json(
            br#"{
            "users": {},
            "groups": {},
            "packages": {}
        }"#,
        )
        .unwrap();
        assert_eq!(data.users.len(), 0);
        assert_eq!(data.groups.len(), 0);
        assert_eq!(data.packages.len(), 0);
    }

    {
        let data = read_auth_json(
            br#"{
            "users": {
                "Foo": {
                    "passwd": "-"
                },
                "Bar": {
                    "passwd": "Bcrypt:$2y$10$0QxMnGyTrXnL7ngq2y/qFui3H2IaEuXfNwbLWR50m9Yarp0HZwEmq"
                },
                "root": {
                    "passwd": "$2a$08$3GNrFLqG5M7BsGI/BtxcGuNWX2iY/UsfTwWnmJiddHB.z/PdkAsR2"
                }
            },
            "groups": {},
            "packages": {}
        }"#,
        )
        .unwrap();

        assert_eq!(data.users.len(), 3);

        let foo = data.lookup_user(b"Foo").unwrap();
        assert!(!foo.passwd.verify(b"foo"));
        assert_eq!(foo.groups.len(), 0);

        let bar = data.lookup_user(b"Bar").unwrap();
        assert!(bar.passwd.verify(b"bar"));

        let root = data.lookup_user(b"root").unwrap();
        assert!(root.passwd.verify(b"root"));

        assert_eq!(data.groups.len(), 0);
        assert_eq!(data.packages.len(), 0);
    }
}

#[test]
fn test_banned_always_refuses() {
    let banned = StoredPassword::classify(b"-");
    assert!(!banned.verify(b""));
    assert!(!banned.verify(b"-"));
    assert!(!banned.verify(b"password"));
}

#[test]
fn test_classification() {
    assert!(matches!(StoredPassword::classify(b"-"), StoredPassword::Banned));
    assert!(matches!(
        StoredPassword::classify(b"$2y$10$abc"),
        StoredPassword::DoubleBcrypt(_)
    ));
    assert!(matches!(
        StoredPassword::classify(b"bcrypt:$2y$10$abc"),
        StoredPassword::Bcrypt(_)
    ));
    assert!(matches!(
        StoredPassword::classify(b"BCRYPT:$2y$10$abc"),
        StoredPassword::Bcrypt(_)
    ));
    assert!(matches!(
        StoredPassword::classify(b"md5:abcdef"),
        StoredPassword::Unknown(_)
    ));
    assert!(matches!(
        StoredPassword::classify(b"plaintext"),
        StoredPassword::Unknown(_)
    ));
}

#[test]
fn test_password_fixtures() {
    let plain = StoredPassword::classify(
        b"bcrypt:$2y$10$0QxMnGyTrXnL7ngq2y/qFui3H2IaEuXfNwbLWR50m9Yarp0HZwEmq",
    );
    assert!(plain.verify(b"bar"));
    assert!(!plain.verify(b"baz"));

    let legacy = StoredPassword::classify(
        b"$2a$08$3GNrFLqG5M7BsGI/BtxcGuNWX2iY/UsfTwWnmJiddHB.z/PdkAsR2",
    );
    assert!(legacy.verify(b"root"));
    assert!(!legacy.verify(b"toor"));
}

#[test]
fn test_invalid_auth_json_rejected() {
    assert!(read_auth_json(b"not json").is_err());
    assert!(read_auth_json(b"[]").is_err());
    assert!(read_auth_json(br#"{"users": {"x": {}}}"#).is_err());
    assert!(read_auth_json(br#"{"packages": {"com.example.*": "no parse &&"}}"#).is_err());
    assert!(read_auth_json(br#"{"packages": {"com.example.*": "$v = $v"}}"#).is_err());
}

fn perms(entries: &[(&str, &str)]) -> Vec<(PackageName, Ruleset)> {
    entries
        .iter()
        .map(|(p, r)| (PackageName::new(p.as_bytes().to_vec()), rule(r)))
        .collect()
}

#[test]
fn test_wildcard_pattern_matches_everything() {
    let p = PackageName::new(b"*".to_vec());
    assert!(p.matches(b"com.example.foo"));
    assert!(p.matches(b""));
    assert!(p.matches(b"anything.at.all"));

    let auth = AuthData {
        users: Vec::new(),
        groups: Vec::new(),
        packages: perms(&[("*", "*")]),
    };
    let anon = AuthInfo { username: None };
    assert!(is_accessible(b"com.example.foo", &v("1.0.0"), &anon, &auth));
    assert!(is_accessible(b"other.pkg.id", &v("9.9.9 Dev 1"), &anon, &auth));
}

#[test]
fn test_glob_patterns() {
    let p = PackageName::new(b"com.example.*".to_vec());
    assert!(p.matches(b"com.example.foo"));
    assert!(p.matches(b"com.example."));
    assert!(!p.matches(b"com.other.foo"));
    let exact = PackageName::new(b"com.example.foo".to_vec());
    assert!(exact.matches(b"com.example.foo"));
    assert!(!exact.matches(b"com.example.foobar"));
}

#[test]
fn test_scope_precedence() {
    // The global scope denies 2.x, the user's own scope denies too, a
    // group finally grants: a refusing scope never blocks a later one.
    let auth = AuthData {
        users: vec![(
            b"alice".to_vec(),
            UserInfo {
                passwd: StoredPassword::classify(b"-"),
                groups: vec![b"team".to_vec()],
                packages: perms(&[("com.example.foo", "1.0.0 <= $v < 2.0.0")]),
            },
        )],
        groups: vec![(b"team".to_vec(), perms(&[("com.example.*", "*")]))],
        packages: perms(&[("com.example.foo", "$v ~ beta")]),
    };
    let alice = AuthInfo {
        username: Some(b"alice".to_vec()),
    };
    let anon = AuthInfo { username: None };

    // Global scope alone.
    assert!(is_accessible(b"com.example.foo", &v("3.0.0 Beta 1"), &anon, &auth));
    assert!(!is_accessible(b"com.example.foo", &v("3.0.0"), &anon, &auth));
    // User scope grants within the range.
    assert!(is_accessible(b"com.example.foo", &v("1.5.0"), &alice, &auth));
    // The group's wildcard grants what both other scopes deny.
    assert!(is_accessible(b"com.example.foo", &v("3.0.0"), &alice, &auth));
    assert!(is_accessible(b"com.example.bar", &v("0.1.0"), &alice, &auth));
    // An unknown package matches no pattern anywhere.
    assert!(!is_accessible(b"org.other.pkg", &v("1.0.0"), &alice, &auth));
}

#[test]
fn test_within_scope_deny_does_not_stop_scan() {
    // The first matching pattern refuses, a later one in the same scope
    // grants: the scan keeps going.
    let auth = AuthData {
        users: Vec::new(),
        groups: Vec::new(),
        packages: perms(&[("com.example.*", "$v ~ beta"), ("com.example.foo", "*")]),
    };
    let anon = AuthInfo { username: None };
    assert!(is_accessible(b"com.example.foo", &v("1.0.0"), &anon, &auth));
    assert!(!is_accessible(b"com.example.bar", &v("1.0.0"), &anon, &auth));
}

#[test]
fn test_identity_resolution() {
    let auth = AuthData {
        users: vec![(
            b"bob".to_vec(),
            UserInfo {
                passwd: StoredPassword::classify(
                    b"bcrypt:$2y$10$0QxMnGyTrXnL7ngq2y/qFui3H2IaEuXfNwbLWR50m9Yarp0HZwEmq",
                ),
                groups: Vec::new(),
                packages: Vec::new(),
            },
        )],
        groups: Vec::new(),
        packages: Vec::new(),
    };
    let good = get_auth_info(&auth, Some((b"bob", Some(b"bar"))));
    assert_eq!(good.username, Some(b"bob".to_vec()));
    let wrong = get_auth_info(&auth, Some((b"bob", Some(b"nope"))));
    assert_eq!(wrong.username, None);
    let unknown = get_auth_info(&auth, Some((b"eve", Some(b"bar"))));
    assert_eq!(unknown.username, None);
    let missing_password = get_auth_info(&auth, Some((b"bob", None)));
    assert_eq!(missing_password.username, None);
    let anonymous = get_auth_info(&auth, None);
    assert_eq!(anonymous.username, None);
}
