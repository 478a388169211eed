use std::sync::Arc;

use xepak::auth::{
    auth_specs_to_registry, AuthorizeProcessor, CheckAuthConf, RoleSet, SimpleAuthRegistry,
    SimpleAuthSpecs,
    SimpleAuthenticationProcessor, API_KEY_HEADER,
};
use xepak::error::XepakError;
use xepak::schema::Schema;
use xepak::server::RequestArgs;
use xepak::strmap::StrMap;

fn role(v: &str) -> CheckAuthConf {
    CheckAuthConf::Role { v: v.to_string() }
}

fn id(v: &str) -> CheckAuthConf {
    CheckAuthConf::Id { v: v.to_string() }
}

fn roles(names: &[&str]) -> RoleSet {
    let mut set = RoleSet::new();
    for name in names {
        set.insert(name.to_string());
    }
    set
}

fn request() -> RequestArgs {
    RequestArgs::new(Arc::new(Schema::new()), false, vec![])
}

fn spec(id: &str, key: &str, from_env: bool, roles: &[&str]) -> SimpleAuthSpecs {
    SimpleAuthSpecs {
        id: id.to_string(),
        key: key.to_string(),
        from_env,
        roles: roles.iter().map(|r| r.to_string()).collect(),
    }
}

fn forbidden(result: Result<(), XepakError>) -> String {
    match result {
        Err(XepakError::Forbidden(detail)) => detail,
        other => panic!("{other:?}"),
    }
}

#[test]
fn admin_scenario() {
    let registry =
        auth_specs_to_registry(&[spec("svcA", "abc", false, &["admin"])], &StrMap::new()).unwrap();
    let entry = registry.get("abc").unwrap();
    assert_eq!(entry.id, "svcA");
    assert!(entry.roles.contains("ADMIN"));
    assert!(!entry.roles.contains("admin"));

    let authenticate = SimpleAuthenticationProcessor::new(false);
    let authorize = AuthorizeProcessor::new(&[role("admin")]);

    let mut input = request();
    assert!(!input.is_authenticated());
    authenticate.handle(&registry, Some("abc"), &mut input).unwrap();
    assert!(input.is_authenticated());
    let (who, has) = input.get_auth().unwrap();
    assert_eq!(who, "svcA");
    assert!(has.contains("ADMIN"));
    assert!(authorize.handle(&input).is_ok());

    let mut unknown = request();
    let unknown_err = forbidden(authenticate.handle(&registry, Some("nope"), &mut unknown));
    let mut missing = request();
    let missing_err = forbidden(authenticate.handle(&registry, None, &mut missing));
    assert_eq!(unknown_err, missing_err);
    assert_eq!(unknown_err, "Not authenticated");
    assert!(!unknown.is_authenticated());
    assert!(!missing.is_authenticated());
    assert_eq!(forbidden(authorize.handle(&unknown)), "Not authenticated");
}

#[test]
fn empty_or_is_false_and_empty_and_is_true() {
    let none = roles(&[]);
    assert!(!CheckAuthConf::Or { nested: vec![] }.is_allowed("x", &none));
    assert!(CheckAuthConf::And { nested: vec![] }.is_allowed("x", &none));
}

#[test]
fn policy_evaluation() {
    let has = roles(&["ADMIN", "OPS"]);
    assert!(role("ADMIN").is_allowed("me", &has));
    assert!(!role("admin").is_allowed("me", &has));
    assert!(!role("DEV").is_allowed("me", &has));
    assert!(id("me").is_allowed("me", &has));
    assert!(!id("Me").is_allowed("me", &has));
    let and = CheckAuthConf::And { nested: vec![role("ADMIN"), id("me")] };
    assert!(and.is_allowed("me", &has));
    assert!(!and.is_allowed("you", &has));
    let or = CheckAuthConf::Or { nested: vec![role("DEV"), id("you")] };
    assert!(!or.is_allowed("me", &has));
    assert!(or.is_allowed("you", &has));
    let nested = CheckAuthConf::And {
        nested: vec![role("OPS"), CheckAuthConf::Or { nested: vec![id("a"), id("b")] }],
    };
    assert!(nested.is_allowed("b", &has));
    assert!(!nested.is_allowed("c", &has));
}

#[test]
fn normalize_uppercases_roles_only() {
    let policy = CheckAuthConf::Or {
        nested: vec![
            role("admin"),
            id("svcA"),
            CheckAuthConf::And { nested: vec![role("Ops"), id("x")] },
        ],
    };
    match policy.normalize() {
        CheckAuthConf::Or { nested } => {
            assert!(matches!(&nested[0], CheckAuthConf::Role { v } if v == "ADMIN"));
            assert!(matches!(&nested[1], CheckAuthConf::Id { v } if v == "svcA"));
            match &nested[2] {
                CheckAuthConf::And { nested } => {
                    assert!(matches!(&nested[0], CheckAuthConf::Role { v } if v == "OPS"));
                    assert!(matches!(&nested[1], CheckAuthConf::Id { v } if v == "x"));
                }
                other => panic!("{other:?}"),
            }
        }
        other => panic!("{other:?}"),
    }
}

#[test]
fn authorization_by_the_configured_checks() {
    let mut input = request();
    input.set_auth("svcB".to_string(), roles(&["READER"]));

    // no check: being authenticated is enough
    assert!(AuthorizeProcessor::new(&[]).handle(&input).is_ok());
    assert_eq!(forbidden(AuthorizeProcessor::new(&[]).handle(&request())), "Not authenticated");

    // one check
    assert!(AuthorizeProcessor::new(&[role("reader")]).handle(&input).is_ok());
    assert_eq!(
        forbidden(AuthorizeProcessor::new(&[role("admin")]).handle(&input)),
        "Not authorized to perform request! Auth id: svcB"
    );

    // several checks: one of them is enough
    assert!(AuthorizeProcessor::new(&[role("admin"), id("svcB")]).handle(&input).is_ok());
    assert!(AuthorizeProcessor::new_boxed(&[role("admin"), role("reader")]).handle(&input).is_ok());
    assert!(AuthorizeProcessor::new(&[role("admin"), id("svcb")]).handle(&input).is_err());
}

#[test]
fn authentication_is_done_once() {
    let registry = auth_specs_to_registry(
        &[spec("a", "k1", false, &["x"]), spec("b", "k2", false, &[])],
        &StrMap::new(),
    )
    .unwrap();
    let processor = SimpleAuthenticationProcessor::new_boxed(true);
    let mut input = request();
    processor.handle(&registry, Some("k2"), &mut input).unwrap();
    assert_eq!(input.get_auth().unwrap().0, "b");
    // once authenticated, another credential changes nothing
    processor.handle(&registry, Some("k1"), &mut input).unwrap();
    assert_eq!(input.get_auth().unwrap().0, "b");
    processor.handle(&registry, None, &mut input).unwrap();
    assert_eq!(input.get_auth().unwrap().0, "b");
    assert_eq!(API_KEY_HEADER, "x-api-key");
}

#[test]
fn registry_from_specs() {
    let mut env: StrMap<String> = StrMap::new();
    env.insert("KEY_VAR".to_string(), "secret".to_string());
    let specs = [
        spec("a", "k", false, &["r1", "R2"]),
        spec("b", "KEY_VAR", true, &[]),
        spec("c", "k", false, &["r3"]),
    ];
    let registry = auth_specs_to_registry(&specs, &env).unwrap();
    assert_eq!(registry.len(), 2);
    assert_eq!(registry.get("secret").unwrap().id, "b");
    assert!(registry.get("KEY_VAR").is_none());
    let last = registry.get("k").unwrap();
    assert_eq!(last.id, "c");
    assert!(last.roles.contains("R3"));
    assert!(!last.roles.contains("R1"));

    match auth_specs_to_registry(&[spec("b", "MISSING", true, &[])], &env) {
        Err(XepakError::Cfg(detail)) => {
            assert_eq!(detail, "Can't load API key from ENV variable \"MISSING\"")
        }
        other => panic!("{other:?}"),
    }

    let mut registry = SimpleAuthRegistry::new();
    spec("a", "k", false, &["x"]).put_to_registry(&mut registry, &env).unwrap();
    assert!(registry.get("k").unwrap().roles.contains("X"));
    assert!(spec("a", "NOPE", true, &[]).put_to_registry(&mut registry, &env).is_err());
    assert_eq!(registry.len(), 1);
}

#[test]
fn role_sets() {
    let mut set = RoleSet::new();
    assert!(!set.contains("a"));
    set.insert("a".to_string());
    set.insert("a".to_string());
    set.insert("b".to_string());
    assert!(set.contains("a"));
    assert!(set.contains("b"));
    assert!(!set.contains("A"));
    let copy = set.copy();
    assert!(copy.contains("a") && copy.contains("b") && !copy.contains("c"));
}

#[test]
fn ascii_roles_get_their_capital_letters() {
    let all: String = (0u8..128).map(|b| b as char).collect();
    match (CheckAuthConf::Role { v: all.clone() }).normalize() {
        CheckAuthConf::Role { v } => assert_eq!(v, all.to_ascii_uppercase()),
        other => panic!("{other:?}"),
    }
    match (CheckAuthConf::Role { v: "straße".to_string() }).normalize() {
        CheckAuthConf::Role { v } => assert_eq!(v, "STRASSE"),
        other => panic!("{other:?}"),
    }
}
