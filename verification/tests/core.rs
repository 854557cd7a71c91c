use mandrake::common::actor::{Actor, Via};
use mandrake::common::api::ObjectRef;
use mandrake::common::id::Id;
use mandrake::common::problem::{Problem, PROBLEM_BASE};
use mandrake::common::role::Role;
use mandrake::common::shell::Command;
use mandrake::common::storage::{PoolHealth, Vdev, VdevType};
use mandrake::common::timestamp::Timestamp;

#[test]
fn round_trips_through_text() {
    let id = Id::new();
    let text = id.to_text();
    assert_eq!(text.len(), 36);
    assert_eq!(text.parse::<Id>().ok(), Some(id));
}

#[test]
fn ids_from_bits_print_as_uuids() {
    let id = Id::from_u128(0x0192a1b2_c3d4_7e5f_8a9b_0c1d2e3f4a70);
    assert_eq!(id.to_text(), "0192a1b2-c3d4-7e5f-8a9b-0c1d2e3f4a70");
    assert_eq!(Id::parse("0192a1b2-c3d4-7e5f-8a9b-0c1d2e3f4a70").map(|i| i.as_u128()), Some(id.as_u128()));
    assert!(Id::parse("not-a-uuid").is_none());
}

#[test]
fn typed_problems_carry_a_slug() {
    let p = Problem::typed(423, "locked", "Locked").with_detail("try later");
    assert_eq!(p.slug(), Some("locked"));
    assert_eq!(p.message(), "423 Locked: try later");
    assert_eq!(p.type_, format!("{PROBLEM_BASE}locked"));
    assert!(p.instance.is_none());
}

#[test]
fn plain_problems_are_about_blank() {
    assert_eq!(Problem::new(404, "Not Found").slug(), None);
}

#[test]
fn plain_problem_message_has_no_detail() {
    let p = Problem::new(404, "Not Found");
    assert_eq!(p.type_, "about:blank");
    assert_eq!(p.message(), "404 Not Found");
}

#[test]
fn privilege_is_ordered() {
    assert!(Role::Admin.allows(Role::Viewer));
    assert!(Role::Admin.allows(Role::Admin));
    assert!(Role::Operator.allows(Role::Viewer));
    assert!(!Role::Operator.allows(Role::Admin));
    assert!(!Role::Viewer.allows(Role::Operator));
}

#[test]
fn names_round_trip() {
    for role in [Role::Viewer, Role::Operator, Role::Admin] {
        assert_eq!(role.as_str().parse::<Role>().ok(), Some(role));
    }
    assert!("root".parse::<Role>().is_err());
}

#[test]
fn display_quotes_only_when_needed() {
    let c = Command::new("zfs")
        .args(&["create", "-o", "compression=lz4", "tank/a b"])
        .privileged();
    assert_eq!(c.display(), "pfexec zfs create -o compression=lz4 'tank/a b'");
    assert_eq!(c.plain(), "zfs create -o compression=lz4 'tank/a b'");
}

#[test]
fn display_quotes_empty_arguments() {
    let c = Command::new("echo").arg("");
    assert_eq!(c.display(), "echo ''");
}

fn leaf(n: &str) -> Vdev {
    Vdev {
        name: n.to_owned(),
        type_: VdevType::Disk,
        state: PoolHealth::Online,
        read_errors: None,
        write_errors: None,
        checksum_errors: None,
        note: None,
        children: vec![],
    }
}

#[test]
fn vdev_leaves() {
    let root = Vdev {
        name: "tank".to_owned(),
        type_: VdevType::Root,
        state: PoolHealth::Online,
        read_errors: None,
        write_errors: None,
        checksum_errors: None,
        note: None,
        children: vec![Vdev {
            name: "mirror-0".to_owned(),
            type_: VdevType::Mirror,
            state: PoolHealth::Online,
            read_errors: None,
            write_errors: None,
            checksum_errors: None,
            note: None,
            children: vec![leaf("c1t1d0"), leaf("c1t2d0")],
        }],
    };
    assert_eq!(root.leaves(), vec!["c1t1d0", "c1t2d0"]);
}

#[test]
fn health_names_round_trip() {
    for h in [PoolHealth::Online, PoolHealth::Degraded, PoolHealth::Avail] {
        assert_eq!(h.as_str().parse::<PoolHealth>().ok(), Some(h));
    }
    assert!("sideways".parse::<PoolHealth>().is_err());
}

#[test]
fn formats_as_rfc3339_utc() {
    let t = Timestamp::from_unix(1_756_728_000).unwrap_or_else(Timestamp::now);
    assert_eq!(t.to_rfc3339(), "2025-09-01T12:00:00Z");
    assert_eq!(t.to_rfc3339().parse::<Timestamp>().ok(), Some(t));
}

#[test]
fn arithmetic() {
    let t = Timestamp::from_unix(1_000).unwrap_or_else(Timestamp::now);
    let later = t.plus_seconds(90);
    assert_eq!(later.seconds_since(t), 90);
    assert!(later > t);
}

#[test]
fn rfc3339_rejects_junk() {
    assert!(Timestamp::parse_rfc3339("yesterday").is_none());
    assert_eq!(
        Timestamp::parse_rfc3339("2025-09-01T12:00:00Z").map(|t| t.to_rfc3339()),
        Some("2025-09-01T12:00:00Z".to_owned())
    );
}

#[test]
fn root_is_the_socket_admin() {
    let root = Actor::root();
    assert_eq!(root.username, "root");
    assert_eq!(root.role, Role::Admin);
    assert_eq!(root.via, Via::Socket);
    assert!(root.id.is_none() && root.token_id.is_none());
    let id = Id::new();
    assert!(!root.is_user(id));
    let user = Actor { id: Some(id), username: "ana".to_owned(), role: Role::Operator, via: Via::Session, token_id: None };
    assert!(user.is_user(id));
}

#[test]
fn object_refs() {
    let id = Id::new();
    let r = ObjectRef::new("user", id, "ana");
    assert_eq!(r.kind, "user");
    assert_eq!(r.id, Some(id));
    assert_eq!(r.name.as_deref(), Some("ana"));
    let s = ObjectRef::singleton("system");
    assert_eq!(s.kind, "system");
    assert!(s.id.is_none() && s.name.is_none());
}
