use mandrake::common::id::Id;
use mandrake::common::image::ImageType;
use mandrake::images::import::{
    check_download, cleanup_after_failure, clone_source, land_steps, outcome_of, raw_size, removal, ImportPlan, StoreStep,
};
use mandrake::images::index::{keypair, public_key_of, resolve_url, sign, signature_url, valid_public_key, validate, verify, Index, IndexEntry};
use mandrake::images::store::{feed_pipeline, prepare_commands, receive_sink, snapshot_command, staging_path, volume_sink, create_volume_command, destroy_command};
use mandrake::images::runner::{run_import, FakeStore};
use mandrake::common::image::ImageState;
use mandrake::images::types::{hex, valid_sha256, Compression, ImageError};
use mandrake::images::{dataset_for, iso_path_for};
use mandrake::common::digest::sha256_hex;
use mandrake::images::transport::{downloaded, push_chunk, FakeTransport};
use mandrake::common::stream::Tally;
use mandrake::images::MAX_DOCUMENT_BYTES;
use sha2::{Digest, Sha256};

const SAMPLE: &[u8] = b"{\"name\":\"nightshade.systems\",\"images\":[]}";

fn entry(name: &str, url: &str, sha: &str) -> IndexEntry {
    IndexEntry {
        name: name.to_owned(),
        version: "20260901".to_owned(),
        type_: ImageType::ZoneLx,
        url: url.to_owned(),
        sha256: sha.to_owned(),
        size: 1,
        description: None,
        os: None,
        published_at: None,
    }
}

#[test]
fn compression_from_url() {
    assert_eq!(Compression::from_url("https://x/a.zfs.gz?x=1"), Compression::Gzip);
    assert_eq!(Compression::from_url("https://x/a.raw.xz"), Compression::Xz);
    assert_eq!(Compression::from_url("https://x/a.iso"), Compression::Plain);
    assert_eq!(clone_source("tank/images/x"), "tank/images/x@image");
}

#[test]
fn parses_and_resolves() {
    let index = Index {
        name: "nightshade.systems".to_owned(),
        generated_at: None,
        images: vec![
            entry("debian-12", "debian-12-20260901.zfs.gz", &"ab".repeat(32)),
            entry("alpine", "https://cdn.example/alpine.zfs.xz", &"cd".repeat(32)),
            entry("freebsd", "/iso/freebsd.iso", &"01".repeat(32)),
        ],
    };
    assert!(validate(&index).is_ok());
    assert_eq!(index.name, "nightshade.systems");
    assert_eq!(index.images.len(), 3);
    assert_eq!(index.images[0].type_, ImageType::ZoneLx);
    assert_eq!(
        resolve_url("https://images.example/mandrake/index.json", &index.images[0].url),
        "https://images.example/mandrake/debian-12-20260901.zfs.gz"
    );
    assert_eq!(
        resolve_url("https://images.example/mandrake/index.json", "/pub/x.iso"),
        "https://images.example/pub/x.iso"
    );
    assert_eq!(resolve_url("https://a/index.json", "https://b/y.raw.xz"), "https://b/y.raw.xz");
    assert_eq!(signature_url("https://a/b/index.json"), "https://a/b/index.json.sig");
}

#[test]
fn rejects_bad_entries() {
    let bad = Index {
        name: "x".to_owned(),
        generated_at: None,
        images: vec![IndexEntry { type_: ImageType::VmIso, ..entry("a", "a.iso", "zz") }],
    };
    assert!(matches!(validate(&bad), Err(ImageError::Index(_))));
    let nameless = Index {
        name: "x".to_owned(),
        generated_at: None,
        images: vec![entry("", "a.iso", &"00".repeat(32))],
    };
    match validate(&nameless) {
        Err(ImageError::Index(m)) => assert_eq!(m, "entry @20260901 is missing a name, version, or url"),
        other => panic!("{other:?}"),
    }
}

#[test]
fn sign_and_verify_round_trip() {
    let (secret, public) = keypair();
    assert!(valid_public_key(&public));
    assert_eq!(public_key_of(&secret).unwrap(), public);
    let sig = sign(SAMPLE, &secret).unwrap();
    verify(SAMPLE, &sig, &public).unwrap();
    let mut tampered = SAMPLE.to_vec();
    tampered.push(b' ');
    assert!(verify(&tampered, &sig, &public).is_err());
    let (_, other) = keypair();
    assert!(verify(SAMPLE, &sig, &other).is_err());
    assert!(verify(SAMPLE, "nope", &public).is_err());
    assert!(!valid_public_key("AAAA"));
}

#[test]
fn key_errors_name_the_problem() {
    match verify(SAMPLE, "AAAA", "AAAA") {
        Err(ImageError::Index(m)) => assert_eq!(m, "public key must be 32 bytes"),
        other => panic!("{other:?}"),
    }
    assert!(matches!(sign(SAMPLE, "%%%"), Err(ImageError::Index(m)) if m.starts_with("secret key is not base64: ")));
}

#[test]
fn hex_and_sha_checks() {
    let digest = Sha256::digest(b"abc");
    let h = hex(&digest);
    assert_eq!(h, "ba7816bf8f01cfea414140de5dae2223b00361a396177a9cb410ff61f20015ad");
    assert!(valid_sha256(&h));
    assert!(!valid_sha256(&h.to_uppercase()));
    assert!(!valid_sha256("abc"));
}

fn plan(image_type: ImageType, url: &str, body: &[u8]) -> ImportPlan {
    ImportPlan {
        id: Id::from_u128(0x0192a1b2_c3d4_7e5f_8a9b_0c1d2e3f4a70),
        image_type,
        url: url.to_owned(),
        sha256: hex(&Sha256::digest(body)),
        size: body.len() as u64,
        pool: "tank".to_owned(),
    }
}

#[test]
fn download_hash_is_checked_ignoring_case() {
    let p = plan(ImageType::ZoneLx, "https://x/img.zfs.gz", b"payload");
    assert!(check_download(&p, &p.sha256.to_uppercase()).is_ok());
    match check_download(&p, &"0".repeat(64)) {
        Err(ImageError::Verify { expected, actual }) => {
            assert_eq!(expected, p.sha256);
            assert_eq!(actual, "0".repeat(64));
        }
        other => panic!("{other:?}"),
    }
}

#[test]
fn zone_image_is_received_and_snapshotted() {
    let p = plan(ImageType::ZoneLx, "https://x/img.zfs.gz", b"not really a zfs stream");
    let dataset = format!("tank/images/{}", p.id.to_text());
    let steps = land_steps(&p);
    assert_eq!(steps.len(), 2);
    assert!(matches!(&steps[0], StoreStep::Receive { dataset: d, compression: Compression::Gzip } if *d == dataset));
    assert!(matches!(&steps[1], StoreStep::Snapshot { dataset: d } if *d == dataset));
    assert_eq!(outcome_of(&p).dataset.as_deref(), Some(dataset.as_str()));
    assert!(matches!(cleanup_after_failure(&p), Some(StoreStep::Destroy { dataset: d }) if d == dataset));
    let mut transport = FakeTransport::new();
    transport.add("https://x/img.zfs.gz", b"not really a zfs stream".to_vec());
    let mut store = FakeStore::new();
    let (outcome, states) = run_import(&transport, &mut store, &p);
    assert_eq!(outcome.unwrap().dataset.as_deref(), Some(dataset.as_str()));
    assert_eq!(store.datasets(), vec![dataset.clone()]);
    assert_eq!(store.snapshots(), vec![format!("{dataset}@image")]);
    assert_eq!(states.first(), Some(&ImageState::Downloading));
    assert!(states.contains(&ImageState::Verifying));
    assert_eq!(states.last(), Some(&ImageState::Importing));
    assert!(!store.is_staged(&staging_path("tank", &p.id.to_text())));
}

#[test]
fn iso_is_kept_and_raw_gets_a_zvol() {
    let iso = plan(ImageType::VmIso, "https://x/a.iso", b"iso");
    let out = outcome_of(&iso);
    assert_eq!(out.path.as_deref(), Some(iso_path_for("tank", iso.id).as_str()));
    assert!(out.dataset.is_none());
    assert!(matches!(&land_steps(&iso)[..], [StoreStep::KeepFile { dest }] if *dest == iso_path_for("tank", iso.id)));
    assert!(cleanup_after_failure(&iso).is_none());
    let mut transport = FakeTransport::new();
    transport.add("https://x/a.iso", b"iso".to_vec());
    let mut store = FakeStore::new();
    let (ran, _) = run_import(&transport, &mut store, &iso);
    assert_eq!(ran.unwrap().path.as_deref(), Some(iso_path_for("tank", iso.id).as_str()));
    assert_eq!(store.kept().len(), 1);
    let raw = plan(ImageType::VmRaw, "https://x/b.raw.xz", b"raw");
    assert_eq!(outcome_of(&raw).dataset.as_deref(), Some(dataset_for("tank", raw.id).as_str()));
    assert_eq!(raw_size(&raw), 1 << 20);
    assert!(matches!(&land_steps(&raw)[0], StoreStep::WriteVolume { size, compression: Compression::Xz, .. } if *size == 1 << 20));
    assert!(matches!(removal(ImageType::VmRaw, "tank", raw.id), StoreStep::Destroy { dataset } if dataset == dataset_for("tank", raw.id)));
    assert!(matches!(removal(ImageType::VmIso, "tank", raw.id), StoreStep::RemoveFile { path } if path == iso_path_for("tank", raw.id)));
}

#[test]
fn raw_sizes_round_up_to_a_mebibyte() {
    let mut p = plan(ImageType::VmRaw, "https://x/b.raw", b"");
    p.size = 0;
    assert_eq!(raw_size(&p), 1 << 20);
    p.size = (1 << 20) + 1;
    assert_eq!(raw_size(&p), 2 << 20);
    p.size = 3 << 20;
    assert_eq!(raw_size(&p), 3 << 20);
}

#[test]
fn real_store_commands() {
    let mut lines: Vec<String> = prepare_commands("tank", "mandrake").iter().map(|c| c.display()).collect();
    lines.push(create_volume_command("tank/images/y", 1024).display());
    lines.push(snapshot_command("tank/images/x").display());
    lines.push(destroy_command("tank/images/x").display());
    assert_eq!(
        lines,
        vec![
            "pfexec zfs create -p tank/images",
            "pfexec zfs create -p tank/images/iso",
            "pfexec zfs create -p tank/images/staging",
            "pfexec chown mandrake /tank/images/iso /tank/images/staging",
            "pfexec zfs create -V 1024 tank/images/y",
            "pfexec zfs snapshot tank/images/x@image",
            "pfexec zfs destroy -r tank/images/x",
        ]
    );
    let pipeline = |cmds: Vec<mandrake::common::shell::Command>| {
        cmds.iter().map(|c| c.display()).collect::<Vec<_>>().join(" | ")
    };
    assert_eq!(
        vec![
            pipeline(feed_pipeline(&staging_path("tank", "x"), Compression::Gzip, receive_sink("tank/images/x"))),
            pipeline(feed_pipeline(&staging_path("tank", "y"), Compression::Plain, volume_sink("tank/images/y"))),
        ],
        vec![
            "gzip -dc /tank/images/staging/x.part | pfexec zfs receive -u tank/images/x",
            "cat /tank/images/staging/y.part | pfexec dd of=/dev/zvol/rdsk/tank/images/y bs=1M",
        ]
    );
}

#[test]
fn digests_are_lowercase_hex() {
    assert_eq!(sha256_hex(b""), "e3b0c44298fc1c149afbf4c8996fb92427ae41e4649b934ca495991b7852b855");
    assert_eq!(sha256_hex(b"abc"), "ba7816bf8f01cfea414140de5dae2223b00361a396177a9cb410ff61f20015ad");
    assert_eq!(sha256_hex(b"payload"), hex(&Sha256::digest(b"payload")));
    assert!(valid_sha256(&sha256_hex(b"payload")));
}

#[test]
fn fake_transport_serves_what_it_was_given() {
    let mut t = FakeTransport::new();
    t.add("https://x/img.zfs.gz", b"not really a zfs stream".to_vec());
    t.add("https://x/index.json", b"{}".to_vec());
    assert_eq!(t.get("https://x/index.json").unwrap(), b"{}".to_vec());
    let (body, d) = t.download("https://x/img.zfs.gz").unwrap();
    assert_eq!(body, b"not really a zfs stream".to_vec());
    assert_eq!(d.bytes, 23);
    assert_eq!(d.sha256, hex(&Sha256::digest(b"not really a zfs stream")));
    t.add("https://x/index.json", b"[]".to_vec());
    assert_eq!(t.get("https://x/index.json").unwrap(), b"[]".to_vec());
    match t.download("https://x/nope") {
        Err(ImageError::Transport(m)) => assert_eq!(m, "https://x/nope: HTTP 404"),
        _ => panic!("expected a transport error"),
    }
}

#[test]
fn image_errors_read_as_messages() {
    assert_eq!(ImageError::Transport("timed out".to_owned()).message(), "fetch failed: timed out");
    assert_eq!(ImageError::Index("bad signature".to_owned()).message(), "index rejected: bad signature");
    assert_eq!(
        ImageError::Verify { expected: "ab".to_owned(), actual: "cd".to_owned() }.message(),
        "sha256 mismatch: expected ab, got cd"
    );
    assert_eq!(ImageError::Io("no space".to_owned()).message(), "no space");
    assert_eq!(ImageError::Invalid("no such image".to_owned()).message(), "no such image");
}

#[test]
fn an_import_runs_through_its_states() {
    let mut t = FakeTransport::new();
    let body = b"not really a zfs stream";
    t.add("https://x/img.zfs.gz", body.to_vec());
    let mut store = FakeStore::new();
    let p = plan(ImageType::ZoneLx, "https://x/img.zfs.gz", body);
    let (out, states) = run_import(&t, &mut store, &p);
    let dataset = format!("tank/images/{}", p.id.to_text());
    assert_eq!(out.unwrap().dataset.as_deref(), Some(dataset.as_str()));
    assert_eq!(store.datasets(), vec![dataset.clone()]);
    assert_eq!(store.snapshots(), vec![format!("{dataset}@image")]);
    assert_eq!(states, vec![ImageState::Downloading, ImageState::Verifying, ImageState::Importing]);
    assert!(!store.is_staged(&staging_path("tank", &p.id.to_text())));
}

#[test]
fn imports_keep_isos_and_fail_cleanly() {
    let mut t = FakeTransport::new();
    t.add("https://x/a.iso", b"iso".to_vec());
    t.add("https://x/b.raw.xz", b"raw".to_vec());
    t.add("https://x/c.zfs.gz", b"payload".to_vec());
    let mut store = FakeStore::new();
    let iso = plan(ImageType::VmIso, "https://x/a.iso", b"iso");
    let (out, _) = run_import(&t, &mut store, &iso);
    assert_eq!(out.unwrap().path.as_deref(), Some(iso_path_for("tank", iso.id).as_str()));
    assert_eq!(store.kept(), vec![iso_path_for("tank", iso.id)]);
    let raw = plan(ImageType::VmRaw, "https://x/b.raw.xz", b"raw");
    let (out, _) = run_import(&t, &mut store, &raw);
    assert_eq!(out.unwrap().dataset.as_deref(), Some(dataset_for("tank", raw.id).as_str()));
    let mut bad = plan(ImageType::ZoneLx, "https://x/c.zfs.gz", b"payload");
    bad.sha256 = "0".repeat(64);
    let (out, states) = run_import(&t, &mut store, &bad);
    assert!(matches!(out, Err(ImageError::Verify { .. })));
    assert_eq!(states, vec![ImageState::Downloading, ImageState::Verifying]);
    assert_eq!(store.datasets(), vec![dataset_for("tank", raw.id)]);
    assert!(!store.is_staged(&staging_path("tank", &bad.id.to_text())));
    let missing = plan(ImageType::ZoneLx, "https://x/nope", b"");
    let (out, states) = run_import(&t, &mut store, &missing);
    assert!(matches!(out, Err(ImageError::Transport(_))));
    assert_eq!(states, vec![ImageState::Downloading]);
}

#[test]
fn a_tally_hashes_chunks_as_one() {
    let mut t = Tally::new();
    t.add(b"ab");
    t.add(b"");
    t.add(b"c");
    assert_eq!(t.bytes(), 3);
    let (sha, n) = t.report();
    assert_eq!(sha, "ba7816bf8f01cfea414140de5dae2223b00361a396177a9cb410ff61f20015ad");
    assert_eq!(sha, sha256_hex(b"abc"));
    assert_eq!(n, 3);
    let mut t = Tally::new();
    t.add(b"payload");
    let d = downloaded(t);
    assert_eq!(d.bytes, 7);
    assert_eq!(d.sha256, sha256_hex(b"payload"));
    let (empty, zero) = Tally::new().report();
    assert_eq!(empty, "e3b0c44298fc1c149afbf4c8996fb92427ae41e4649b934ca495991b7852b855");
    assert_eq!(zero, 0);
}

#[test]
fn a_document_stops_at_the_cap() {
    let mut body = Vec::new();
    assert!(push_chunk(&mut body, b"abc", "https://x/i").is_ok());
    assert!(push_chunk(&mut body, &vec![0u8; MAX_DOCUMENT_BYTES - 3], "https://x/i").is_ok());
    assert_eq!(body.len(), MAX_DOCUMENT_BYTES);
    match push_chunk(&mut body, b"d", "https://x/i") {
        Err(ImageError::Transport(m)) => assert_eq!(m, "https://x/i: document larger than 8388608 bytes"),
        other => panic!("{other:?}"),
    }
    assert_eq!(body.len(), MAX_DOCUMENT_BYTES);
    assert_eq!(&body[..3], b"abc");
}

#[test]
fn different_images_land_in_different_places() {
    let a = Id::from_u128(0x0192a1b2_c3d4_7e5f_8a9b_0c1d2e3f4a70);
    let b = Id::from_u128(0x0192a1b2_c3d4_7e5f_8a9b_0c1d2e3f4a71);
    assert_eq!(dataset_for("tank", a), "tank/images/0192a1b2-c3d4-7e5f-8a9b-0c1d2e3f4a70");
    assert_ne!(dataset_for("tank", a), dataset_for("tank", b));
    assert_ne!(iso_path_for("tank", a), iso_path_for("tank", b));
    assert_eq!(Id::from_u128(0).to_text(), "00000000-0000-0000-0000-000000000000");
    assert_eq!(Id::from_u128(u128::MAX).to_text(), "ffffffff-ffff-ffff-ffff-ffffffffffff");
}
