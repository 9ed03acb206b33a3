use fridge::error::FridgeError;
use fridge::location::{
    join_path, parse_port, parse_snapshot_repository_location, parse_sync_location, Location,
    SnapshotRepositoryLocation,
};

#[test]
fn test_parse_snapshot_repository_location() {
    {
        let dst = "root@192.168.1.2:22222:/home";
        let snapshot_repository_location =
            parse_snapshot_repository_location(dst, ".snapshots").unwrap();
        assert_eq!(snapshot_repository_location.user.as_ref().unwrap(), "root");
        assert_eq!(snapshot_repository_location.host.as_ref().unwrap(), "192.168.1.2");
        assert_eq!(snapshot_repository_location.port.unwrap(), 22222);
        assert_eq!(&snapshot_repository_location.path, "/home/.snapshots");
        assert_eq!(snapshot_repository_location.is_remote(), true);
    }
    {
        let dst = "root@192.168.1.2:/home";
        let snapshot_repository_location =
            parse_snapshot_repository_location(dst, ".snapshots").unwrap();
        assert_eq!(snapshot_repository_location.user.as_ref().unwrap(), "root");
        assert_eq!(snapshot_repository_location.host.as_ref().unwrap(), "192.168.1.2");
        assert_eq!(&snapshot_repository_location.path, "/home/.snapshots");
        assert_eq!(snapshot_repository_location.is_remote(), true);
    }
    {
        let dst = "192.168.1.2:/home";
        let snapshot_repository_location =
            parse_snapshot_repository_location(dst, ".snapshots").unwrap();
        assert_eq!(&snapshot_repository_location.path, "192.168.1.2:/home/.snapshots");
        assert_eq!(snapshot_repository_location.is_remote(), false);
    }
    {
        let dst = "/run/media/EXTERNAL_HDD";
        let snapshot_repository_location =
            parse_snapshot_repository_location(dst, ".snapshots").unwrap();
        assert_eq!(&snapshot_repository_location.path, "/run/media/EXTERNAL_HDD/.snapshots");
        assert_eq!(snapshot_repository_location.is_remote(), false);
    }
    {
        let dst = "backup";
        let snapshot_repository_location =
            parse_snapshot_repository_location(dst, ".snapshots").unwrap();
        assert_eq!(&snapshot_repository_location.path, "backup/.snapshots");
        assert_eq!(snapshot_repository_location.is_remote(), false);
    }
    {
        let dst = "root@192.168.1.2:22222:/home";
        let snapshot_repository_location = parse_snapshot_repository_location(dst, "").unwrap();
        assert_eq!(snapshot_repository_location.user.as_ref().unwrap(), "root");
        assert_eq!(snapshot_repository_location.host.as_ref().unwrap(), "192.168.1.2");
        assert_eq!(snapshot_repository_location.port.unwrap(), 22222);
        assert_eq!(&snapshot_repository_location.path, "/home");
        assert_eq!(snapshot_repository_location.is_remote(), true);
    }
    {
        let dst = "root@192.168.1.2:/home";
        let snapshot_repository_location = parse_snapshot_repository_location(dst, "").unwrap();
        assert_eq!(snapshot_repository_location.user.as_ref().unwrap(), "root");
        assert_eq!(snapshot_repository_location.host.as_ref().unwrap(), "192.168.1.2");
        assert_eq!(&snapshot_repository_location.path, "/home");
        assert_eq!(snapshot_repository_location.is_remote(), true);
    }
    {
        let dst = "192.168.1.2:/home";
        let snapshot_repository_location = parse_snapshot_repository_location(dst, "").unwrap();
        assert_eq!(&snapshot_repository_location.path, "192.168.1.2:/home");
        assert_eq!(snapshot_repository_location.is_remote(), false);
    }
    {
        let dst = "/run/media/EXTERNAL_HDD";
        let snapshot_repository_location = parse_snapshot_repository_location(dst, "").unwrap();
        assert_eq!(&snapshot_repository_location.path, "/run/media/EXTERNAL_HDD");
        assert_eq!(snapshot_repository_location.is_remote(), false);
    }
    {
        let dst = "backup";
        let snapshot_repository_location = parse_snapshot_repository_location(dst, "").unwrap();
        assert_eq!(&snapshot_repository_location.path, "backup");
        assert_eq!(snapshot_repository_location.is_remote(), false);
    }
}

#[test]
fn test_parse_sync_location() {
    {
        let dst = "root@192.168.1.2:22222:/home";
        let sync_location = parse_sync_location(dst, ".snapshots").unwrap();
        assert_eq!(sync_location.user.as_ref().unwrap(), "root");
        assert_eq!(sync_location.host.as_ref().unwrap(), "192.168.1.2");
        assert_eq!(sync_location.port.unwrap(), 22222);
        assert_eq!(&sync_location.path, "/home/.snapshots");
        assert_eq!(sync_location.is_remote(), true);
    }
    {
        let dst = "root@192.168.1.2:/home";
        let sync_location = parse_sync_location(dst, ".snapshots").unwrap();
        assert_eq!(sync_location.user.as_ref().unwrap(), "root");
        assert_eq!(sync_location.host.as_ref().unwrap(), "192.168.1.2");
        assert_eq!(&sync_location.path, "/home/.snapshots");
        assert_eq!(sync_location.is_remote(), true);
    }
    {
        let dst = "192.168.1.2:/home";
        let sync_location = parse_sync_location(dst, ".snapshots").unwrap();
        assert_eq!(&sync_location.path, "192.168.1.2:/home/.snapshots");
        assert_eq!(sync_location.is_remote(), false);
    }
    {
        let dst = "/run/media/EXTERNAL_HDD";
        let sync_location = parse_sync_location(dst, ".snapshots").unwrap();
        assert_eq!(&sync_location.path, "/run/media/EXTERNAL_HDD/.snapshots");
        assert_eq!(sync_location.is_remote(), false);
    }
    {
        let dst = "backup";
        let sync_location = parse_sync_location(dst, ".snapshots").unwrap();
        assert_eq!(&sync_location.path, "backup/.snapshots");
        assert_eq!(sync_location.is_remote(), false);
    }
    {
        let dst = "root@192.168.1.2:22222:/home";
        let sync_location = parse_sync_location(dst, "").unwrap();
        assert_eq!(sync_location.user.as_ref().unwrap(), "root");
        assert_eq!(sync_location.host.as_ref().unwrap(), "192.168.1.2");
        assert_eq!(sync_location.port.unwrap(), 22222);
        assert_eq!(&sync_location.path, "/home");
        assert_eq!(sync_location.is_remote(), true);
    }
    {
        let dst = "root@192.168.1.2:/home";
        let sync_location = parse_sync_location(dst, "").unwrap();
        assert_eq!(sync_location.user.as_ref().unwrap(), "root");
        assert_eq!(sync_location.host.as_ref().unwrap(), "192.168.1.2");
        assert_eq!(&sync_location.path, "/home");
        assert_eq!(sync_location.is_remote(), true);
    }
    {
        let dst = "192.168.1.2:/home";
        let sync_location = parse_sync_location(dst, "").unwrap();
        assert_eq!(&sync_location.path, "192.168.1.2:/home");
        assert_eq!(sync_location.is_remote(), false);
    }
    {
        let dst = "/run/media/EXTERNAL_HDD";
        let sync_location = parse_sync_location(dst, "").unwrap();
        assert_eq!(&sync_location.path, "/run/media/EXTERNAL_HDD");
        assert_eq!(sync_location.is_remote(), false);
    }
    {
        let dst = "backup";
        let sync_location = parse_sync_location(dst, "").unwrap();
        assert_eq!(&sync_location.path, "backup");
        assert_eq!(sync_location.is_remote(), false);
    }
}

#[test]
fn location_with_port_has_all_four_parts() {
    let l: Location = parse_snapshot_repository_location("root@192.168.1.2:22222:/home", ".snapshots")
        .unwrap();
    assert_eq!(l.user, Some("root".to_string()));
    assert_eq!(l.host, Some("192.168.1.2".to_string()));
    assert_eq!(l.port, Some(22222));
    assert_eq!(l.path, "/home/.snapshots");
}

#[test]
fn location_without_port_leaves_the_port_unset() {
    let l = parse_snapshot_repository_location("root@192.168.1.2:/home", ".snapshots").unwrap();
    assert_eq!(l.port, None);
    assert_eq!(l.path, "/home/.snapshots");
}

#[test]
fn location_takes_the_path_after_a_token_that_is_no_port() {
    let l = parse_snapshot_repository_location("u@h:abc:def", "").unwrap();
    assert_eq!(l.port, None);
    assert_eq!(l.path, "abc");
    let l = parse_snapshot_repository_location("u@h:70000:/srv", "").unwrap();
    assert_eq!(l.port, None);
    assert_eq!(l.path, "70000");
}

#[test]
fn location_keeps_only_the_third_token_as_path() {
    let l = parse_snapshot_repository_location("u@h:22:/a:/b", "x").unwrap();
    assert_eq!(l.port, Some(22));
    assert_eq!(l.path, "/a/x");
}

#[test]
fn location_splits_the_user_at_the_first_at_sign() {
    let l = parse_snapshot_repository_location("a@b@c:/p", "").unwrap();
    assert_eq!(l.user, Some("a".to_string()));
    assert_eq!(l.host, Some("b@c".to_string()));
    assert_eq!(l.path, "/p");
}

#[test]
fn location_without_a_path_is_malformed() {
    for url in ["", "root@host", "root@host:22", "root@host:", "@"] {
        match parse_snapshot_repository_location(url, "") {
            Err(FridgeError::MalformedLocation { location }) => assert_eq!(location, url),
            other => panic!("{:?} gave {:?}", url, other),
        }
    }
    assert!(parse_sync_location("root@host:22", ".snapshots").is_err());
}

#[test]
fn location_with_empty_token_and_suffix_has_the_suffix_as_path() {
    let l = parse_snapshot_repository_location("root@host:", ".snapshots").unwrap();
    assert_eq!(l.path, ".snapshots");
    let l = parse_snapshot_repository_location("", ".snapshots").unwrap();
    assert_eq!(l.path, ".snapshots");
    assert!(!l.is_remote());
}

#[test]
fn join_path_follows_the_platform() {
    let cases = [
        ("/home", ".snapshots"),
        ("/home/", ".snapshots"),
        ("", ".snapshots"),
        ("/home", "/abs"),
        ("backup", "a/b"),
        ("/", "x"),
        ("rel/", "/"),
    ];
    for (base, name) in cases {
        let b: Vec<char> = base.chars().collect();
        let n: Vec<char> = name.chars().collect();
        let got: String = join_path(&b, &n).iter().collect();
        let want = std::path::Path::new(base).join(name).to_str().unwrap().to_string();
        assert_eq!(got, want, "{:?} joined with {:?}", base, name);
    }
    let b: Vec<char> = "/home".chars().collect();
    let n: Vec<char> = ".snapshots".chars().collect();
    let got: String = join_path(&b, &n).iter().collect();
    assert_eq!(got, "/home/.snapshots");
}

#[test]
fn parse_port_reads_what_u16_reads() {
    let cases = [
        "0", "22", "22222", "65535", "65536", "99999999999", "+22", "-22", "", "+", "2 2", "0022",
        "/home", "22a", "00000000000000000000065535", "٣",
    ];
    for text in cases {
        let v: Vec<char> = text.chars().collect();
        assert_eq!(parse_port(&v), text.parse::<u16>().ok(), "{:?}", text);
    }
    let v: Vec<char> = "22222".chars().collect();
    assert_eq!(parse_port(&v), Some(22222));
}

#[test]
fn a_location_is_remote_exactly_with_a_host() {
    let mut l = SnapshotRepositoryLocation::default();
    assert!(!l.is_remote());
    l.user = Some("root".to_string());
    assert!(!l.is_remote());
    l.host = Some("h".to_string());
    assert!(l.is_remote());
    let copy = l.clone();
    assert_eq!(copy.host, l.host);
    assert_eq!(copy.user, l.user);
}
