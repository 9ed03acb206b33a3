use fridge::options::SyncOpts;
use fridge::planner::{
    build_replication_plan, diff_snapshot_lists, find_parent_snapshot_to, parent_snapshot_to, sync,
};

#[test]
fn test_diff_snapshot_lists() {
    let a = vec!["a", "b"];
    let b = vec!["a"];
    let c = diff_snapshot_lists(&a, &b).unwrap();
    assert_eq!(c, vec!["b"]);
}

#[test]
fn diff_keeps_the_order_of_the_source() {
    let a = vec!["c", "a", "d", "b", "a"];
    let b = vec!["a", "x"];
    assert_eq!(diff_snapshot_lists(&a, &b).unwrap(), vec!["c", "d", "b"]);
    let none: Vec<&str> = Vec::new();
    assert_eq!(diff_snapshot_lists(&a, &none).unwrap(), a);
    assert_eq!(diff_snapshot_lists(&none, &a).unwrap(), none);
    assert_eq!(diff_snapshot_lists(&a, &a).unwrap(), none);
}

#[test]
fn parent_is_the_entry_before_the_first_occurrence() {
    let list = vec!["a", "b", "c", "b"];
    assert_eq!(find_parent_snapshot_to("a", &list), None);
    assert_eq!(find_parent_snapshot_to("b", &list), Some("a"));
    assert_eq!(find_parent_snapshot_to("c", &list), Some("b"));
    assert_eq!(find_parent_snapshot_to("z", &list), None);
    assert_eq!(find_parent_snapshot_to("a", &[]), None);
    assert_eq!(parent_snapshot_to("c", &list).unwrap(), Some("b"));
    assert_eq!(parent_snapshot_to("z", &list).unwrap(), None);
}

#[test]
fn missing_weekly_is_sent_from_the_daily_before_it() {
    let source = vec!["root@2000-01-02_03:04:05_daily", "root@2000-01-03_03:04:05_weekly"];
    let dest = vec!["root@2000-01-02_03:04:05_daily"];
    let missing = diff_snapshot_lists(&source, &dest).unwrap();
    assert_eq!(missing, vec!["root@2000-01-03_03:04:05_weekly"]);
    let plan = build_replication_plan(&missing, &source);
    assert_eq!(plan.len(), 1);
    assert_eq!(plan[0].snapshot, "root@2000-01-03_03:04:05_weekly");
    assert_eq!(plan[0].parent, Some("root@2000-01-02_03:04:05_daily".to_string()));
}

#[test]
fn plan_chains_each_step_to_the_one_before() {
    let source = vec!["s1", "s2", "s3", "s4", "s5"];
    let dest = vec!["s1", "s3"];
    let missing = diff_snapshot_lists(&source, &dest).unwrap();
    assert_eq!(missing, vec!["s2", "s4", "s5"]);
    let plan = build_replication_plan(&missing, &source);
    assert_eq!(plan.len(), 3);
    assert_eq!(plan[0].snapshot, "s2");
    assert_eq!(plan[0].parent, Some("s1".to_string()));
    assert_eq!(plan[1].snapshot, "s4");
    assert_eq!(plan[1].parent, Some("s2".to_string()));
    assert_eq!(plan[2].snapshot, "s5");
    assert_eq!(plan[2].parent, Some("s4".to_string()));
    for i in 1..plan.len() {
        assert_eq!(plan[i].parent.as_ref(), Some(&plan[i - 1].snapshot));
    }
}

#[test]
fn plan_starts_with_a_full_send_where_nothing_precedes() {
    let source = vec!["s1", "s2"];
    let plan = build_replication_plan(&source, &source);
    assert_eq!(plan[0].parent, None);
    assert_eq!(plan[1].parent, Some("s1".to_string()));
    let nothing: Vec<&str> = Vec::new();
    assert!(build_replication_plan(&nothing, &source).is_empty());
}

#[test]
fn sync_plans_the_transfers_between_both_locations() {
    let opts = SyncOpts {
        name: "root".to_string(),
        src: "/".to_string(),
        src_sudo: true,
        src_suffix: ".snapshots".to_string(),
        dst: "root@192.168.1.2:22222:/home".to_string(),
        dst_sudo: false,
        dst_suffix: ".snapshots".to_string(),
        dry_run: true,
        verbose: 2,
    };
    let source = vec!["a", "b", "c"];
    let dest = vec!["a"];
    let plan = sync(&opts, &source, &dest).unwrap();
    assert_eq!(plan.len(), 2);
    assert_eq!(plan[0].snapshot, "b");
    assert_eq!(plan[0].parent_snapshot, Some("a".to_string()));
    assert_eq!(plan[1].snapshot, "c");
    assert_eq!(plan[1].parent_snapshot, Some("b".to_string()));
    for t in &plan {
        assert_eq!(t.src.path, "/.snapshots");
        assert!(!t.src.is_remote());
        assert_eq!(t.dst.path, "/home/.snapshots");
        assert_eq!(t.dst.port, Some(22222));
        assert_eq!(t.dst.host, Some("192.168.1.2".to_string()));
        assert!(t.src_sudo);
        assert!(!t.dst_sudo);
        assert!(t.dry_run);
        assert_eq!(t.verbose, 2);
    }
    assert!(sync(&opts, &source, &source).unwrap().is_empty());
}

#[test]
fn sync_refuses_a_location_without_a_path() {
    let mut opts = SyncOpts::default();
    opts.src = "/".to_string();
    opts.dst = "root@host".to_string();
    assert!(sync(&opts, &["a"], &[]).is_err());
    opts.src = "".to_string();
    opts.dst = "/backup".to_string();
    assert!(sync(&opts, &["a"], &[]).is_err());
}
