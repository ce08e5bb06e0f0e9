use certificate_manager::cert::{
    activate, add, deactivate, file_name_of, list, remove, stored_file_name, CertError,
    Certificate, Index,
};

fn cert(id: u32, name: &str, active: bool) -> Certificate {
    Certificate { id, name: name.to_string(), active }
}

fn sample() -> Index {
    Index::from_parts(
        3,
        vec![cert(1, "a.cer", false), cert(2, "b.crt", true), cert(3, "c.pem", false)],
    )
}

fn snapshot(idx: &Index) -> Vec<(u32, String, bool)> {
    list(idx).into_iter().map(|c| (c.id, c.name, c.active)).collect()
}

fn active_ids(idx: &Index) -> Vec<u32> {
    list(idx).into_iter().filter(|c| c.active).map(|c| c.id).collect()
}

#[test]
fn new_index_is_empty() {
    let idx = Index::new();
    assert_eq!(idx.next_id(), 0);
    assert_eq!(idx.len(), 0);
    assert!(list(&idx).is_empty());
}

#[test]
fn add_registers_inactive_under_next_id() {
    let mut idx = Index::new();
    let c = add(&mut idx, "/home/user/certs/my_cert.cer").unwrap();
    assert_eq!(c.id, 1);
    assert_eq!(c.name, "my_cert.cer");
    assert!(!c.active);
    assert_eq!(idx.next_id(), 1);
    assert_eq!(snapshot(&idx), vec![(1, "my_cert.cer".to_string(), false)]);
    let d = add(&mut idx, "other.pem").unwrap();
    assert_eq!(d.id, 2);
    assert_eq!(d.name, "other.pem");
    assert_eq!(idx.len(), 2);
}

#[test]
fn add_without_file_name_is_refused() {
    let mut idx = sample();
    let before = snapshot(&idx);
    let e = add(&mut idx, "/").unwrap_err();
    assert_eq!(e, CertError::NoFileName);
    assert_eq!(e.message(), "path has no file name");
    assert_eq!(add(&mut idx, "/tmp/..").unwrap_err(), CertError::NoFileName);
    assert_eq!(snapshot(&idx), before);
    assert_eq!(idx.next_id(), 3);
}

#[test]
fn file_name_is_last_component() {
    assert_eq!(file_name_of("/etc/ssl/corp.crt").unwrap(), "corp.crt");
    assert_eq!(file_name_of("dir/sub/").unwrap(), "sub");
    assert_eq!(file_name_of("").unwrap_err(), CertError::NoFileName);
}

#[test]
fn stored_name_is_id_underscore_name() {
    assert_eq!(stored_file_name(&cert(12, "my_cert.cer", true)), "12_my_cert.cer");
    assert_eq!(stored_file_name(&cert(0, "x", false)), "0_x");
    assert_eq!(stored_file_name(&cert(4294967295, "y.pem", false)), "4294967295_y.pem");
}

#[test]
fn activate_makes_exactly_one_active() {
    let mut idx = sample();
    let (c, change) = activate(&mut idx, 3).unwrap();
    assert_eq!(change.unlink, vec!["b.crt".to_string()]);
    assert_eq!(change.link, Some("c.pem".to_string()));
    assert_eq!((c.id, c.name.as_str(), c.active), (3, "c.pem", true));
    assert_eq!(active_ids(&idx), vec![3]);
    assert_eq!(
        snapshot(&idx),
        vec![
            (1, "a.cer".to_string(), false),
            (2, "b.crt".to_string(), false),
            (3, "c.pem".to_string(), true)
        ]
    );
    assert_eq!(idx.next_id(), 3);
}

#[test]
fn activate_unknown_id_changes_nothing() {
    let mut idx = sample();
    let before = snapshot(&idx);
    let e = activate(&mut idx, 9).unwrap_err();
    assert_eq!(e, CertError::NotFound);
    assert_eq!(e.message(), "certificate id not found");
    assert_eq!(snapshot(&idx), before);
}

#[test]
fn activate_twice_is_activate_once() {
    let mut once = sample();
    activate(&mut once, 1).unwrap();
    let mut twice = sample();
    activate(&mut twice, 1).unwrap();
    let (_, change) = activate(&mut twice, 1).unwrap();
    assert_eq!(change.unlink, vec!["a.cer".to_string()]);
    assert_eq!(change.link, Some("a.cer".to_string()));
    assert_eq!(snapshot(&once), snapshot(&twice));
}

#[test]
fn activate_then_deactivate_leaves_none_active() {
    let mut idx = sample();
    activate(&mut idx, 1).unwrap();
    let (c, change) = deactivate(&mut idx, 1).unwrap();
    assert_eq!(change.unlink, vec!["a.cer".to_string()]);
    assert_eq!(change.link, None);
    assert_eq!((c.id, c.active), (1, false));
    assert!(active_ids(&idx).is_empty());
}

#[test]
fn deactivate_touches_only_target() {
    let mut idx = sample();
    let (c, _) = deactivate(&mut idx, 2).unwrap();
    assert_eq!((c.id, c.name.as_str(), c.active), (2, "b.crt", false));
    assert_eq!(
        snapshot(&idx),
        vec![
            (1, "a.cer".to_string(), false),
            (2, "b.crt".to_string(), false),
            (3, "c.pem".to_string(), false)
        ]
    );
    assert_eq!(deactivate(&mut idx, 7).unwrap_err(), CertError::NotFound);
}

#[test]
fn remove_takes_out_exactly_that_certificate() {
    let mut idx = sample();
    let (c, change) = remove(&mut idx, 2).unwrap();
    assert_eq!(change.unlink, vec!["b.crt".to_string()]);
    assert_eq!((c.id, c.name.as_str(), c.active), (2, "b.crt", true));
    assert_eq!(
        snapshot(&idx),
        vec![(1, "a.cer".to_string(), false), (3, "c.pem".to_string(), false)]
    );
    assert_eq!(idx.next_id(), 3);
    assert_eq!(remove(&mut idx, 2).unwrap_err(), CertError::NotFound);
}

#[test]
fn removed_id_is_never_handed_out_again() {
    let mut idx = sample();
    remove(&mut idx, 3).unwrap();
    let c = add(&mut idx, "/x/new.cer").unwrap();
    assert_eq!(c.id, 4);
    assert_ne!(c.id, 3);
}

#[test]
fn add_then_remove_gives_back_the_certificates() {
    let mut idx = sample();
    let before = snapshot(&idx);
    let c = add(&mut idx, "d.cer").unwrap();
    let (back, change) = remove(&mut idx, c.id).unwrap();
    assert!(change.unlink.is_empty());
    assert_eq!(back.name, "d.cer");
    assert_eq!(snapshot(&idx), before);
    assert_eq!(idx.next_id(), 4);
}

#[test]
fn first_of_duplicate_ids_is_the_one_found() {
    let mut idx = Index::from_parts(5, vec![cert(5, "x", false), cert(5, "y", false)]);
    let (c, _) = activate(&mut idx, 5).unwrap();
    assert_eq!(c.name, "x");
    assert_eq!(snapshot(&idx)[1], (5, "y".to_string(), false));
    let (r, _) = remove(&mut idx, 5).unwrap();
    assert_eq!(r.name, "x");
}

#[test]
fn parts_round_trip() {
    let idx = sample();
    let (next, certs) = idx.into_parts();
    assert_eq!(next, 3);
    assert_eq!(certs.len(), 3);
    assert_eq!(certs[1].name, "b.crt");
    let c = certs[2].copy();
    assert_eq!((c.id, c.name.as_str(), c.active), (3, "c.pem", false));
}

fn well_formed(idx: &Index) -> bool {
    let certs = list(idx);
    let ids_bounded = certs.iter().all(|c| c.id <= idx.next_id());
    let ids_distinct = certs
        .iter()
        .enumerate()
        .all(|(i, a)| certs.iter().skip(i + 1).all(|b| b.id != a.id));
    let at_most_one_active = certs.iter().filter(|c| c.active).count() <= 1;
    ids_bounded && ids_distinct && at_most_one_active
}

#[test]
fn operations_keep_index_well_formed() {
    let mut idx = Index::new();
    assert!(well_formed(&idx));
    for p in ["/a/one.cer", "/a/two.crt", "/a/three.pem"] {
        add(&mut idx, p).unwrap();
        assert!(well_formed(&idx));
    }
    activate(&mut idx, 2).unwrap();
    assert!(well_formed(&idx));
    activate(&mut idx, 3).unwrap();
    assert!(well_formed(&idx));
    assert_eq!(active_ids(&idx), vec![3]);
    deactivate(&mut idx, 3).unwrap();
    assert!(well_formed(&idx));
    remove(&mut idx, 1).unwrap();
    assert!(well_formed(&idx));
    add(&mut idx, "/a/four.cer").unwrap();
    assert!(well_formed(&idx));
    let ids: Vec<u32> = list(&idx).iter().map(|c| c.id).collect();
    assert_eq!(ids, vec![2, 3, 4]);
}

#[test]
fn stored_name_follows_the_certificate() {
    let mut idx = sample();
    let added = add(&mut idx, "/x/corp root.pem").unwrap();
    let stored = stored_file_name(&added);
    assert_eq!(stored, "4_corp root.pem");
    let (activated, _) = activate(&mut idx, added.id).unwrap();
    assert_eq!(stored_file_name(&activated), stored);
    activate(&mut idx, 1).unwrap();
    let (removed, _) = remove(&mut idx, added.id).unwrap();
    assert_eq!(stored_file_name(&removed), stored);
    assert!(!removed.active);
}

/// The links there are after applying the changes, starting from the active names.
fn links_of(idx: &Index) -> Vec<String> {
    let mut v: Vec<String> = list(idx).into_iter().filter(|c| c.active).map(|c| c.name).collect();
    v.sort();
    v.dedup();
    v
}

fn apply(links: &mut Vec<String>, change: &certificate_manager::cert::AnchorChange) {
    links.retain(|l| !change.unlink.contains(l));
    if let Some(n) = &change.link {
        if !links.contains(n) {
            links.push(n.clone());
        }
    }
    links.sort();
}

#[test]
fn anchor_links_follow_active_certificates() {
    let mut idx = sample();
    let mut links = links_of(&idx);
    assert_eq!(links, vec!["b.crt".to_string()]);
    let (_, ch) = activate(&mut idx, 1).unwrap();
    apply(&mut links, &ch);
    assert_eq!(links, links_of(&idx));
    assert_eq!(links, vec!["a.cer".to_string()]);
    let (_, ch) = deactivate(&mut idx, 3).unwrap();
    apply(&mut links, &ch);
    assert_eq!(links, links_of(&idx));
    let (_, ch) = remove(&mut idx, 1).unwrap();
    apply(&mut links, &ch);
    assert_eq!(links, links_of(&idx));
    assert!(links.is_empty());
    add(&mut idx, "/z/new.pem").unwrap();
    assert_eq!(links, links_of(&idx));
}

#[test]
fn deactivating_a_namesake_keeps_the_active_link() {
    let mut idx = Index::from_parts(2, vec![cert(1, "a.crt", true), cert(2, "a.crt", false)]);
    let (c, change) = deactivate(&mut idx, 2).unwrap();
    assert_eq!((c.id, c.active), (2, false));
    assert!(change.unlink.is_empty());
    assert_eq!(active_ids(&idx), vec![1]);
    let (r, change) = remove(&mut idx, 2).unwrap();
    assert_eq!(r.id, 2);
    assert!(change.unlink.is_empty());
}

#[test]
fn path_without_file_name_fails_even_without_ids_left() {
    let mut idx = Index::from_parts(u32::MAX, vec![]);
    assert_eq!(add(&mut idx, "/tmp/..").unwrap_err(), CertError::NoFileName);
    assert_eq!(idx.next_id(), u32::MAX);
}

#[test]
fn file_name_agrees_with_std() {
    let paths = [
        "", "/", "//", ".", "..", "./", "../", "a", "a/", "a/b", "a//b", "a/./", "a/.", "./a",
        "a/..", "a/../b", "/x/y/z.pem", "...", "a/...", ".a", "a/.b/", "//x//", "x/./.", "./.",
        "a b/c d.crt", "/home/u/certs/my_cert.cer", "é/ü.pem",
    ];
    for p in paths {
        let std_name = std::path::Path::new(p)
            .file_name()
            .map(|n| n.to_string_lossy().to_string());
        assert_eq!(file_name_of(p).ok(), std_name, "path {:?}", p);
    }
}
