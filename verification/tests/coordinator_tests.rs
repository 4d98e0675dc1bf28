use uenv_server::episode_coordinator::EpisodeCoordinator;

#[test]
fn duplicate_id_with_different_checksum_conflicts() {
    let mut coordinator = EpisodeCoordinator::new();
    coordinator.get_or_insert("episode-1", "checksum-a").expect("owner");
    let error = match coordinator.get_or_insert("episode-1", "checksum-b") {
        Ok(_) => panic!("different checksum must conflict"),
        Err(error) => error,
    };
    assert!(error.contains("EPISODE_ID_CONFLICT"));
}

#[test]
fn duplicate_submit_attaches_to_the_owner() {
    let mut coordinator = EpisodeCoordinator::new();
    assert_eq!(coordinator.get_or_insert("episode-1", "checksum"), Ok(true));
    assert_eq!(coordinator.get_or_insert("episode-1", "checksum"), Ok(false));
    assert_eq!(coordinator.active_count(), 1);
    assert_eq!(coordinator.get("episode-1").map(String::as_str), Some("checksum"));
}

#[test]
fn only_the_same_owner_releases_an_episode() {
    let mut coordinator = EpisodeCoordinator::new();
    coordinator.get_or_insert("episode-1", "checksum").expect("owner");
    coordinator.remove_if_same("episode-1", "other");
    assert_eq!(coordinator.active_count(), 1);
    coordinator.remove_if_same("episode-1", "checksum");
    assert_eq!(coordinator.active_count(), 0);
    assert_eq!(coordinator.get_or_insert("episode-1", "checksum-b"), Ok(true));
}
