use prune::fs::{first_visit, removal_outcome, removal_step, PathState, RemovalStep, RemoveOutcome, SizeWalk};
use prune::models::DeleteMode;
use prune::providers::installers::OldInstallers;
use prune::system::{disk_list, VolumeReading};

fn vol(mount: &str, total: u64, available: u64) -> VolumeReading {
    VolumeReading {
        name: mount.to_string(),
        mount_point: mount.to_string(),
        file_system: "apfs".to_string(),
        total_bytes: total,
        available_bytes: available,
        is_removable: false,
    }
}

#[test]
fn the_home_volume_comes_first_and_mirrors_are_dropped() {
    let vols = vec![
        vol("/", 500, 100),
        vol("/System/Volumes/Data", 500, 100),
        vol("/Volumes/Backup", 2000, 1500),
        vol("/dev", 0, 0),
        vol("/Users", 800, 300),
    ];
    let list = disk_list("/Users/me", &vols);
    let mounts: Vec<&str> = list.iter().map(|d| d.mount_point.as_str()).collect();
    assert_eq!(mounts, vec!["/Users", "/Volumes/Backup", "/"]);
    assert!(list[0].is_primary);
    assert!(!list[1].is_primary);
}

#[test]
fn hard_links_add_their_bytes_once() {
    let mut walk = SizeWalk::new();
    assert!(walk.add_file(10, Some((1, 5))));
    assert!(!walk.add_file(10, Some((1, 5))));
    assert!(walk.add_file(3, None));
    walk.add_dir(0);
    walk.add_dir(1);
    assert_eq!(walk.stats.bytes, 13);
    assert_eq!(walk.stats.files, 3);
    assert_eq!(walk.stats.dirs, 1);
    let mut seen = Vec::new();
    assert!(first_visit(&mut seen, (2, 2)));
    assert!(!first_visit(&mut seen, (2, 2)));
}

#[test]
fn removal_follows_the_mode_and_a_vanished_path_is_fine() {
    assert_eq!(removal_step("/x", &PathState::Missing, DeleteMode::Permanent).unwrap(), RemovalStep::Nothing);
    assert_eq!(removal_step("/x", &PathState::Directory, DeleteMode::Permanent).unwrap(), RemovalStep::RemoveTree);
    assert_eq!(removal_step("/x", &PathState::Other, DeleteMode::Permanent).unwrap(), RemovalStep::RemoveFile);
    assert_eq!(removal_step("/x", &PathState::Directory, DeleteMode::Trash).unwrap(), RemovalStep::MoveToTrash);
    assert!(removal_step("/x", &PathState::Unreadable("denied".into()), DeleteMode::Trash).is_err());
    assert_eq!(removal_outcome("/x", RemovalStep::Nothing, None).unwrap(), RemoveOutcome::AlreadyGone);
    assert_eq!(removal_outcome("/x", RemovalStep::RemoveTree, None).unwrap(), RemoveOutcome::DeletedPermanently);
    assert_eq!(removal_outcome("/x", RemovalStep::MoveToTrash, None).unwrap(), RemoveOutcome::MovedToTrash);
    assert!(removal_outcome("/x", RemovalStep::MoveToTrash, Some("full".into())).is_err());
}

#[test]
fn installers_are_recognised_by_extension_and_age() {
    assert!(OldInstallers::is_installer("/d/Thing.DMG", false));
    assert!(!OldInstallers::is_installer("/d/Thing.zip", false));
    assert!(OldInstallers::is_installer("/d/setup.msi", true));
    assert!(!OldInstallers::is_installer("/d/setup.msi", false));
    let week = 7 * 86_400_000i64;
    assert!(OldInstallers::old_enough(week, Some(0)));
    assert!(!OldInstallers::old_enough(week - 1, Some(0)));
    assert!(!OldInstallers::old_enough(0, Some(week)));
    assert!(!OldInstallers::old_enough(week, None));
}
