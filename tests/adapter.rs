use synology_filestation_fuse::adapter::{
    child_path, disk_free_space, is_shell_probe, is_shell_probe_lowered, size_to_blocks, to_remote_path,
};
use synology_filestation_fuse::{FileStationItem, Perm, ShareAdditional, Time, VolumeStatus};

fn volume(total: u64, free: u64) -> FileStationItem<ShareAdditional> {
    FileStationItem {
        isdir: true,
        name: "s".to_string(),
        path: "/s".to_string(),
        additional: ShareAdditional {
            time: Time { atime: 0, mtime: 0, ctime: 0, crtime: 0 },
            volume_status: VolumeStatus { freespace: free, readonly: false, totalspace: total },
            perm: Perm { posix: 0o777 },
        },
    }
}

#[test]
fn child_of_root_and_nested() {
    assert_eq!(child_path("/", "shareA"), "/shareA");
    assert_eq!(child_path("/shareA", "docs"), "/shareA/docs");
}

#[test]
fn blocks_round_up() {
    assert_eq!(size_to_blocks(0, 4096), 0);
    assert_eq!(size_to_blocks(1, 4096), 1);
    assert_eq!(size_to_blocks(4096, 4096), 1);
    assert_eq!(size_to_blocks(4097, 4096), 2);
    assert_eq!(size_to_blocks(u64::MAX, 1), u64::MAX);
}

#[test]
fn disk_space_of_largest_share() {
    assert_eq!(disk_free_space(&vec![volume(10, 5), volume(30, 7), volume(30, 9)]), (30, 7));
    assert_eq!(disk_free_space(&vec![]), (0, 0));
}

#[test]
fn backslashes_become_slashes() {
    assert_eq!(to_remote_path("\\shareA\\docs"), "/shareA/docs");
}

#[test]
fn shell_probes_detected() {
    assert!(is_shell_probe("\\shareA\\Desktop.INI"));
    assert!(is_shell_probe("\\AutoRun.inf"));
    assert!(!is_shell_probe("\\shareA\\AutoRun.inf"));
    assert!(!is_shell_probe("\\shareA\\notes.txt"));
    assert!(is_shell_probe_lowered("\\a\\desktop.ini", "\\a\\DESKTOP.ini"));
}
