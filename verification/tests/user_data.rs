use std::path::Path;

use dragit::user_data::{
    default_firewall_checked, default_port, extend_dir, extend_file, generate_full_path,
    get_target_path, Config, PathKind, UserConfig,
};

fn probe_disk(p: &String) -> PathKind {
    let path = Path::new(p.as_str());
    if !path.exists() {
        PathKind::Missing
    } else if path.is_file() {
        PathKind::File
    } else {
        PathKind::Directory
    }
}

#[test]
fn test_extend_dir_should_extend_name_with_timestamp() {
    let result = extend_dir("/home/user/directory/", 1111);

    assert_eq!(result, "/home/user/directory_1111");
}

#[test]
fn test_extend_dir_root_edge_case() {
    let result = extend_dir("/", 1111);

    assert_eq!(result, "/directory_1111");
}

#[test]
fn test_generate_full_file_path() {
    let result = generate_full_path("a-file.txt", "/home/user/", probe_disk, || 1111);

    assert_eq!(result, "/home/user/a-file.txt");
}

#[test]
fn test_generate_full_dir_path() {
    let result = generate_full_path("some_directory", "/home/user/", probe_disk, || 1111);

    assert_eq!(result, "/home/user/some_directory");
}

#[test]
fn extend_dir_keeps_parent() {
    assert_eq!(extend_dir("/home/user/photos", 7), "/home/user/photos_7");
    assert_eq!(extend_dir("relative/dir", 3), "relative/dir_3");
}

#[test]
fn extend_file_stamps_name_beside_existing_file() {
    assert_eq!(extend_file("/home/user/a.txt", 5), "/home/user/a_5.txt");
    assert_eq!(extend_file("/home/user/notes", 9), "/home/user/notes_9");
    assert_eq!(extend_file("/home/user/archive.tar.gz", 2), "/home/user/archive.tar_2.gz");
    assert_eq!(extend_file("/home/user/a-file.txt", 1111), "/home/user/a-file_1111.txt");
}

#[test]
fn existing_file_gets_stamped_path() {
    let result = generate_full_path("a.txt", "/home/user", |_: &String| PathKind::File, || 42);
    assert_eq!(result, "/home/user/a_42.txt");
}

#[test]
fn existing_directory_gets_stamped_path() {
    let result = generate_full_path("photos", "/home/user", |_: &String| PathKind::Directory, || 42);
    assert_eq!(result, "/home/user/photos_42");
}

#[test]
fn existing_target_is_not_reused() {
    let free = generate_full_path("x.bin", "/data", |_: &String| PathKind::Missing, || 10);
    let taken = generate_full_path("x.bin", "/data", |_: &String| PathKind::File, || 10);
    assert_eq!(free, "/data/x.bin");
    assert_ne!(free, taken);
}

#[test]
fn absolute_name_replaces_directory() {
    let result = generate_full_path("/etc/passwd", "/home/user", |_: &String| PathKind::Missing, || 1);
    assert_eq!(result, "/etc/passwd");
}

#[test]
fn target_path_prefers_given_directory() {
    let target = "/tmp/incoming".to_string();
    let given = get_target_path("f.txt", Some(&target), "/home/user/Downloads", |_: &String| PathKind::Missing, || 1);
    assert_eq!(given, "/tmp/incoming/f.txt");
    let default = get_target_path("f.txt", None, "/home/user/Downloads", |_: &String| PathKind::Missing, || 1);
    assert_eq!(default, "/home/user/Downloads/f.txt");
}

#[test]
fn defaults() {
    assert_eq!(default_port(), 36571);
    assert!(!default_firewall_checked());
}

#[test]
fn initial_config_uses_download_dir_or_home() {
    let c = Config::initial(Some("/home/u/Downloads".to_string()), "/home/u".to_string());
    assert_eq!(c.downloads, "/home/u/Downloads");
    assert_eq!(c.port, 36571);
    assert!(!c.firewall_checked);
    let h = Config::initial(None, "/home/u".to_string());
    assert_eq!(h.downloads, "/home/u");
}

#[test]
fn user_config_getters_and_setters() {
    let conf = Config { downloads: "/srv/in".to_string(), port: 4000, firewall_checked: false };
    let user = UserConfig::from_parts(conf, "/home/u/.config/dragit/config.toml".to_string());
    assert_eq!(user.get_downloads_dir(), "/srv/in");
    assert_eq!(user.get_port(), 4000);
    assert!(!user.get_firewall_checked());
    assert_eq!(user.config_path(), "/home/u/.config/dragit/config.toml");

    let moved = user.set_downloads_dir("/srv/other");
    assert_eq!(moved.downloads, "/srv/other");
    assert_eq!(moved.port, 4000);
    assert!(!moved.firewall_checked);

    let checked = user.set_firewall_checked(true);
    assert_eq!(checked.downloads, "/srv/in");
    assert_eq!(checked.port, 4000);
    assert!(checked.firewall_checked);
}
