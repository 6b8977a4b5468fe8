use std::path::Path;
use thumed_helper::platform::{exe_name_for, get_bin_path, get_exe_name, is_windows};

#[test]
fn get_exe_name_uses_platform_extension() {
    let exe_name = get_exe_name("kubectl");

    if is_windows() {
        assert_eq!(exe_name, "kubectl.exe");
    } else {
        assert_eq!(exe_name, "kubectl");
    }
}

#[test]
fn get_bin_path_joins_directory_and_executable_name() {
    let bin_dir = Path::new("/tmp/thumed-bin");
    let path = get_bin_path(bin_dir, "helm");

    assert_eq!(path, bin_dir.join(get_exe_name("helm")));
}

#[test]
fn executable_names_per_platform() {
    assert_eq!(exe_name_for("helm", true), "helm.exe");
    assert_eq!(exe_name_for("helm", false), "helm");
}
