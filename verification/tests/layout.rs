use proxmox_exporter::layout::{
    counter_directory_path, counter_file_path, marker_directory_path, vm_directory_path,
};

#[test]
fn layout_of_one_machine() {
    assert_eq!(vm_directory_path("/tmp/power", "100-web"), "/tmp/power/100-web");
    assert_eq!(
        marker_directory_path("/tmp/power", "100-web"),
        "/tmp/power/100-web/intel-rapl:0:0"
    );
    assert_eq!(
        counter_directory_path("/tmp/power", "100-web"),
        "/tmp/power/100-web/intel-rapl:0"
    );
    assert_eq!(
        counter_file_path("/tmp/power", "100-web"),
        "/tmp/power/100-web/intel-rapl:0/energy_uj"
    );
}

#[test]
fn layout_of_the_fallback_identity() {
    assert_eq!(
        counter_file_path("/srv", "unknown-vm"),
        "/srv/unknown-vm/intel-rapl:0/energy_uj"
    );
}

#[test]
fn layout_joins_as_given() {
    assert_eq!(vm_directory_path("", ""), "/");
    assert_eq!(vm_directory_path("base/", "vm"), "base//vm");
    assert_eq!(marker_directory_path("räum", "1-ü"), "räum/1-ü/intel-rapl:0:0");
}
