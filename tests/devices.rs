use ormos::device::{
    create_usb_devices, get_partitions, is_removable_attribute, is_whole_disk, list_usb_block_devices,
    DeviceEntry,
};
use ormos::mounts::get_mount_info;
use ormos::service::MyOrmos;

fn entry(name: &str, removable: bool) -> DeviceEntry {
    DeviceEntry { name: name.to_string(), removable }
}

#[test]
fn removable_disk_and_partition_are_listed() {
    let entries = vec![entry("sda", true), entry("sda1", false)];
    let mut paths = list_usb_block_devices(&entries);
    paths.sort();
    assert_eq!(paths, vec!["/dev/sda".to_string(), "/dev/sda1".to_string()]);
}

#[test]
fn empty_namespace_lists_nothing() {
    let entries: Vec<DeviceEntry> = Vec::new();
    assert!(list_usb_block_devices(&entries).is_empty());
}

#[test]
fn fixed_disks_and_other_nodes_are_skipped() {
    let entries = vec![
        entry("tty0", false),
        entry("sdb", false),
        entry("sdb1", false),
        entry("sdc", true),
        entry("sdc1", false),
        entry("sdc2", false),
        entry("nvme0n1", false),
    ];
    let paths = list_usb_block_devices(&entries);
    assert_eq!(paths, vec!["/dev/sdc".to_string(), "/dev/sdc1".to_string(), "/dev/sdc2".to_string()]);
}

#[test]
fn partitions_extend_the_disk_name() {
    let entries = vec![entry("sda", true), entry("sda1", false), entry("sdab", false), entry("sd", false), entry("sdb1", false)];
    assert_eq!(get_partitions(&entries, "sda"), vec!["/dev/sda1".to_string(), "/dev/sdab".to_string()]);
}

#[test]
fn whole_disk_pattern() {
    assert!(is_whole_disk("sda"));
    assert!(is_whole_disk("sdz"));
    assert!(!is_whole_disk("sda1"));
    assert!(!is_whole_disk("sd"));
    assert!(!is_whole_disk("hda"));
    assert!(!is_whole_disk("sdé"));
}

#[test]
fn removability_attribute_is_trimmed() {
    assert!(is_removable_attribute("1\n"));
    assert!(is_removable_attribute(" 1 "));
    assert!(is_removable_attribute("1"));
    assert!(!is_removable_attribute("0\n"));
    assert!(!is_removable_attribute("11"));
    assert!(!is_removable_attribute("1 1"));
    assert!(!is_removable_attribute(""));
    assert!(!is_removable_attribute("\n"));
}

const TABLE: &str = "sysfs /sys sysfs rw,nosuid 0 0\n/dev/sda1 /mnt/usb vfat rw,relatime 0 0\n/dev/sda1 /mnt/other vfat rw 0 0\n/dev/sdb1\n";

#[test]
fn mount_info_finds_first_record() {
    assert_eq!(get_mount_info(TABLE, "/dev/sda1"), (true, "/mnt/usb".to_string()));
    assert_eq!(get_mount_info(TABLE, "sysfs"), (true, "/sys".to_string()));
}

#[test]
fn mount_info_of_unmounted_device() {
    assert_eq!(get_mount_info(TABLE, "/dev/sdc1"), (false, String::new()));
    assert_eq!(get_mount_info(TABLE, "/dev/sdb1"), (false, String::new()));
    assert_eq!(get_mount_info("", "/dev/sda"), (false, String::new()));
    assert_eq!(get_mount_info(TABLE, "/mnt/usb"), (false, String::new()));
}

#[test]
fn mount_info_splits_on_any_whitespace() {
    let table = "  /dev/sdb1\t\t/media/stick  ext4 rw 0 0\r\nlast /end";
    assert_eq!(get_mount_info(table, "/dev/sdb1"), (true, "/media/stick".to_string()));
    assert_eq!(get_mount_info(table, "last"), (true, "/end".to_string()));
}

#[test]
fn devices_carry_their_mount_state() {
    let devices = create_usb_devices(vec!["/dev/sda1".to_string(), "/dev/sdc".to_string()], TABLE);
    assert_eq!(devices.len(), 2);
    assert_eq!(devices[0].device_path, "/dev/sda1");
    assert!(devices[0].is_mounted);
    assert_eq!(devices[0].mount_point, "/mnt/usb");
    assert_eq!(devices[1].device_path, "/dev/sdc");
    assert!(!devices[1].is_mounted);
    assert_eq!(devices[1].mount_point, "");
}

#[test]
fn listed_devices_agree_with_mount_query() {
    let service = MyOrmos::default();
    let entries = vec![entry("sda", true), entry("sda1", false)];
    let devices = service.list_usb_devices(&entries, TABLE);
    assert_eq!(devices.len(), 2);
    for d in &devices {
        let (mounted, point) = get_mount_info(TABLE, &d.device_path);
        assert_eq!(d.is_mounted, mounted);
        assert_eq!(d.mount_point, point);
        assert_eq!(d.is_mounted, !d.mount_point.is_empty());
    }
}
