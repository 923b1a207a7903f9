use vstd::prelude::*;
use crate::mounts::{get_mount_info, lemma_mount_point_nonempty, mount_state};
use crate::text::{chars_of, is_white_space, string_views, white_space};

verus! {

/// A removable block device or one of its partitions, as one enumeration saw it.
pub struct UsbDevice {
    pub device_path: String,
    pub is_mounted: bool,
    pub mount_point: String,
}

impl UsbDevice {
    /// The mount point is set exactly when the device is mounted.
    pub open spec fn wf(&self) -> bool {
        self.is_mounted <==> self.mount_point@.len() > 0
    }
}

/// One entry of the device namespace: its name, and whether the device's
/// removability attribute reads as removable (only whole disks are asked).
pub struct DeviceEntry {
    pub name: String,
    pub removable: bool,
}

/// What a listed device holds: its path and the mount state of that path.
pub open spec fn device_record(path: Seq<char>, table: Seq<char>) -> (Seq<char>, bool, Seq<char>) {
    (path, mount_state(table, path).0, mount_state(table, path).1)
}

/// A name of the whole-disk pattern: `sd` and one more single-byte character.
pub open spec fn is_whole_disk_name(name: Seq<char>) -> bool {
    name.len() == 3 && name[0] == 's' && name[1] == 'd' && (name[2] as u32) < 0x80
}

/// `name` names a partition of `disk`: it extends the disk's name.
pub open spec fn is_partition_name(name: Seq<char>, disk: Seq<char>) -> bool {
    disk.len() < name.len() && name.subrange(0, disk.len() as int) == disk
}

/// The device node path of a name in the device namespace.
pub open spec fn dev_path(name: Seq<char>) -> Seq<char> {
    "/dev/"@ + name
}

/// The text of a removability attribute says removable: a `1` with only
/// whitespace around it.
pub open spec fn says_removable(text: Seq<char>) -> bool {
    exists|k: int|
        0 <= k < text.len() && text[k] == '1' && forall|j: int|
            0 <= j < text.len() && j != k ==> is_white_space(#[trigger] text[j])
}

/// The names of a sequence of entries.
pub open spec fn entry_names(es: Seq<DeviceEntry>) -> Seq<Seq<char>> {
    es.map_values(|e: DeviceEntry| e.name@)
}

/// The paths of the partitions of `disk` among `names`, in order.
pub open spec fn partition_paths(names: Seq<Seq<char>>, disk: Seq<char>) -> Seq<Seq<char>>
    decreases names.len(),
{
    if names.len() == 0 {
        Seq::empty()
    } else if is_partition_name(names.last(), disk) {
        partition_paths(names.drop_last(), disk).push(dev_path(names.last()))
    } else {
        partition_paths(names.drop_last(), disk)
    }
}

/// The device paths that enumeration reports for `es`, taken from a namespace
/// whose names are `all`: each removable whole disk, followed by its partitions.
pub open spec fn usb_device_paths(es: Seq<DeviceEntry>, all: Seq<Seq<char>>) -> Seq<Seq<char>>
    decreases es.len(),
{
    if es.len() == 0 {
        Seq::empty()
    } else {
        let prev = usb_device_paths(es.drop_last(), all);
        let e = es.last();
        if is_whole_disk_name(e.name@) && e.removable {
            prev.push(dev_path(e.name@)) + partition_paths(all, e.name@)
        } else {
            prev
        }
    }
}

/// Whether `name` follows the whole-disk naming pattern.
pub fn is_whole_disk(name: &str) -> (r: bool)
    ensures
        r == is_whole_disk_name(name@),
{
    let v = chars_of(name);
    v.len() == 3 && v[0] == 's' && v[1] == 'd' && (v[2] as u32) < 0x80
}

/// Whether the text of a removability attribute, once trimmed, is `1`.
pub fn is_removable_attribute(text: &str) -> (r: bool)
    ensures
        r == says_removable(text@),
{
    let v = chars_of(text);
    let mut seen = false;
    let mut pos: usize = 0;
    let mut i: usize = 0;
    while i < v.len()
        invariant
            i <= v.len(),
            v@ == text@,
            seen ==> pos < i && !is_white_space(v@[pos as int]),
            forall|j: int| 0 <= j < i && !(seen && j == pos) ==> is_white_space(#[trigger] v@[j]),
        decreases v.len() - i,
    {
        if !white_space(v[i]) {
            if seen {
                proof {
                    assert forall|k: int| 0 <= k < v@.len() && v@[k] == '1' implies
                        !(forall|j: int| 0 <= j < v@.len() && j != k ==> is_white_space(#[trigger] v@[j])) by {
                        if k == pos {
                            assert(!is_white_space(v@[i as int]));
                        } else {
                            assert(!is_white_space(v@[pos as int]));
                        }
                    }
                }
                return false;
            }
            seen = true;
            pos = i;
        }
        i = i + 1;
    }
    if seen && v[pos] == '1' {
        assert(forall|j: int| 0 <= j < v@.len() && j != pos ==> is_white_space(#[trigger] v@[j]));
        true
    } else {
        proof {
            assert forall|k: int| 0 <= k < v@.len() && v@[k] == '1' implies
                !(forall|j: int| 0 <= j < v@.len() && j != k ==> is_white_space(#[trigger] v@[j])) by {
                if seen {
                    if k != pos {
                        assert(!is_white_space(v@[pos as int]));
                    }
                } else {
                    assert(is_white_space(v@[k]));
                    assert(!is_white_space('1')) by {
                        assert(('1' as u32) == 0x31);
                    }
                }
            }
        }
        false
    }
}

/// Whether `name` extends `disk`.
fn extends(name: &Vec<char>, disk: &Vec<char>) -> (r: bool)
    ensures
        r == is_partition_name(name@, disk@),
{
    if name.len() <= disk.len() {
        return false;
    }
    let mut k: usize = 0;
    while k < disk.len()
        invariant
            disk.len() < name.len(),
            k <= disk.len(),
            forall|j: int| 0 <= j < k ==> name@[j] == disk@[j],
        decreases disk.len() - k,
    {
        if name[k] != disk[k] {
            assert(name@.subrange(0, disk.len() as int)[k as int] != disk@[k as int]);
            return false;
        }
        k = k + 1;
    }
    assert(name@.subrange(0, disk.len() as int) =~= disk@);
    true
}

/// The device node path for `name`.
fn device_node_path(name: &str) -> (r: String)
    ensures
        r@ == dev_path(name@),
{
    String::from_str("/dev/").concat(name)
}

/// The device paths of the partitions of `device_name` among the namespace's entries.
pub fn get_partitions(entries: &Vec<DeviceEntry>, device_name: &str) -> (r: Vec<String>)
    ensures
        string_views(r@) == partition_paths(entry_names(entries@), device_name@),
{
    let disk = chars_of(device_name);
    let mut r: Vec<String> = Vec::new();
    let mut i: usize = 0;
    while i < entries.len()
        invariant
            i <= entries.len(),
            disk@ == device_name@,
            string_views(r@) == partition_paths(entry_names(entries@.take(i as int)), device_name@),
        decreases entries.len() - i,
    {
        let ghost pre = entries@.take(i as int);
        assert(entry_names(entries@.take(i + 1)).drop_last() =~= entry_names(pre));
        assert(entry_names(entries@.take(i + 1)).last() == entries@[i as int].name@);
        let name = chars_of(entries[i].name.as_str());
        if extends(&name, &disk) {
            let p = device_node_path(entries[i].name.as_str());
            let ghost before = r@;
            r.push(p);
            assert(string_views(r@) =~= string_views(before).push(p@));
        }
        i = i + 1;
    }
    assert(entries@.take(entries.len() as int) =~= entries@);
    r
}

/// The removable devices of a device namespace: every removable whole disk,
/// each followed by the partitions named after it. An empty namespace gives
/// an empty list.
pub fn list_usb_block_devices(entries: &Vec<DeviceEntry>) -> (r: Vec<String>)
    ensures
        string_views(r@) == usb_device_paths(entries@, entry_names(entries@)),
        entries@.len() == 0 ==> r@.len() == 0,
{
    let mut r: Vec<String> = Vec::new();
    let mut i: usize = 0;
    while i < entries.len()
        invariant
            i <= entries.len(),
            string_views(r@) == usb_device_paths(entries@.take(i as int), entry_names(entries@)),
        decreases entries.len() - i,
    {
        assert(entries@.take(i + 1).drop_last() =~= entries@.take(i as int));
        assert(entries@.take(i + 1).last() == entries@[i as int]);
        let e = &entries[i];
        if is_whole_disk(e.name.as_str()) && e.removable {
            let ghost before = r@;
            r.push(device_node_path(e.name.as_str()));
            let mut parts = get_partitions(entries, e.name.as_str());
            let ghost mid = r@;
            let ghost pv = parts@;
            r.append(&mut parts);
            assert(string_views(r@) =~= string_views(mid) + string_views(pv));
            assert(string_views(mid) =~= string_views(before).push(mid.last()@));
        }
        i = i + 1;
    }
    assert(entries@.take(entries.len() as int) =~= entries@);
    r
}

/// A listed device carries exactly what the mount-state query answers for its
/// path on the same mount table, and its mount point is set exactly when it
/// is mounted.
pub proof fn lemma_listing_agrees_with_query(path: Seq<char>, table: Seq<char>)
    ensures
        device_record(path, table).0 == path,
        (device_record(path, table).1, device_record(path, table).2) == mount_state(table, path),
        device_record(path, table).1 <==> device_record(path, table).2.len() > 0,
{
    lemma_mount_point_nonempty(table, path);
}

/// Pairs each device path with what the mount table says of it.
pub fn create_usb_devices(device_paths: Vec<String>, mount_table: &str) -> (r: Vec<UsbDevice>)
    ensures
        r@.len() == device_paths@.len(),
        forall|i: int| 0 <= i < r@.len() ==> {
            &&& (#[trigger] r@[i]).wf()
            &&& (r@[i].device_path@, r@[i].is_mounted, r@[i].mount_point@)
                == device_record(device_paths@[i]@, mount_table@)
        },
{
    let mut r: Vec<UsbDevice> = Vec::new();
    let mut i: usize = 0;
    while i < device_paths.len()
        invariant
            i <= device_paths.len(),
            r@.len() == i,
            forall|j: int| 0 <= j < i ==> {
                &&& (#[trigger] r@[j]).wf()
                &&& (r@[j].device_path@, r@[j].is_mounted, r@[j].mount_point@)
                    == device_record(device_paths@[j]@, mount_table@)
            },
        decreases device_paths.len() - i,
    {
        let path = device_paths[i].clone();
        let (is_mounted, mount_point) = get_mount_info(mount_table, path.as_str());
        r.push(UsbDevice { device_path: path, is_mounted, mount_point });
        i = i + 1;
    }
    r
}

} // verus!
