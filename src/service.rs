use vstd::prelude::*;
use crate::capability::{
    archive_source, copy_invocation, inspect_invocation, invocation_view, mount_invocation,
    registry_destination, unmount_invocation, Invocation,
};
use crate::device::{
    create_usb_devices, device_record, entry_names, list_usb_block_devices, usb_device_paths,
    DeviceEntry, UsbDevice,
};

verus! {

/// The media bridge, with the settings its operations share: the mount root,
/// used where a caller names no mount point or directory, and the registry
/// endpoint that archives are loaded into.
pub struct MyOrmos {
    pub mount_root: String,
    pub registry: String,
}

/// A mount to perform: the directory to provision, and the call that mounts there.
pub struct MountPlan {
    pub mount_point: String,
    pub invocation: Invocation,
}

/// `requested`, or `root` where nothing was requested.
pub open spec fn or_root(requested: Seq<char>, root: Seq<char>) -> Seq<char> {
    if requested.len() == 0 {
        root
    } else {
        requested
    }
}

impl Default for MyOrmos {
    /// Mount root `/mnt/usb`, registry `localhost:5000`.
    fn default() -> (r: MyOrmos)
        ensures
            r.mount_root@ == "/mnt/usb"@,
            r.registry@ == "localhost:5000"@,
    {
        MyOrmos::new(String::from_str("/mnt/usb"), String::from_str("localhost:5000"))
    }
}

impl MyOrmos {
    pub fn new(mount_root: String, registry: String) -> (r: MyOrmos)
        ensures
            r.mount_root@ == mount_root@,
            r.registry@ == registry@,
    {
        MyOrmos { mount_root, registry }
    }

    /// The path a request names, or the mount root where it names none.
    pub fn path_or_root(&self, requested: &str) -> (r: String)
        ensures
            r@ == or_root(requested@, self.mount_root@),
    {
        if requested.is_empty() {
            self.mount_root.clone()
        } else {
            String::from_str(requested)
        }
    }

    /// The removable devices of a device namespace, each with its mount state
    /// as the mount table gives it.
    pub fn list_usb_devices(&self, entries: &Vec<DeviceEntry>, mount_table: &str) -> (r: Vec<UsbDevice>)
        ensures
            r@.len() == usb_device_paths(entries@, entry_names(entries@)).len(),
            forall|i: int| 0 <= i < r@.len() ==> {
                &&& (#[trigger] r@[i]).wf()
                &&& (r@[i].device_path@, r@[i].is_mounted, r@[i].mount_point@) == device_record(
                    usb_device_paths(entries@, entry_names(entries@))[i],
                    mount_table@,
                )
            },
    {
        let paths = list_usb_block_devices(entries);
        let ghost pv = paths@;
        let r = create_usb_devices(paths, mount_table);
        proof {
            assert forall|i: int| 0 <= i < r@.len() implies pv[i]@ == usb_device_paths(
                entries@,
                entry_names(entries@),
            )[i] by {
                assert(pv.map_values(|s: String| s@)[i] == pv[i]@);
            }
        }
        r
    }

    /// Mounting `device_path` at `mount_point`, or at the mount root where no
    /// point is given.
    pub fn mount_usb_device(&self, device_path: &str, mount_point: &str) -> (r: MountPlan)
        ensures
            r.mount_point@ == or_root(mount_point@, self.mount_root@),
            invocation_view(r.invocation) == ("mount"@, seq![device_path@, r.mount_point@]),
    {
        let point = self.path_or_root(mount_point);
        let invocation = mount_invocation(device_path, point.as_str());
        MountPlan { mount_point: point, invocation }
    }

    /// Unmounting what is mounted at `mount_point`, or at the mount root where
    /// no point is given.
    pub fn unmount_usb_device(&self, mount_point: &str) -> (r: Invocation)
        ensures
            invocation_view(r) == ("umount"@, seq![or_root(mount_point@, self.mount_root@)]),
    {
        let point = self.path_or_root(mount_point);
        unmount_invocation(point.as_str())
    }

    /// Copying the archive at `file_path` into the registry as `image_name:image_tag`.
    pub fn load_image_archive(&self, file_path: &str, image_name: &str, image_tag: &str) -> (r: Invocation)
        ensures
            invocation_view(r) == (
                "skopeo"@,
                seq![
                    "copy"@,
                    archive_source(file_path@),
                    registry_destination(self.registry@, image_name@, image_tag@),
                ],
            ),
    {
        copy_invocation(file_path, self.registry.as_str(), image_name, image_tag)
    }

    /// Dumping the metadata of the archive at `file_path`.
    pub fn inspect_image_archive(&self, file_path: &str) -> (r: Invocation)
        ensures
            invocation_view(r) == ("skopeo"@, seq!["inspect"@, archive_source(file_path@)]),
    {
        inspect_invocation(file_path)
    }
}

} // verus!
