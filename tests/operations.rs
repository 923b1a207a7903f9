use ormos::capability::{
    copy_invocation, inspect_outcome, load_outcome, mount_outcome, CapabilityResult, Invocation,
};
use ormos::service::MyOrmos;

fn ran(success: bool, stdout: &str, stderr: &str) -> CapabilityResult {
    CapabilityResult::Ran { success, stdout: stdout.to_string(), stderr: stderr.to_string() }
}

fn parts(inv: &Invocation) -> (String, Vec<String>) {
    (inv.program.clone(), inv.args.clone())
}

fn strings(v: &[&str]) -> Vec<String> {
    v.iter().map(|s| s.to_string()).collect()
}

#[test]
fn unset_mount_point_uses_the_mount_root() {
    let service = MyOrmos::default();
    let plan = service.mount_usb_device("/dev/sda1", "");
    assert_eq!(plan.mount_point, "/mnt/usb");
    assert_eq!(parts(&plan.invocation), ("mount".to_string(), strings(&["/dev/sda1", "/mnt/usb"])));
    let outcome = mount_outcome(&ran(true, "", ""));
    assert!(outcome.succeeded);
    assert_eq!(outcome.error_message, "");
}

#[test]
fn given_mount_point_is_kept() {
    let service = MyOrmos::new("/media".to_string(), "registry:5000".to_string());
    let plan = service.mount_usb_device("/dev/sdb", "/srv/stick");
    assert_eq!(plan.mount_point, "/srv/stick");
    assert_eq!(parts(&plan.invocation).1, strings(&["/dev/sdb", "/srv/stick"]));
    assert_eq!(service.path_or_root(""), "/media");
}

#[test]
fn unmount_defaults_to_the_mount_root() {
    let service = MyOrmos::default();
    assert_eq!(parts(&service.unmount_usb_device("")), ("umount".to_string(), strings(&["/mnt/usb"])));
    assert_eq!(parts(&service.unmount_usb_device("/x")).1, strings(&["/x"]));
}

#[test]
fn failed_mount_reports_stderr() {
    let outcome = mount_outcome(&ran(false, "", "mount: /mnt/usb: special device /dev/sdz does not exist."));
    assert!(!outcome.succeeded);
    assert_eq!(outcome.error_message, "mount: /mnt/usb: special device /dev/sdz does not exist.");
    let outcome = mount_outcome(&CapabilityResult::NotRun { message: "Permission denied (os error 13)".to_string() });
    assert!(!outcome.succeeded);
    assert_eq!(outcome.error_message, "Permission denied (os error 13)");
}

#[test]
fn load_targets_the_registry() {
    let service = MyOrmos::default();
    let inv = service.load_image_archive("/mnt/usb/a.tar", "app", "v1");
    assert_eq!(
        parts(&inv),
        ("skopeo".to_string(), strings(&["copy", "docker-archive:/mnt/usb/a.tar", "docker://localhost:5000/app:v1"]))
    );
    let inv = copy_invocation("/x.tar", "reg:1", "n", "t");
    assert_eq!(parts(&inv).1, strings(&["copy", "docker-archive:/x.tar", "docker://reg:1/n:t"]));
}

#[test]
fn load_of_missing_file_fails_with_message() {
    let result = load_outcome(&ran(false, "", "FATA[0000] open /nope.tar: no such file or directory"));
    assert!(!result.succeeded);
    assert!(!result.error_message.is_empty());
    assert_eq!(result.error_message, "FATA[0000] open /nope.tar: no such file or directory");
    assert!(load_outcome(&ran(true, "copied", "")).succeeded);
}

#[test]
fn inspect_of_valid_archive_returns_stdout() {
    let service = MyOrmos::default();
    assert_eq!(
        parts(&service.inspect_image_archive("/mnt/usb/a.tar")),
        ("skopeo".to_string(), strings(&["inspect", "docker-archive:/mnt/usb/a.tar"]))
    );
    let r = inspect_outcome(&ran(true, "{\"Name\": \"app\"}", "warning"));
    assert!(r.succeeded);
    assert_eq!(r.stdout, "{\"Name\": \"app\"}");
    assert_eq!(r.stderr, "");
}

#[test]
fn inspect_failure_returns_reason() {
    let r = inspect_outcome(&ran(false, "partial", "bad archive"));
    assert!(!r.succeeded);
    assert_eq!(r.stdout, "");
    assert_eq!(r.stderr, "bad archive");
    let r = inspect_outcome(&CapabilityResult::NotRun { message: "No such file or directory (os error 2)".to_string() });
    assert!(!r.succeeded);
    assert_eq!(r.stderr, "No such file or directory (os error 2)");
}
