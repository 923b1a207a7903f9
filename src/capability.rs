use vstd::prelude::*;
use crate::text::string_views;

verus! {

/// A call of an external capability: the program and its arguments.
pub struct Invocation {
    pub program: String,
    pub args: Vec<String>,
}

/// What running a capability gave back.
pub enum CapabilityResult {
    /// The process ran: its exit status and its captured output.
    Ran { success: bool, stdout: String, stderr: String },
    /// The process could not be started, or a step it needed failed first.
    NotRun { message: String },
}

/// The result of a mount or an unmount.
pub struct MountOutcome {
    pub succeeded: bool,
    pub error_message: String,
}

/// The result of loading an archive into the registry.
pub struct LoadResult {
    pub succeeded: bool,
    pub error_message: String,
}

/// The result of inspecting an archive: its metadata text, or what went wrong.
pub struct InspectResult {
    pub succeeded: bool,
    pub stdout: String,
    pub stderr: String,
}

/// Whether the capability ran and reported success.
pub open spec fn ran_ok(r: CapabilityResult) -> bool {
    r matches CapabilityResult::Ran { success: true, .. }
}

/// The message that explains a failed run: its standard error, or why it could not run.
pub open spec fn failure_text(r: CapabilityResult) -> Seq<char> {
    match r {
        CapabilityResult::Ran { success, stdout, stderr } => if success {
            Seq::empty()
        } else {
            stderr@
        },
        CapabilityResult::NotRun { message } => message@,
    }
}

/// The argument that names an archive as an image source.
pub open spec fn archive_source(path: Seq<char>) -> Seq<char> {
    "docker-archive:"@ + path
}

/// The destination reference of `name:tag` in the registry at `registry`.
pub open spec fn registry_destination(registry: Seq<char>, name: Seq<char>, tag: Seq<char>) -> Seq<char> {
    "docker://"@ + registry + "/"@ + name + ":"@ + tag
}

/// The views of an invocation: program and arguments.
pub open spec fn invocation_view(inv: Invocation) -> (Seq<char>, Seq<Seq<char>>) {
    (inv.program@, string_views(inv.args@))
}

fn one_arg(a: String) -> (r: Vec<String>)
    ensures
        string_views(r@) == seq![a@],
{
    let mut r: Vec<String> = Vec::new();
    r.push(a);
    assert(string_views(r@) =~= seq![a@]);
    r
}

fn two_args(a: String, b: String) -> (r: Vec<String>)
    ensures
        string_views(r@) == seq![a@, b@],
{
    let mut r: Vec<String> = Vec::new();
    r.push(a);
    r.push(b);
    assert(string_views(r@) =~= seq![a@, b@]);
    r
}

fn three_args(a: String, b: String, c: String) -> (r: Vec<String>)
    ensures
        string_views(r@) == seq![a@, b@, c@],
{
    let mut r: Vec<String> = Vec::new();
    r.push(a);
    r.push(b);
    r.push(c);
    assert(string_views(r@) =~= seq![a@, b@, c@]);
    r
}

/// `mount <device> <mount point>`.
pub fn mount_invocation(device_path: &str, mount_point: &str) -> (r: Invocation)
    ensures
        invocation_view(r) == ("mount"@, seq![device_path@, mount_point@]),
{
    Invocation {
        program: String::from_str("mount"),
        args: two_args(String::from_str(device_path), String::from_str(mount_point)),
    }
}

/// `umount <mount point>`.
pub fn unmount_invocation(mount_point: &str) -> (r: Invocation)
    ensures
        invocation_view(r) == ("umount"@, seq![mount_point@]),
{
    Invocation { program: String::from_str("umount"), args: one_arg(String::from_str(mount_point)) }
}

/// `skopeo inspect docker-archive:<path>`: dumps an archive's metadata, and
/// succeeds only on a structurally valid archive.
pub fn inspect_invocation(path: &str) -> (r: Invocation)
    ensures
        invocation_view(r) == ("skopeo"@, seq!["inspect"@, archive_source(path@)]),
{
    Invocation {
        program: String::from_str("skopeo"),
        args: two_args(String::from_str("inspect"), String::from_str("docker-archive:").concat(path)),
    }
}

/// `skopeo copy docker-archive:<path> docker://<registry>/<name>:<tag>`.
pub fn copy_invocation(path: &str, registry: &str, image_name: &str, image_tag: &str) -> (r: Invocation)
    ensures
        invocation_view(r) == (
            "skopeo"@,
            seq!["copy"@, archive_source(path@), registry_destination(registry@, image_name@, image_tag@)],
        ),
{
    let dest = String::from_str("docker://").concat(registry).concat("/").concat(image_name).concat(":").concat(
        image_tag,
    );
    Invocation {
        program: String::from_str("skopeo"),
        args: three_args(String::from_str("copy"), String::from_str("docker-archive:").concat(path), dest),
    }
}

/// The message of a failed run, or an empty one.
fn failure_message(result: &CapabilityResult) -> (r: String)
    ensures
        r@ == failure_text(*result),
{
    match result {
        CapabilityResult::Ran { success, stdout: _, stderr } => if *success {
            String::new()
        } else {
            stderr.clone()
        },
        CapabilityResult::NotRun { message } => message.clone(),
    }
}

/// A mount or unmount succeeds exactly when its capability ran and succeeded;
/// otherwise the message says why.
pub fn mount_outcome(result: &CapabilityResult) -> (r: MountOutcome)
    ensures
        r.succeeded == ran_ok(*result),
        r.error_message@ == failure_text(*result),
{
    MountOutcome { succeeded: ran_successfully(result), error_message: failure_message(result) }
}

/// A load succeeds exactly when the copy ran and succeeded; otherwise the
/// message says why.
pub fn load_outcome(result: &CapabilityResult) -> (r: LoadResult)
    ensures
        r.succeeded == ran_ok(*result),
        r.error_message@ == failure_text(*result),
{
    LoadResult { succeeded: ran_successfully(result), error_message: failure_message(result) }
}

/// An inspection hands back the capability's output verbatim on success and
/// the reason for failure otherwise.
pub fn inspect_outcome(result: &CapabilityResult) -> (r: InspectResult)
    ensures
        r.succeeded == ran_ok(*result),
        r.succeeded ==> r.stdout@ == result->Ran_stdout@ && r.stderr@ == Seq::<char>::empty(),
        !r.succeeded ==> r.stdout@ == Seq::<char>::empty() && r.stderr@ == failure_text(*result),
{
    match result {
        CapabilityResult::Ran { success, stdout, stderr: _ } => if *success {
            return InspectResult { succeeded: true, stdout: stdout.clone(), stderr: String::new() };
        },
        CapabilityResult::NotRun { message: _ } => {},
    }
    InspectResult { succeeded: false, stdout: String::new(), stderr: failure_message(result) }
}

/// Whether the capability ran and reported success.
pub fn ran_successfully(result: &CapabilityResult) -> (r: bool)
    ensures
        r == ran_ok(*result),
{
    match result {
        CapabilityResult::Ran { success, .. } => *success,
        CapabilityResult::NotRun { .. } => false,
    }
}

} // verus!
