//! The sandboxed install manager: the guarded begin-install transition, the
//! progress-message trace of an install job, and the resolution of the
//! produced binary inside the sandbox. The subprocess itself runs outside;
//! this module decides everything around it from plain values — the exit
//! status, the captured standard error, and a directory listing.

use vstd::prelude::*;
use vstd::string::StringExecFns;

use crate::bus::{spec_request, JobSlots};
use crate::types::{AppError, FsEntry, JobCategory, ProgressMessage, SandboxInstallation};

verus! {

/// The sandbox installations on record, uniquely keyed by package identity.
#[derive(Debug)]
pub struct SandboxSet {
    pub entries: Vec<SandboxInstallation>,
}

impl SandboxSet {
    /// Whether an installation for `id` is on record.
    pub open spec fn contains_identity(self, id: Seq<char>) -> bool {
        exists|i: int| 0 <= i < self.entries@.len() && self.entries@[i].identity@ == id
    }

    /// Identities on record are pairwise distinct.
    pub open spec fn wf(self) -> bool {
        forall|i: int, j: int|
            0 <= i < j < self.entries@.len() ==> self.entries@[i].identity@
                != self.entries@[j].identity@
    }

    /// An empty record set.
    pub fn new() -> (s: SandboxSet)
        ensures
            s.entries@ == Seq::<SandboxInstallation>::empty(),
            s.wf(),
    {
        let s = SandboxSet { entries: Vec::new() };
        proof {
            assert(s.entries@ =~= Seq::<SandboxInstallation>::empty());
        }
        s
    }

    /// Executable form of `contains_identity`.
    pub fn contains(&self, id: &String) -> (b: bool)
        ensures
            b == self.contains_identity(id@),
    {
        let n = self.entries.len();
        for i in 0..n
            invariant
                n == self.entries@.len(),
                forall|k: int| 0 <= k < i ==> self.entries@[k].identity@ != id@,
        {
            if self.entries[i].identity == *id {
                return true;
            }
        }
        false
    }

    /// Records one installation; the identity must be new, so the set stays
    /// uniquely keyed.
    pub fn insert(&mut self, inst: SandboxInstallation)
        requires
            !old(self).contains_identity(inst.identity@),
        ensures
            final(self).entries@ == old(self).entries@.push(inst),
            old(self).wf() ==> final(self).wf(),
    {
        proof {
            let entries = self.entries@;
            assert forall|i: int| 0 <= i < entries.len() implies entries[i].identity@
                != inst.identity@ by {
                if entries[i].identity@ == inst.identity@ {
                    assert(self.contains_identity(inst.identity@));
                }
            };
        }
        self.entries.push(inst);
    }
}

/// One begin-install request against the install slot and the sandbox set:
/// the slots afterwards, and whether a job was started. A request for an
/// identity already on record, or while an install is outstanding, starts
/// nothing and changes nothing.
pub open spec fn spec_begin_install(slots: JobSlots, sandboxes: SandboxSet, id: Seq<char>) -> (
    JobSlots,
    bool,
) {
    if sandboxes.contains_identity(id) {
        (slots, false)
    } else {
        spec_request(slots, JobCategory::Install)
    }
}

/// The guarded begin-install transition: rejects `AlreadyInstalled` for an
/// identity that has a sandbox on record and `Busy` while an install job is
/// outstanding, both synchronously and without starting anything; otherwise
/// it occupies the install slot, and the caller must start exactly the one
/// job this call has admitted.
pub fn begin_install(slots: &mut JobSlots, sandboxes: &SandboxSet, identity: &String) -> (r: Result<
    (),
    AppError,
>)
    ensures
        (*final(slots), r is Ok) == spec_begin_install(*old(slots), *sandboxes, identity@),
        sandboxes.contains_identity(identity@) ==> r == Err::<(), AppError>(
            AppError::AlreadyInstalled,
        ),
        !sandboxes.contains_identity(identity@) && old(slots).occupied(JobCategory::Install) ==> r
            == Err::<(), AppError>(AppError::Busy),
        !sandboxes.contains_identity(identity@) && !old(slots).occupied(JobCategory::Install) ==> r
            == Ok::<(), AppError>(()),
{
    if sandboxes.contains(identity) {
        Err(AppError::AlreadyInstalled)
    } else {
        slots.acquire(JobCategory::Install)
    }
}

/// Law: a begin-install request for an identity already on record starts no
/// job and leaves the slots untouched, whatever the slots hold.
pub proof fn lemma_already_installed_rejected(
    slots: JobSlots,
    sandboxes: SandboxSet,
    id: Seq<char>,
)
    requires
        sandboxes.contains_identity(id),
    ensures
        !spec_begin_install(slots, sandboxes, id).1,
        spec_begin_install(slots, sandboxes, id).0 == slots,
{
}

/// Law: of two begin-install requests in immediate succession — the second
/// arriving while nothing else has run, so no job has reported back — at
/// most one starts a job; in particular, whenever the first is admitted,
/// the second is rejected.
pub proof fn lemma_duplicate_install_rejected(
    slots: JobSlots,
    sandboxes: SandboxSet,
    id: Seq<char>,
)
    ensures
        ({
            let first = spec_begin_install(slots, sandboxes, id);
            let second = spec_begin_install(first.0, sandboxes, id);
            &&& (first.1 ==> !second.1)
            &&& (if first.1 {
                1int
            } else {
                0int
            }) + (if second.1 {
                1int
            } else {
                0int
            }) <= 1
        }),
{
}

/// A path joined with one further component.
pub open spec fn spec_join_path(dir: Seq<char>, name: Seq<char>) -> Seq<char> {
    dir + seq!['/'] + name
}

/// Joins a directory path with one component.
pub fn join_path(dir: &String, name: &str) -> (r: String)
    ensures
        r@ == spec_join_path(dir@, name@),
{
    let mut s = dir.clone();
    s.append("/");
    s.append(name);
    proof {
        reveal_strlit("/");
        assert(s@ =~= spec_join_path(dir@, name@));
    }
    s
}

/// The isolated tool-home below an ephemeral root.
pub open spec fn tool_home_of(root: Seq<char>) -> Seq<char> {
    root + "/tool_home"@
}

/// The binary directory below an ephemeral root's tool-home.
pub open spec fn bin_dir_of(root: Seq<char>) -> Seq<char> {
    spec_join_path(tool_home_of(root), "bin"@)
}

/// The tool-home path of a root, as a string.
pub fn tool_home_path(root: &String) -> (r: String)
    ensures
        r@ == tool_home_of(root@),
{
    let mut s = root.clone();
    s.append("/tool_home");
    proof {
        reveal_strlit("/tool_home");
        reveal_strlit("/");
        reveal_strlit("tool_home");
        assert(s@ =~= root@ + "/tool_home"@);
    }
    s
}

/// The binary directory of a root, as a string.
pub fn bin_dir_path(root: &String) -> (r: String)
    ensures
        r@ == bin_dir_of(root@),
{
    let home = tool_home_path(root);
    join_path(&home, "bin")
}

/// Whether some entry of the listing carries this name.
pub open spec fn has_name(entries: Seq<FsEntry>, id: Seq<char>) -> bool {
    exists|i: int| 0 <= i < entries.len() && entries[i].name@ == id
}

/// The position of the first regular file in the listing, or `-1`.
pub open spec fn first_file_index(entries: Seq<FsEntry>) -> int
    decreases entries.len(),
{
    if entries.len() == 0 {
        -1
    } else if entries[0].is_file {
        0
    } else {
        let r = first_file_index(entries.drop_first());
        if r < 0 {
            -1
        } else {
            1 + r
        }
    }
}

/// `first_file_index` is the least position holding a regular file.
proof fn lemma_first_file_index(entries: Seq<FsEntry>, k: int)
    requires
        0 <= k <= entries.len(),
        forall|m: int| 0 <= m < k ==> !entries[m].is_file,
        k < entries.len() ==> entries[k].is_file,
    ensures
        first_file_index(entries) == if k == entries.len() {
            -1int
        } else {
            k
        },
    decreases entries.len(),
{
    if entries.len() > 0 && !entries[0].is_file {
        lemma_first_file_index(entries.drop_first(), k - 1);
    }
}

/// What the produced binary resolves to: the conventional path — the binary
/// directory joined with the package identity — when an entry of that name
/// exists; otherwise the first regular file of the listing; otherwise
/// nothing.
pub open spec fn spec_resolve_binary(
    id: Seq<char>,
    bin_dir: Seq<char>,
    entries: Seq<FsEntry>,
) -> Option<Seq<char>> {
    if has_name(entries, id) {
        Some(spec_join_path(bin_dir, id))
    } else if first_file_index(entries) >= 0 {
        Some(spec_join_path(bin_dir, entries[first_file_index(entries)].name@))
    } else {
        None
    }
}

/// Resolves the produced binary from a listing of the binary directory,
/// exactly as `spec_resolve_binary` says.
pub fn resolve_binary(identity: &String, bin_dir: &String, entries: &Vec<FsEntry>) -> (r: Option<
    String,
>)
    ensures
        match r {
            Some(p) => spec_resolve_binary(identity@, bin_dir@, entries@) == Some(p@),
            None => spec_resolve_binary(identity@, bin_dir@, entries@) is None,
        },
{
    let n = entries.len();
    for i in 0..n
        invariant
            n == entries@.len(),
            forall|k: int| 0 <= k < i ==> entries@[k].name@ != identity@,
    {
        if entries[i].name == *identity {
            return Some(join_path(bin_dir, identity.as_str()));
        }
    }
    assert(!has_name(entries@, identity@));
    for i in 0..n
        invariant
            n == entries@.len(),
            !has_name(entries@, identity@),
            forall|k: int| 0 <= k < i ==> !entries@[k].is_file,
    {
        if entries[i].is_file {
            proof {
                lemma_first_file_index(entries@, i as int);
            }
            return Some(join_path(bin_dir, entries[i].name.as_str()));
        }
    }
    proof {
        lemma_first_file_index(entries@, n as int);
    }
    None
}

/// The messages an install job sends before the installer subprocess runs.
pub open spec fn spec_install_prelude() -> Seq<ProgressMessage> {
    seq![ProgressMessage::Starting, ProgressMessage::Downloading(10)]
}

/// The fixed milestones reported before the installer subprocess is
/// invoked: the job has started, and the download stage is under way.
pub fn install_prelude() -> (msgs: Vec<ProgressMessage>)
    ensures
        msgs@ == spec_install_prelude(),
{
    let mut msgs: Vec<ProgressMessage> = Vec::new();
    msgs.push(ProgressMessage::Starting);
    msgs.push(ProgressMessage::Downloading(10));
    proof {
        assert(msgs@ =~= spec_install_prelude());
    }
    msgs
}

/// What the messages sent after the installer subprocess returns must hold:
/// a failed run yields the one `Error` carrying the captured standard
/// error; a successful run completes both progress stages and ends in
/// `SandboxReady` with a well-formed installation — or in the one `Error`
/// saying no binary was found.
pub open spec fn installs_conclusion(
    id: Seq<char>,
    root: Seq<char>,
    exit_ok: bool,
    stderr: Seq<char>,
    entries: Seq<FsEntry>,
    msgs: Seq<ProgressMessage>,
) -> bool {
    if !exit_ok {
        &&& msgs.len() == 1
        &&& msgs[0] matches ProgressMessage::Error(e) && e@ == stderr
    } else {
        &&& msgs.len() == 4
        &&& msgs[0] == ProgressMessage::Downloading(100)
        &&& msgs[1] == ProgressMessage::Compiling(75)
        &&& msgs[2] == ProgressMessage::Compiling(100)
        &&& match spec_resolve_binary(id, bin_dir_of(root), entries) {
            Some(bin) => msgs[3] matches ProgressMessage::SandboxReady(inst) && inst.identity@
                == id && inst.root@ == root && inst.tool_home@ == tool_home_of(root)
                && inst.binary_path@ == bin && inst.wf(),
            None => msgs[3] matches ProgressMessage::Error(e) && e@ == "no binary found"@,
        }
    }
}

/// The messages an install job sends once the installer subprocess has
/// returned, decided from the exit status, the captured standard error and
/// a listing of the sandbox's binary directory.
pub fn install_conclusion(
    identity: &String,
    root: &String,
    exit_ok: bool,
    stderr: String,
    entries: &Vec<FsEntry>,
) -> (msgs: Vec<ProgressMessage>)
    ensures
        installs_conclusion(identity@, root@, exit_ok, stderr@, entries@, msgs@),
{
    let mut msgs: Vec<ProgressMessage> = Vec::new();
    if !exit_ok {
        msgs.push(ProgressMessage::Error(stderr));
        return msgs;
    }
    msgs.push(ProgressMessage::Downloading(100));
    msgs.push(ProgressMessage::Compiling(75));
    msgs.push(ProgressMessage::Compiling(100));
    let bin_dir = bin_dir_path(root);
    match resolve_binary(identity, &bin_dir, entries) {
        Some(bin) => {
            let inst = SandboxInstallation {
                identity: identity.clone(),
                root: root.clone(),
                tool_home: tool_home_path(root),
                binary_path: bin,
            };
            proof {
                if has_name(entries@, identity@) {
                    lemma_binary_under_root(root@, identity@);
                } else {
                    lemma_binary_under_root(
                        root@,
                        entries@[first_file_index(entries@)].name@,
                    );
                }
                assert(inst.wf());
            }
            msgs.push(ProgressMessage::SandboxReady(inst));
        },
        None => {
            msgs.push(ProgressMessage::Error(String::from_str("no binary found")));
        },
    }
    msgs
}

/// How a terminal install message is classified for a caller that asked:
/// `SandboxReady` and `Finished` succeed; an `Error` is an `InstallFailure`
/// carrying its reason.
pub fn install_outcome(m: &ProgressMessage) -> (r: Result<(), AppError>)
    ensures
        (r is Ok) == !(m matches ProgressMessage::Error(_)),
        m matches ProgressMessage::Error(reason) ==> (r matches Err(e) && (
        e matches AppError::InstallFailure(t) && t@ == reason@)),
{
    match m {
        ProgressMessage::Error(reason) => Err(AppError::InstallFailure(reason.clone())),
        _ => Ok(()),
    }
}

/// A binary resolved inside a root's binary directory lies under the root.
proof fn lemma_binary_under_root(root: Seq<char>, name: Seq<char>)
    ensures
        root.is_prefix_of(spec_join_path(bin_dir_of(root), name)),
{
    let b = spec_join_path(bin_dir_of(root), name);
    assert(b.subrange(0, root.len() as int) =~= root);
}

/// The progress percentage a message carries, if any.
pub open spec fn percent_of(m: ProgressMessage) -> int {
    match m {
        ProgressMessage::Downloading(p) => p as int,
        ProgressMessage::Compiling(p) => p as int,
        _ => 0,
    }
}

/// A well-formed install trace: one `Starting`, then only `Downloading`
/// percentages, then only `Compiling` percentages, each within 0..=100 and
/// non-decreasing within its stage, and one terminal message at the very
/// end.
pub open spec fn well_formed_install_trace(t: Seq<ProgressMessage>) -> bool {
    exists|d: int, c: int|
        #![trigger t[d], t[c]]
        {
            &&& 1 <= d <= c == t.len() - 1
            &&& t[0] == ProgressMessage::Starting
            &&& (forall|i: int|
                1 <= i < d ==> (#[trigger] t[i] matches ProgressMessage::Downloading(p) && p <= 100))
            &&& (forall|i: int, j: int| 1 <= i <= j < d ==> percent_of(t[i]) <= percent_of(t[j]))
            &&& (forall|i: int|
                d <= i < c ==> (#[trigger] t[i] matches ProgressMessage::Compiling(p) && p <= 100))
            &&& (forall|i: int, j: int| d <= i <= j < c ==> percent_of(t[i]) <= percent_of(t[j]))
            &&& t[c].spec_is_terminal()
        }
}

/// What one drained message does to the sandbox records: `SandboxReady`
/// inserts its installation, unless that identity is already on record;
/// nothing else touches them.
pub open spec fn apply_to_sandboxes(
    s: Seq<SandboxInstallation>,
    m: ProgressMessage,
) -> Seq<SandboxInstallation> {
    match m {
        ProgressMessage::SandboxReady(inst) => {
            if exists|i: int| 0 <= i < s.len() && s[i].identity@ == inst.identity@ {
                s
            } else {
                s.push(inst)
            }
        },
        _ => s,
    }
}

/// The sandbox records after a whole message trace is folded in, in order.
pub open spec fn sandboxes_after(
    t: Seq<ProgressMessage>,
    s: Seq<SandboxInstallation>,
) -> Seq<SandboxInstallation>
    decreases t.len(),
{
    if t.len() == 0 {
        s
    } else {
        sandboxes_after(t.drop_first(), apply_to_sandboxes(s, t[0]))
    }
}

/// Law: a successful install — installer exit zero, binary resolved —
/// reports `Starting`, then `Downloading`, then `Compiling`, percentages
/// non-decreasing within each stage, and then `SandboxReady`: each stage
/// exactly once per request, with no `Error` anywhere in the trace.
pub proof fn lemma_successful_install_trace(
    id: Seq<char>,
    root: Seq<char>,
    stderr: Seq<char>,
    entries: Seq<FsEntry>,
    msgs: Seq<ProgressMessage>,
    full: Seq<ProgressMessage>,
)
    requires
        spec_resolve_binary(id, bin_dir_of(root), entries) is Some,
        installs_conclusion(id, root, true, stderr, entries, msgs),
        full == spec_install_prelude() + msgs,
    ensures
        well_formed_install_trace(full),
        full.len() == 6,
        full[5] matches ProgressMessage::SandboxReady(inst) && inst.identity@ == id,
        forall|i: int| 1 <= i < full.len() ==> full[i] != ProgressMessage::Starting,
        forall|i: int| 0 <= i < 5 ==> !(#[trigger] full[i] matches ProgressMessage::SandboxReady(_)),
        forall|i: int| 0 <= i < full.len() ==> !(#[trigger] full[i] matches ProgressMessage::Error(_)),
{
    assert(full[0] == ProgressMessage::Starting);
    assert(full[1] == ProgressMessage::Downloading(10));
    assert(full[2] == msgs[0]);
    assert(full[3] == msgs[1]);
    assert(full[4] == msgs[2]);
    assert(full[5] == msgs[3]);
    let d = 3int;
    let c = 5int;
    assert(forall|i: int|
        1 <= i < d ==> (#[trigger] full[i] matches ProgressMessage::Downloading(p) && p <= 100));
    assert(forall|i: int, j: int| 1 <= i <= j < d ==> percent_of(full[i]) <= percent_of(full[j]));
    assert(forall|i: int|
        d <= i < c ==> (#[trigger] full[i] matches ProgressMessage::Compiling(p) && p <= 100));
    assert(forall|i: int, j: int| d <= i <= j < c ==> percent_of(full[i]) <= percent_of(full[j]));
    assert(full[c].spec_is_terminal());
    assert(well_formed_install_trace(full));
}

/// Law: a failed installer run — nonzero exit — yields exactly one `Error`
/// message, carrying the captured standard error, and no `SandboxReady`;
/// folding the whole trace into any sandbox record set leaves it unchanged.
pub proof fn lemma_failed_install_trace(
    id: Seq<char>,
    root: Seq<char>,
    stderr: Seq<char>,
    entries: Seq<FsEntry>,
    msgs: Seq<ProgressMessage>,
    full: Seq<ProgressMessage>,
    s: Seq<SandboxInstallation>,
)
    requires
        installs_conclusion(id, root, false, stderr, entries, msgs),
        full == spec_install_prelude() + msgs,
    ensures
        full.len() == 3,
        full[2] matches ProgressMessage::Error(e) && e@ == stderr,
        forall|i: int| 0 <= i < 2 ==> !(#[trigger] full[i] matches ProgressMessage::Error(_)),
        forall|i: int| 0 <= i < full.len() ==> !(#[trigger] full[i] matches ProgressMessage::SandboxReady(_)),
        sandboxes_after(full, s) == s,
{
    assert(full[0] == ProgressMessage::Starting);
    assert(full[1] == ProgressMessage::Downloading(10));
    assert(full[2] == msgs[0]);
    let t1 = full.drop_first();
    let t2 = t1.drop_first();
    let t3 = t2.drop_first();
    assert(t1[0] == full[1] && t2[0] == full[2]);
    assert(t3.len() == 0);
    assert(sandboxes_after(full, s) == sandboxes_after(t1, s));
    assert(sandboxes_after(t1, s) == sandboxes_after(t2, s));
    assert(sandboxes_after(t2, s) == sandboxes_after(t3, s));
}

/// Law: a binary directory holding exactly one regular file resolves to that
/// file, even when its name differs from the package identity.
pub proof fn lemma_single_file_resolves(
    id: Seq<char>,
    bin_dir: Seq<char>,
    entries: Seq<FsEntry>,
    k: int,
)
    requires
        0 <= k < entries.len(),
        entries[k].is_file,
        forall|i: int| 0 <= i < entries.len() && i != k ==> !entries[i].is_file,
        forall|i: int| 0 <= i < entries.len() ==> entries[i].name@ != id,
    ensures
        spec_resolve_binary(id, bin_dir, entries) == Some(
            spec_join_path(bin_dir, entries[k].name@),
        ),
{
    assert(!has_name(entries, id));
    lemma_first_file_index(entries, k);
}

} // verus!
