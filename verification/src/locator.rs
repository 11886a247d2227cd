//! The worker locator: the ordered candidate lists for the packaged
//! sidecar binary, the interpreter executable and the bridge script, the
//! first-existing selection rule, and the sidecar-before-interpreter
//! precedence.
//!
//! The lists are pure data.  The surrounding application supplies what
//! only it can know — the bundled-resource directory, the working
//! directory, and which candidate paths exist on the filesystem — and the
//! verified code decides which path wins and which launch plan follows.

use vstd::prelude::*;
use crate::events::{bytes_model, copy_bytes, copy_opt_bytes, view_opt_bytes};
use vstd::string::StrSliceExecFns;
use vstd::string::StringSliceAdditionalSpecFns;

verus! {

/// `a`, a path separator, then `b`.
pub open spec fn sp_join(a: Seq<u8>, b: Seq<u8>) -> Seq<u8> {
    a + seq![47u8] + b
}

/// Executable mirror of [`sp_join`].
pub fn join_path(a: &Vec<u8>, b: &str) -> (r: Vec<u8>)
    ensures
        r@ == sp_join(a@, b.spec_bytes()),
{
    let mut r = copy_bytes(a);
    r.push(47);
    let t = b.as_bytes_vec();
    r.extend_from_slice(t.as_slice());
    proof {
        assert(r@ =~= sp_join(a@, b.spec_bytes()));
    }
    r
}

/// Index of the last path separator at or before position `i`.
pub open spec fn sp_last_slash(p: Seq<u8>, i: int) -> Option<int>
    decreases i,
{
    if !(0 <= i < p.len()) {
        None
    } else if p[i] == 47 {
        Some(i)
    } else if i == 0 {
        None
    } else {
        sp_last_slash(p, i - 1)
    }
}

/// The parent directory of a path: everything before its last separator.
pub open spec fn sp_parent(p: Seq<u8>) -> Option<Seq<u8>> {
    if p.len() == 0 {
        None
    } else {
        match sp_last_slash(p, p.len() - 1) {
            Some(k) => Some(p.subrange(0, k)),
            None => None,
        }
    }
}

/// Executable mirror of [`sp_last_slash`].
fn last_slash(p: &Vec<u8>, i: usize) -> (r: Option<usize>)
    requires
        i < p.len(),
    ensures
        (match r {
            Some(k) => Some(k as int),
            None => None,
        }) == sp_last_slash(p@, i as int),
        r matches Some(k) ==> k < p.len(),
    decreases i,
{
    if p[i] == 47 {
        Some(i)
    } else if i == 0 {
        None
    } else {
        last_slash(p, i - 1)
    }
}

/// Executable mirror of [`sp_parent`].
pub fn parent_path(p: &Vec<u8>) -> (r: Option<Vec<u8>>)
    ensures
        view_opt_bytes(r) == sp_parent(p@),
{
    if p.len() == 0 {
        return None;
    }
    match last_slash(p, p.len() - 1) {
        Some(k) => Some(crate::json::sub_bytes(p, 0, k)),
        None => None,
    }
}

/// The ordered sidecar candidates: the three name variants — bare, then
/// Windows-suffixed, then platform-tripled — under the bundled-resource
/// directory, then as bare relative names, then joined to the working
/// directory, then under the working directory's parent's fixed nested
/// subpath.
pub open spec fn sp_sidecar_candidates(res: Option<Seq<u8>>, cwd: Option<Seq<u8>>) -> Seq<
    Seq<u8>,
> {
    (match res {
        Some(r) => seq![
            sp_join(r, "bin/audiosync-cli".spec_bytes()),
            sp_join(r, "bin/audiosync-cli.exe".spec_bytes()),
            sp_join(r, "bin/audiosync-cli-x86_64-pc-windows-msvc.exe".spec_bytes()),
        ],
        None => Seq::empty(),
    }) + seq![
        "bin/audiosync-cli".spec_bytes(),
        "bin/audiosync-cli.exe".spec_bytes(),
        "bin/audiosync-cli-x86_64-pc-windows-msvc.exe".spec_bytes(),
    ] + (match cwd {
        Some(c) => seq![
            sp_join(c, "bin/audiosync-cli".spec_bytes()),
            sp_join(c, "bin/audiosync-cli.exe".spec_bytes()),
            sp_join(c, "bin/audiosync-cli-x86_64-pc-windows-msvc.exe".spec_bytes()),
        ] + (match sp_parent(c) {
            Some(p) => seq![
                sp_join(p, "src-tauri/bin/audiosync-cli".spec_bytes()),
                sp_join(p, "src-tauri/bin/audiosync-cli.exe".spec_bytes()),
                sp_join(p, "src-tauri/bin/audiosync-cli-x86_64-pc-windows-msvc.exe".spec_bytes()),
            ],
            None => Seq::empty(),
        }),
        None => Seq::empty(),
    })
}

/// Executable mirror of [`sp_sidecar_candidates`].
pub fn sidecar_candidates(res: &Option<Vec<u8>>, cwd: &Option<Vec<u8>>) -> (r: Vec<Vec<u8>>)
    ensures
        bytes_model(r@) == sp_sidecar_candidates(view_opt_bytes(*res), view_opt_bytes(*cwd)),
{
    let mut r: Vec<Vec<u8>> = Vec::new();
    match res {
        Some(b) => {
            r.push(join_path(b, "bin/audiosync-cli"));
            r.push(join_path(b, "bin/audiosync-cli.exe"));
            r.push(join_path(b, "bin/audiosync-cli-x86_64-pc-windows-msvc.exe"));
        },
        None => {},
    }
    r.push(crate::codec::lit_vec("bin/audiosync-cli"));
    r.push(crate::codec::lit_vec("bin/audiosync-cli.exe"));
    r.push(crate::codec::lit_vec("bin/audiosync-cli-x86_64-pc-windows-msvc.exe"));
    match cwd {
        Some(c) => {
            r.push(join_path(c, "bin/audiosync-cli"));
            r.push(join_path(c, "bin/audiosync-cli.exe"));
            r.push(join_path(c, "bin/audiosync-cli-x86_64-pc-windows-msvc.exe"));
            match parent_path(c) {
                Some(p) => {
                    r.push(join_path(&p, "src-tauri/bin/audiosync-cli"));
                    r.push(join_path(&p, "src-tauri/bin/audiosync-cli.exe"));
                    r.push(join_path(&p, "src-tauri/bin/audiosync-cli-x86_64-pc-windows-msvc.exe"));
                },
                None => {},
            }
        },
        None => {},
    }
    proof {
        assert(bytes_model(r@) =~= sp_sidecar_candidates(
            view_opt_bytes(*res),
            view_opt_bytes(*cwd),
        ));
    }
    r
}

/// The ordered interpreter candidates: the virtual-environment layouts
/// under two naming conventions, relative first, then joined to the
/// working directory.
pub open spec fn sp_python_candidates(cwd: Option<Seq<u8>>) -> Seq<Seq<u8>> {
    seq![
        "python/.venv/Scripts/python.exe".spec_bytes(),
        "../python/.venv/Scripts/python.exe".spec_bytes(),
        "python/.venv/bin/python".spec_bytes(),
        "../python/.venv/bin/python".spec_bytes(),
    ] + (match cwd {
        Some(c) => seq![
            sp_join(c, "python/.venv/Scripts/python.exe".spec_bytes()),
            sp_join(c, "../python/.venv/Scripts/python.exe".spec_bytes()),
            sp_join(c, "python/.venv/bin/python".spec_bytes()),
            sp_join(c, "../python/.venv/bin/python".spec_bytes()),
        ],
        None => Seq::empty(),
    })
}

/// Executable mirror of [`sp_python_candidates`].
pub fn python_candidates(cwd: &Option<Vec<u8>>) -> (r: Vec<Vec<u8>>)
    ensures
        bytes_model(r@) == sp_python_candidates(view_opt_bytes(*cwd)),
{
    let mut r: Vec<Vec<u8>> = Vec::new();
    r.push(crate::codec::lit_vec("python/.venv/Scripts/python.exe"));
    r.push(crate::codec::lit_vec("../python/.venv/Scripts/python.exe"));
    r.push(crate::codec::lit_vec("python/.venv/bin/python"));
    r.push(crate::codec::lit_vec("../python/.venv/bin/python"));
    match cwd {
        Some(c) => {
            r.push(join_path(c, "python/.venv/Scripts/python.exe"));
            r.push(join_path(c, "../python/.venv/Scripts/python.exe"));
            r.push(join_path(c, "python/.venv/bin/python"));
            r.push(join_path(c, "../python/.venv/bin/python"));
        },
        None => {},
    }
    proof {
        assert(bytes_model(r@) =~= sp_python_candidates(view_opt_bytes(*cwd)));
    }
    r
}

/// The ordered bridge-script candidates: the current directory, one level
/// up, two levels up.
pub open spec fn sp_bridge_candidates() -> Seq<Seq<u8>> {
    seq![
        "python/bridge.py".spec_bytes(),
        "../python/bridge.py".spec_bytes(),
        "../../python/bridge.py".spec_bytes(),
    ]
}

/// Executable mirror of [`sp_bridge_candidates`].
pub fn bridge_candidates() -> (r: Vec<Vec<u8>>)
    ensures
        bytes_model(r@) == sp_bridge_candidates(),
{
    let mut r: Vec<Vec<u8>> = Vec::new();
    r.push(crate::codec::lit_vec("python/bridge.py"));
    r.push(crate::codec::lit_vec("../python/bridge.py"));
    r.push(crate::codec::lit_vec("../../python/bridge.py"));
    proof {
        assert(bytes_model(r@) =~= sp_bridge_candidates());
    }
    r
}

/// Index of the first existing candidate, existence being the only
/// criterion.
pub open spec fn sp_first_present(present: Seq<bool>, i: int) -> Option<int>
    decreases present.len() - i,
{
    if !(0 <= i < present.len()) {
        None
    } else if present[i] {
        Some(i)
    } else {
        sp_first_present(present, i + 1)
    }
}

/// The first candidate that exists, given which candidates exist.
///
/// `present[k]` says whether `candidates[k]` exists on the filesystem;
/// the result is a copy of the first candidate whose flag is set.
pub fn first_existing(candidates: &Vec<Vec<u8>>, present: &Vec<bool>) -> (r: Option<Vec<u8>>)
    requires
        candidates@.len() == present@.len(),
    ensures
        view_opt_bytes(r) == (match sp_first_present(present@, 0) {
            Some(k) => Some(bytes_model(candidates@)[k]),
            None => None,
        }),
{
    let mut i: usize = 0;
    while i < present.len()
        invariant
            i <= present.len(),
            candidates@.len() == present@.len(),
            sp_first_present(present@, 0) == sp_first_present(present@, i as int),
        decreases present.len() - i,
    {
        if present[i] {
            return Some(copy_bytes(&candidates[i]));
        }
        i = i + 1;
    }
    None
}

/// The launch plan for one job.
pub enum WorkerPlan {
    /// Run the packaged sidecar binary directly.
    Sidecar(Vec<u8>),
    /// Run the bridge script under the interpreter.
    Interpreter { python: Vec<u8>, script: Vec<u8> },
    /// No worker is available: fatal for the job, before any spawn.
    Unavailable,
}

/// Mathematical view of a [`WorkerPlan`].
pub enum WorkerPlanModel {
    Sidecar(Seq<u8>),
    Interpreter { python: Seq<u8>, script: Seq<u8> },
    Unavailable,
}

impl View for WorkerPlan {
    type V = WorkerPlanModel;

    open spec fn view(&self) -> WorkerPlanModel {
        match self {
            WorkerPlan::Sidecar(p) => WorkerPlanModel::Sidecar(p@),
            WorkerPlan::Interpreter { python, script } => WorkerPlanModel::Interpreter {
                python: python@,
                script: script@,
            },
            WorkerPlan::Unavailable => WorkerPlanModel::Unavailable,
        }
    }
}

/// The launch plan that follows from what the locator found: a found
/// sidecar always wins; otherwise a found script runs under the found
/// interpreter, or under the unqualified interpreter command as a last
/// resort; no script at all means no worker.
pub open spec fn sp_plan(
    sidecar: Option<Seq<u8>>,
    python: Option<Seq<u8>>,
    script: Option<Seq<u8>>,
) -> WorkerPlanModel {
    match sidecar {
        Some(p) => WorkerPlanModel::Sidecar(p),
        None => match script {
            None => WorkerPlanModel::Unavailable,
            Some(s) => WorkerPlanModel::Interpreter {
                python: match python {
                    Some(py) => py,
                    None => "python".spec_bytes(),
                },
                script: s,
            },
        },
    }
}

/// Executable mirror of [`sp_plan`].
pub fn plan_worker(
    sidecar: &Option<Vec<u8>>,
    python: &Option<Vec<u8>>,
    script: &Option<Vec<u8>>,
) -> (r: WorkerPlan)
    ensures
        r@ == sp_plan(view_opt_bytes(*sidecar), view_opt_bytes(*python), view_opt_bytes(*script)),
{
    match sidecar {
        Some(p) => WorkerPlan::Sidecar(copy_bytes(p)),
        None => match script {
            None => WorkerPlan::Unavailable,
            Some(s) => WorkerPlan::Interpreter {
                python: match copy_opt_bytes(python) {
                    Some(py) => py,
                    None => crate::codec::lit_vec("python"),
                },
                script: copy_bytes(s),
            },
        },
    }
}

/// Locator precedence: whenever a sidecar was found, the plan runs the
/// sidecar, whatever interpreter or script was also found.
pub proof fn lemma_sidecar_precedence(
    sidecar: Seq<u8>,
    python: Option<Seq<u8>>,
    script: Option<Seq<u8>>,
)
    ensures
        sp_plan(Some(sidecar), python, script) == WorkerPlanModel::Sidecar(sidecar),
{
}


/// The sidecar the locator finds: the first existing candidate, in the
/// fixed search order.  `present[k]` reports whether the `k`-th candidate
/// of [`sidecar_candidates`] exists.
pub fn find_sidecar_path(
    res: &Option<Vec<u8>>,
    cwd: &Option<Vec<u8>>,
    present: &Vec<bool>,
) -> (r: Option<Vec<u8>>)
    requires
        present@.len() == sp_sidecar_candidates(view_opt_bytes(*res), view_opt_bytes(*cwd)).len(),
    ensures
        view_opt_bytes(r) == (match sp_first_present(present@, 0) {
            Some(k) => Some(
                sp_sidecar_candidates(view_opt_bytes(*res), view_opt_bytes(*cwd))[k],
            ),
            None => None,
        }),
{
    let c = sidecar_candidates(res, cwd);
    first_existing(&c, present)
}

/// The interpreter the locator finds among [`python_candidates`].
pub fn find_python_exe(cwd: &Option<Vec<u8>>, present: &Vec<bool>) -> (r: Option<Vec<u8>>)
    requires
        present@.len() == sp_python_candidates(view_opt_bytes(*cwd)).len(),
    ensures
        view_opt_bytes(r) == (match sp_first_present(present@, 0) {
            Some(k) => Some(sp_python_candidates(view_opt_bytes(*cwd))[k]),
            None => None,
        }),
{
    let c = python_candidates(cwd);
    first_existing(&c, present)
}

/// The bridge script the locator finds among [`bridge_candidates`].
pub fn find_bridge_path(present: &Vec<bool>) -> (r: Option<Vec<u8>>)
    requires
        present@.len() == 3,
    ensures
        view_opt_bytes(r) == (match sp_first_present(present@, 0) {
            Some(k) => Some(sp_bridge_candidates()[k]),
            None => None,
        }),
{
    let c = bridge_candidates();
    proof {
        assert(sp_bridge_candidates().len() == 3);
    }
    first_existing(&c, present)
}

} // verus!
