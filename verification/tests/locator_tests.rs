use syncbridge::locator::{
    bridge_candidates, find_bridge_path, find_python_exe, find_sidecar_path, first_existing,
    parent_path, plan_worker, python_candidates, sidecar_candidates, WorkerPlan,
};

fn b(s: &str) -> Vec<u8> {
    s.as_bytes().to_vec()
}

#[test]
fn sidecar_candidate_order_with_all_bases() {
    let res = Some(b("/app/resources"));
    let cwd = Some(b("/home/user/project"));
    let c = sidecar_candidates(&res, &cwd);
    let expect = vec![
        b("/app/resources/bin/audiosync-cli"),
        b("/app/resources/bin/audiosync-cli.exe"),
        b("/app/resources/bin/audiosync-cli-x86_64-pc-windows-msvc.exe"),
        b("bin/audiosync-cli"),
        b("bin/audiosync-cli.exe"),
        b("bin/audiosync-cli-x86_64-pc-windows-msvc.exe"),
        b("/home/user/project/bin/audiosync-cli"),
        b("/home/user/project/bin/audiosync-cli.exe"),
        b("/home/user/project/bin/audiosync-cli-x86_64-pc-windows-msvc.exe"),
        b("/home/user/src-tauri/bin/audiosync-cli"),
        b("/home/user/src-tauri/bin/audiosync-cli.exe"),
        b("/home/user/src-tauri/bin/audiosync-cli-x86_64-pc-windows-msvc.exe"),
    ];
    assert_eq!(c, expect);
}

#[test]
fn sidecar_candidates_without_bases() {
    let c = sidecar_candidates(&None, &None);
    assert_eq!(
        c,
        vec![
            b("bin/audiosync-cli"),
            b("bin/audiosync-cli.exe"),
            b("bin/audiosync-cli-x86_64-pc-windows-msvc.exe"),
        ]
    );
}

#[test]
fn python_candidate_order() {
    let c = python_candidates(&Some(b("/w")));
    assert_eq!(
        c,
        vec![
            b("python/.venv/Scripts/python.exe"),
            b("../python/.venv/Scripts/python.exe"),
            b("python/.venv/bin/python"),
            b("../python/.venv/bin/python"),
            b("/w/python/.venv/Scripts/python.exe"),
            b("/w/../python/.venv/Scripts/python.exe"),
            b("/w/python/.venv/bin/python"),
            b("/w/../python/.venv/bin/python"),
        ]
    );
}

#[test]
fn bridge_candidate_order() {
    assert_eq!(
        bridge_candidates(),
        vec![b("python/bridge.py"), b("../python/bridge.py"), b("../../python/bridge.py")]
    );
}

#[test]
fn first_existing_picks_the_first() {
    let cands = vec![b("one"), b("two"), b("three")];
    assert_eq!(first_existing(&cands, &vec![false, true, true]), Some(b("two")));
    assert_eq!(first_existing(&cands, &vec![true, false, true]), Some(b("one")));
    assert_eq!(first_existing(&cands, &vec![false, false, false]), None);
}

#[test]
fn parent_path_strips_the_last_component() {
    assert_eq!(parent_path(&b("/home/user/project")), Some(b("/home/user")));
    assert_eq!(parent_path(&b("plain")), None);
    assert_eq!(parent_path(&b("")), None);
}

#[test]
fn sidecar_wins_when_both_forms_exist() {
    // Locator precedence: sidecar before interpreter plus script.
    let plan = plan_worker(
        &Some(b("/app/bin/audiosync-cli")),
        &Some(b("python/.venv/bin/python")),
        &Some(b("python/bridge.py")),
    );
    match plan {
        WorkerPlan::Sidecar(p) => assert_eq!(p, b("/app/bin/audiosync-cli")),
        _ => panic!("sidecar must win"),
    }
}

#[test]
fn interpreter_fallback_uses_found_python() {
    match plan_worker(&None, &Some(b("/venv/python")), &Some(b("python/bridge.py"))) {
        WorkerPlan::Interpreter { python, script } => {
            assert_eq!(python, b("/venv/python"));
            assert_eq!(script, b("python/bridge.py"));
        },
        _ => panic!("expected interpreter plan"),
    }
}

#[test]
fn interpreter_fallback_defaults_to_bare_command() {
    match plan_worker(&None, &None, &Some(b("python/bridge.py"))) {
        WorkerPlan::Interpreter { python, .. } => assert_eq!(python, b("python")),
        _ => panic!("expected interpreter plan"),
    }
}

#[test]
fn no_script_means_no_worker() {
    match plan_worker(&None, &Some(b("/venv/python")), &None) {
        WorkerPlan::Unavailable => {},
        _ => panic!("expected unavailable"),
    }
}

#[test]
fn named_finders_follow_their_lists() {
    let present = vec![false, false, true];
    assert_eq!(find_bridge_path(&present), Some(b("../../python/bridge.py")));
    assert_eq!(find_bridge_path(&vec![false, false, false]), None);

    let cwd = Some(b("/w"));
    let pc = python_candidates(&cwd);
    let mut present = vec![false; pc.len()];
    present[2] = true;
    assert_eq!(find_python_exe(&cwd, &present), Some(b("python/.venv/bin/python")));

    let res = Some(b("/r"));
    let sc = sidecar_candidates(&res, &cwd);
    let mut present = vec![false; sc.len()];
    present[0] = true;
    present[5] = true;
    assert_eq!(find_sidecar_path(&res, &cwd, &present), Some(b("/r/bin/audiosync-cli")));
}
