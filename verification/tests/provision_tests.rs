use run_jail::params::{ParamValue, ParameterSet};
use run_jail::provision::{
    DirModel, PipelineState, Stage, pipeline_next_action, pipeline_start, pipeline_step,
};
use run_jail::templates::{TemplateKind, template_params, template_spec};

#[test]
fn pipeline_runs_all_stages_in_order() {
    let mut s = pipeline_start();
    let mut attempted = Vec::new();
    while let Some(stage) = pipeline_next_action(s) {
        attempted.push(stage);
        s = pipeline_step(s, true);
    }
    assert_eq!(s, PipelineState::Done);
    assert_eq!(
        attempted,
        vec![
            Stage::EnsureDir,
            Stage::Download,
            Stage::Extract,
            Stage::RemoveArchive,
            Stage::Create,
        ]
    );
}

#[test]
fn download_failure_short_circuits() {
    let mut s = pipeline_start();
    assert_eq!(pipeline_next_action(s), Some(Stage::EnsureDir));
    s = pipeline_step(s, true);
    assert_eq!(pipeline_next_action(s), Some(Stage::Download));
    s = pipeline_step(s, false);
    // The pipeline halts at the download: extraction and creation are
    // never offered, and no rollback stage exists.
    assert_eq!(s, PipelineState::Failed { stage: Stage::Download });
    assert_eq!(pipeline_next_action(s), None);
    let after = pipeline_step(s, true);
    assert_eq!(after, PipelineState::Failed { stage: Stage::Download });
}

#[test]
fn archive_removal_failure_is_non_fatal() {
    let mut s = pipeline_start();
    s = pipeline_step(s, true); // directory
    s = pipeline_step(s, true); // download
    s = pipeline_step(s, true); // extract
    s = pipeline_step(s, false); // removal fails: reported, not fatal
    assert_eq!(pipeline_next_action(s), Some(Stage::Create));
    s = pipeline_step(s, true);
    assert_eq!(s, PipelineState::Done);
}

#[test]
fn extract_failure_halts_before_create() {
    let mut s = pipeline_start();
    s = pipeline_step(s, true);
    s = pipeline_step(s, true);
    s = pipeline_step(s, false);
    assert_eq!(s, PipelineState::Failed { stage: Stage::Extract });
    assert_eq!(pipeline_next_action(s), None);
}

#[test]
fn directory_creation_is_idempotent() {
    let mut dirs = DirModel::new();
    let path = b"/tmp/jails/freebsd/rootfs".to_vec();
    assert!(!dirs.contains_dir(&path));
    assert!(dirs.ensure_dir(&path));
    assert!(dirs.contains_dir(&path));
    let count = dirs.dirs.len();
    // Provisioning the same template again: the stage succeeds once more
    // and the tree is unchanged.
    assert!(dirs.ensure_dir(&path));
    assert!(dirs.contains_dir(&path));
    assert_eq!(dirs.dirs.len(), count);
}

#[test]
fn directory_failure_leaves_earlier_directory_in_place() {
    let mut dirs = DirModel::new();
    let path = b"/tmp/jails/linux/rootfs".to_vec();
    let mut s = pipeline_start();
    let ok = dirs.ensure_dir(&path);
    s = pipeline_step(s, ok);
    s = pipeline_step(s, false); // download fails
    assert_eq!(s, PipelineState::Failed { stage: Stage::Download });
    // The freshly created directory is not rolled back.
    assert!(dirs.contains_dir(&path));
}

fn keys(ps: &ParameterSet) -> Vec<&[u8]> {
    ps.entries.iter().map(|e| e.key.as_slice()).collect()
}

#[test]
fn netns_preset_matches_its_definition() {
    let ps = template_params(TemplateKind::NetworkNamespaceOnly);
    assert_eq!(keys(&ps), vec![b"path".as_slice(), b"vnet", b"children.max", b"persist"]);
    assert_eq!(ps.entries[0].value, ParamValue::Text(b"/".to_vec()));
    assert_eq!(ps.entries[1].value, ParamValue::Integer(1));
    assert_eq!(ps.entries[2].value, ParamValue::Integer(99));
    assert_eq!(ps.entries[3].value, ParamValue::Flag);
}

#[test]
fn freebsd_preset_matches_its_definition() {
    let ps = template_params(TemplateKind::FreeBSDBase);
    assert_eq!(
        keys(&ps),
        vec![
            b"path".as_slice(),
            b"name",
            b"host.hostname",
            b"vnet",
            b"allow.mount.procfs",
            b"allow.mount.devfs",
            b"children.max",
            b"persist",
        ]
    );
    assert_eq!(ps.entries[0].value, ParamValue::Text(b"/tmp/jails/freebsd/rootfs".to_vec()));
    assert_eq!(ps.entries[1].value, ParamValue::Text(b"test-jail".to_vec()));
    assert_eq!(ps.entries[2].value, ParamValue::Text(b"freebsd.org".to_vec()));
}

#[test]
fn linux_template_spec_names_its_sources() {
    let t = template_spec(TemplateKind::LinuxBase);
    assert_eq!(t.rootfs_path, b"/tmp/jails/linux/rootfs".to_vec());
    assert_eq!(
        t.download_url,
        b"https://partner-images.canonical.com/core/jammy/current/ubuntu-jammy-core-cloudimg-amd64-root.tar.gz"
            .to_vec()
    );
    assert_eq!(t.archive_local_path, b"/tmp/linux_base.txz".to_vec());
    assert_eq!(t.sandbox_params.entries[1].value, ParamValue::Text(b"linux-jail".to_vec()));
}

#[test]
fn freebsd_template_spec_names_its_sources() {
    let t = template_spec(TemplateKind::FreeBSDBase);
    assert_eq!(
        t.download_url,
        b"https://download.freebsd.org/releases/amd64/14.2-RELEASE/base.txz".to_vec()
    );
    assert_eq!(t.archive_local_path, b"/tmp/freebsd_base.txz".to_vec());
}

#[test]
fn netns_template_needs_no_archive() {
    let t = template_spec(TemplateKind::NetworkNamespaceOnly);
    assert!(t.download_url.is_empty());
    assert!(t.archive_local_path.is_empty());
    assert!(t.sandbox_params.contains_path());
}

#[test]
fn template_presets_marshal() {
    for kind in [
        TemplateKind::NetworkNamespaceOnly,
        TemplateKind::FreeBSDBase,
        TemplateKind::LinuxBase,
    ] {
        let ps = template_params(kind);
        let m = ps.marshal().expect("every preset carries a path entry");
        assert_eq!(m.descs.len(), 2 * ps.len());
        let back = run_jail::params::unmarshal(&m).expect("presets decode");
        assert_eq!(back, ps);
    }
}
