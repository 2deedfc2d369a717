use cargo_ws_manage::crates::Crate;
use cargo_ws_manage::fs::{apply_actions, CargoToml, FileContent, FsAction, FsEntry, IOError, MemFs};
use cargo_ws_manage::workspace::Workspace;

fn path(path: &[&str]) -> Vec<String> {
    path.iter().map(|s| s.to_string()).collect()
}

fn entry_at<'a>(fs: &'a MemFs, p: &[&str]) -> &'a FsEntry {
    let wanted = path(p);
    for e in fs.entries.iter() {
        if e.path == wanted {
            return &e.entry;
        }
    }
    panic!("no entry at {:?}", wanted);
}

fn manifest_at<'a>(fs: &'a MemFs, p: &[&str]) -> &'a CargoToml {
    match entry_at(fs, p) {
        FsEntry::File(FileContent::Manifest(m)) => m,
        _ => panic!("no manifest at {:?}", p),
    }
}

fn text_at<'a>(fs: &'a MemFs, p: &[&str]) -> &'a str {
    match entry_at(fs, p) {
        FsEntry::File(FileContent::Text(t)) => t,
        _ => panic!("no text file at {:?}", p),
    }
}

#[test]
fn workspace_new_defaults_directory_to_project_name() {
    let ws = Workspace::new(&"demo".to_string(), &None);
    assert_eq!(ws.project_name, "demo");
    assert_eq!(ws.directory_name, "demo");
    assert!(ws.root_crate.is_none());
    assert!(ws.crates.is_empty());

    let ws2 = Workspace::new(&"demo".to_string(), &Some("other_name".to_string()));
    assert_eq!(ws2.project_name, "demo");
    assert_eq!(ws2.directory_name, "other_name");
}

#[test]
fn member_crate_plan_in_order() {
    let member = Crate::new_member("core".to_string(), "dir".to_string(), true, false);
    let actions = member.write_to_disk(&"ws".to_string());
    assert_eq!(actions.len(), 4);
    match &actions[0] {
        FsAction::CreateDir(p) => assert_eq!(*p, path(&["ws", "dir"])),
        _ => panic!("expected the member directory first"),
    }
    match &actions[1] {
        FsAction::CreateDir(p) => assert_eq!(*p, path(&["ws", "dir", "src"])),
        _ => panic!("expected the src directory second"),
    }
    match &actions[2] {
        FsAction::WriteFile(p, FileContent::Text(t)) => {
            assert_eq!(*p, path(&["ws", "dir", "src", "lib.rs"]));
            assert_eq!(t, "pub fn run() {\n    println!(\"Hello, world!\");\n}\n");
        },
        _ => panic!("expected the library stub third"),
    }
    match &actions[3] {
        FsAction::WriteFile(p, FileContent::Manifest(m)) => {
            assert_eq!(*p, path(&["ws", "dir", "Cargo.toml"]));
            let pkg = m.package.as_ref().unwrap();
            assert_eq!(pkg.pkg_name, "core");
            assert_eq!(pkg.pkg_version, "0.1.0");
            assert_eq!(pkg.pkg_edition, "2021");
            assert!(m.dependencies.is_none());
            assert!(m.workspace.is_none());
        },
        _ => panic!("expected the member manifest last"),
    }
}

#[test]
fn root_crate_plan_has_no_own_directory_and_no_manifest() {
    let root = Crate::new_root(&"demo".to_string(), true);
    let actions = root.write_to_disk(&"demo".to_string());
    assert_eq!(actions.len(), 2);
    match &actions[0] {
        FsAction::CreateDir(p) => assert_eq!(*p, path(&["demo", "src"])),
        _ => panic!("expected the src directory first"),
    }
    match &actions[1] {
        FsAction::WriteFile(p, FileContent::Text(t)) => {
            assert_eq!(*p, path(&["demo", "src", "main.rs"]));
            assert_eq!(t, "fn main() {\n    println!(\"Hello, world!\");\n}\n");
        },
        _ => panic!("expected the main stub second"),
    }
}

#[test]
fn end_to_end_root_with_one_member() {
    let mut ws = Workspace::new(&"demo".to_string(), &None);
    ws.root_crate = Some(Crate::new_root(&"demo".to_string(), true));
    ws.crates.push(Crate::new_member("core".to_string(), "core".to_string(), true, false));

    let mut fs = MemFs::new();
    assert_eq!(apply_actions(&mut fs, &ws.write_to_disk()), Ok(()));

    assert!(matches!(entry_at(&fs, &["demo"]), FsEntry::Directory));
    assert!(matches!(entry_at(&fs, &["demo", "src"]), FsEntry::Directory));
    assert!(matches!(entry_at(&fs, &["demo", "core"]), FsEntry::Directory));
    assert!(matches!(entry_at(&fs, &["demo", "core", "src"]), FsEntry::Directory));

    assert_eq!(
        text_at(&fs, &["demo", "src", "main.rs"]),
        "fn main() {\n    println!(\"Hello, world!\");\n}\n"
    );
    assert_eq!(
        text_at(&fs, &["demo", "core", "src", "lib.rs"]),
        "pub fn run() {\n    println!(\"Hello, world!\");\n}\n"
    );

    let member_manifest = manifest_at(&fs, &["demo", "core", "Cargo.toml"]);
    let member_pkg = member_manifest.package.as_ref().unwrap();
    assert_eq!(member_pkg.pkg_name, "core");
    assert_eq!(member_pkg.pkg_version, "0.1.0");
    assert_eq!(member_pkg.pkg_edition, "2021");
    assert!(member_manifest.dependencies.is_none());
    assert!(member_manifest.workspace.is_none());

    let root_manifest = manifest_at(&fs, &["demo", "Cargo.toml"]);
    let root_pkg = root_manifest.package.as_ref().unwrap();
    assert_eq!(root_pkg.pkg_name, "demo");
    assert_eq!(root_pkg.pkg_version, "0.1.0");
    assert_eq!(root_pkg.pkg_edition, "2021");
    let deps = root_manifest.dependencies.as_ref().unwrap();
    assert_eq!(deps.len(), 1);
    assert_eq!(deps[0].name, "core");
    assert_eq!(deps[0].path, "./core");
    let members = &root_manifest.workspace.as_ref().unwrap().members;
    assert_eq!(*members, path(&["core"]));

    assert_eq!(fs.entries.len(), 8);
}

#[test]
fn end_to_end_two_members_no_root() {
    let mut ws = Workspace::new(&"demo".to_string(), &None);
    ws.crates.push(Crate::new_member("a".to_string(), "a".to_string(), false, false));
    ws.crates.push(Crate::new_member("b".to_string(), "b".to_string(), false, false));

    let mut fs = MemFs::new();
    assert_eq!(apply_actions(&mut fs, &ws.write_to_disk()), Ok(()));

    let root_manifest = manifest_at(&fs, &["demo", "Cargo.toml"]);
    assert!(root_manifest.package.is_none());
    assert!(root_manifest.dependencies.is_none());
    let members = &root_manifest.workspace.as_ref().unwrap().members;
    assert_eq!(*members, path(&["a", "b"]));
}

#[test]
fn existing_directory_stops_the_whole_run() {
    let mut ws = Workspace::new(&"demo".to_string(), &None);
    ws.root_crate = Some(Crate::new_root(&"demo".to_string(), true));
    ws.crates.push(Crate::new_member("core".to_string(), "core".to_string(), true, false));

    let mut fs = MemFs::new();
    assert_eq!(fs.create_dir(&path(&["demo"])), Ok(()));
    assert_eq!(apply_actions(&mut fs, &ws.write_to_disk()), Err(IOError::AlreadyExists));
    assert_eq!(fs.entries.len(), 1);
}

#[test]
fn members_listed_by_directory_in_declaration_order() {
    let mut ws = Workspace::new(&"proj".to_string(), &None);
    ws.root_crate = Some(Crate::new_root(&"proj".to_string(), true));
    ws.crates.push(Crate::new_member("alpha".to_string(), "a_dir".to_string(), true, false));
    ws.crates.push(Crate::new_member("beta".to_string(), "b_dir".to_string(), false, true));
    ws.crates.push(Crate::new_member("gamma".to_string(), "c_dir".to_string(), true, false));

    let mut fs = MemFs::new();
    assert_eq!(apply_actions(&mut fs, &ws.write_to_disk()), Ok(()));

    let root_manifest = manifest_at(&fs, &["proj", "Cargo.toml"]);
    let members = &root_manifest.workspace.as_ref().unwrap().members;
    assert_eq!(*members, path(&["a_dir", "b_dir", "c_dir"]));

    let deps = root_manifest.dependencies.as_ref().unwrap();
    assert_eq!(deps.len(), 2);
    assert_eq!(deps[0].name, "alpha");
    assert_eq!(deps[0].path, "./a_dir");
    assert_eq!(deps[1].name, "gamma");
    assert_eq!(deps[1].path, "./c_dir");

    assert_eq!(
        text_at(&fs, &["proj", "b_dir", "src", "main.rs"]),
        "fn main() {\n    println!(\"Hello, world!\");\n}\n"
    );
}
