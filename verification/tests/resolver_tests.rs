use remote_prover::registry::{ProgramEntry, Registry, RegistryError};
use remote_prover::resolver::{ResolveStep, Resolver};

fn entry(id: &str, imports: &[&str]) -> ProgramEntry {
    ProgramEntry {
        id: id.to_owned(),
        imports: imports.iter().map(|s| (*s).to_owned()).collect(),
        edition: None,
    }
}

fn seeds(ids: &[&str]) -> Vec<String> {
    ids.iter().map(|s| (*s).to_owned()).collect()
}

/// Drives a resolution against a scripted import graph, recording which
/// programs the resolver asked to fetch and which it installed, in order.
fn resolve_logged(
    reg: &mut Registry,
    seed_ids: &[&str],
    graph: &[(&str, &[&str])],
) -> (Result<(), String>, Vec<String>, Vec<String>) {
    let mut fetched: Vec<String> = Vec::new();
    let mut installed: Vec<(String, Option<u16>)> = Vec::new();
    let mut resolver = Resolver::new(seeds(seed_ids));
    loop {
        match resolver.step(reg, &mut installed) {
            ResolveStep::Done => {
                let order = installed.into_iter().map(|(id, _)| id).collect();
                return (Ok(()), fetched, order);
            }
            ResolveStep::NeedProgram(id) => {
                fetched.push(id.clone());
                let imports: &[&str] = graph
                    .iter()
                    .find(|(node, _)| *node == id)
                    .map(|(_, imports)| *imports)
                    .unwrap_or(&[]);
                resolver.provide(reg, entry(&id, imports));
            }
            ResolveStep::Failed(e) => {
                let order = installed.into_iter().map(|(id, _)| id).collect();
                return (Err(e.message()), fetched, order);
            }
        }
    }
}

fn resolve(
    reg: &mut Registry,
    seed_ids: &[&str],
    graph: &[(&str, &[&str])],
) -> (Result<(), String>, Vec<String>) {
    let (result, fetched, _) = resolve_logged(reg, seed_ids, graph);
    (result, fetched)
}

fn contains(reg: &Registry, id: &str) -> bool {
    reg.contains_program(&id.to_owned())
}

#[test]
fn resolves_single_program() {
    let mut reg = Registry::new();
    let (result, fetched) = resolve(&mut reg, &["adder.aleo"], &[("adder.aleo", &[])]);
    assert_eq!(result, Ok(()));
    assert_eq!(fetched, vec!["adder.aleo"]);
    assert!(contains(&reg, "adder.aleo"));
}

#[test]
fn resolves_import_chain_in_dependency_order() {
    let mut reg = Registry::new();
    let graph: &[(&str, &[&str])] = &[
        ("top.aleo", &["mid.aleo"]),
        ("mid.aleo", &["credits.aleo"]),
    ];
    let (result, fetched, installed) = resolve_logged(&mut reg, &["top.aleo"], graph);
    assert_eq!(result, Ok(()));
    assert_eq!(fetched, vec!["top.aleo", "mid.aleo"]);
    // Post-order installation: the import goes in before its importer.
    assert_eq!(installed, vec!["mid.aleo", "top.aleo"]);
    assert!(contains(&reg, "top.aleo"));
    assert!(contains(&reg, "mid.aleo"));
    assert!(!contains(&reg, "credits.aleo"));
}

#[test]
fn diamond_imports_fetch_each_program_once() {
    let mut reg = Registry::new();
    let graph: &[(&str, &[&str])] = &[
        ("a.aleo", &["b.aleo", "c.aleo"]),
        ("b.aleo", &["d.aleo"]),
        ("c.aleo", &["d.aleo"]),
        ("d.aleo", &[]),
    ];
    let (result, fetched) = resolve(&mut reg, &["a.aleo"], graph);
    assert_eq!(result, Ok(()));
    for id in ["a.aleo", "b.aleo", "c.aleo", "d.aleo"] {
        assert!(contains(&reg, id), "{id} missing");
        assert_eq!(
            fetched.iter().filter(|f| *f == id).count(),
            1,
            "{id} fetched more than once"
        );
    }
    assert_eq!(fetched.len(), 4);
}

#[test]
fn cycle_terminates_and_rejects_without_partial_install() {
    let mut reg = Registry::new();
    let graph: &[(&str, &[&str])] = &[
        ("a.aleo", &["b.aleo"]),
        ("b.aleo", &["a.aleo"]),
    ];
    let (result, fetched) = resolve(&mut reg, &["a.aleo"], graph);
    let message = result.expect_err("a cycle cannot be installed");
    assert_eq!(
        message,
        "Failed to add program 'b.aleo': missing import 'a.aleo'"
    );
    assert_eq!(fetched.len(), 2);
    assert!(!contains(&reg, "a.aleo"));
    assert!(!contains(&reg, "b.aleo"));
}

#[test]
fn second_resolution_performs_zero_fetches() {
    let mut reg = Registry::new();
    let graph: &[(&str, &[&str])] = &[
        ("top.aleo", &["mid.aleo"]),
        ("mid.aleo", &[]),
    ];
    let (first, fetched_first) = resolve(&mut reg, &["top.aleo"], graph);
    assert_eq!(first, Ok(()));
    assert_eq!(fetched_first.len(), 2);
    let (second, fetched_second) = resolve(&mut reg, &["top.aleo"], graph);
    assert_eq!(second, Ok(()));
    assert!(fetched_second.is_empty(), "idempotent resolution refetched");
}

#[test]
fn registry_membership_never_decreases() {
    let mut reg = Registry::new();
    let (ok, _) = resolve(&mut reg, &["keep.aleo"], &[("keep.aleo", &[])]);
    assert_eq!(ok, Ok(()));
    // A failing resolution afterwards leaves earlier programs installed.
    let graph: &[(&str, &[&str])] = &[
        ("a.aleo", &["b.aleo"]),
        ("b.aleo", &["a.aleo"]),
    ];
    let (failed, _) = resolve(&mut reg, &["a.aleo"], graph);
    assert!(failed.is_err());
    assert!(contains(&reg, "keep.aleo"));
}

#[test]
fn credits_is_never_fetched() {
    let mut reg = Registry::new();
    let (result, fetched) = resolve(&mut reg, &["credits.aleo"], &[]);
    assert_eq!(result, Ok(()));
    assert!(fetched.is_empty());
    assert!(!contains(&reg, "credits.aleo"));
}

#[test]
fn repeated_seeds_fetch_once() {
    let mut reg = Registry::new();
    let (result, fetched) = resolve(
        &mut reg,
        &["solo.aleo", "solo.aleo"],
        &[("solo.aleo", &[])],
    );
    assert_eq!(result, Ok(()));
    assert_eq!(fetched, vec!["solo.aleo"]);
}

#[test]
fn empty_seed_set_finishes_at_once() {
    let mut reg = Registry::new();
    let (result, fetched) = resolve(&mut reg, &[], &[]);
    assert_eq!(result, Ok(()));
    assert!(fetched.is_empty());
}

#[test]
fn installed_log_carries_editions() {
    let mut reg = Registry::new();
    let mut installed: Vec<(String, Option<u16>)> = Vec::new();
    let mut resolver = Resolver::new(seeds(&["versioned.aleo"]));
    match resolver.step(&mut reg, &mut installed) {
        ResolveStep::NeedProgram(id) => {
            assert_eq!(id, "versioned.aleo");
            resolver.provide(
                &reg,
                ProgramEntry { id, imports: Vec::new(), edition: Some(3) },
            );
        }
        _ => panic!("expected a fetch request"),
    }
    match resolver.step(&mut reg, &mut installed) {
        ResolveStep::Done => {}
        _ => panic!("expected completion"),
    }
    assert_eq!(installed, vec![("versioned.aleo".to_owned(), Some(3))]);
}

#[test]
fn duplicate_install_is_rejected() {
    let mut reg = Registry::new();
    assert!(reg.add_program(entry("one.aleo", &[])).is_ok());
    let err = reg
        .add_program(entry("one.aleo", &[]))
        .expect_err("duplicate install must be refused");
    assert_eq!(err.message(), "Failed to add program 'one.aleo': already present");
    assert!(matches!(err, RegistryError::AlreadyPresent { .. }));
}

#[test]
fn install_requires_available_imports() {
    let mut reg = Registry::new();
    let err = reg
        .add_program(entry("needy.aleo", &["absent.aleo"]))
        .expect_err("a missing import must be refused");
    assert_eq!(
        err.message(),
        "Failed to add program 'needy.aleo': missing import 'absent.aleo'"
    );
    // Credits counts as always available.
    assert!(reg.add_program(entry("funded.aleo", &["credits.aleo"])).is_ok());
}
