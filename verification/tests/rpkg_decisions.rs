use rin_terminal::rpkg::{
    elf_class_of, exec_strategies, is_installed, is_rpkg_binary, linker_for_class,
    multicall_args, plan_operation, str_equals, ExecStrategy, OperationFlags, Step,
};

fn flags() -> OperationFlags {
    OperationFlags {
        sync: false,
        remove: false,
        query: false,
        refresh: false,
        sysupgrade: false,
        search: false,
    }
}

#[test]
fn rpkg_names() {
    assert!(is_rpkg_binary("rpkg"));
    assert!(is_rpkg_binary("rpkg-real"));
    assert!(is_rpkg_binary("rpkg_cli"));
    assert!(is_rpkg_binary("librpkg_cli.so"));
    assert!(!is_rpkg_binary("ls"));
    assert!(!is_rpkg_binary("rpk"));
    assert!(!is_rpkg_binary(""));
}

#[test]
fn string_equality() {
    assert!(str_equals("héllo", "héllo"));
    assert!(!str_equals("héllo", "hello"));
    assert!(!str_equals("ab", "abc"));
}

#[test]
fn elf_class_from_the_header() {
    assert_eq!(elf_class_of(&[0x7f, b'E', b'L', b'F', 2, 1, 1]), Some(2));
    assert_eq!(elf_class_of(&[0x7f, b'E', b'L', b'F', 1]), Some(1));
    assert_eq!(elf_class_of(&[0x7f, b'E', b'L', b'F']), None);
    assert_eq!(elf_class_of(b"#!/bin/sh"), None);
    assert_eq!(elf_class_of(&[]), None);
}

#[test]
fn linker_by_class() {
    assert_eq!(linker_for_class(Some(2)), "/system/bin/linker64");
    assert_eq!(linker_for_class(Some(1)), "/system/bin/linker");
    assert_eq!(linker_for_class(None), "/system/bin/linker");
}

#[test]
fn launch_strategies() {
    assert_eq!(
        exec_strategies(true),
        vec![ExecStrategy::Direct, ExecStrategy::Linker, ExecStrategy::Shell]
    );
    assert_eq!(exec_strategies(false), vec![ExecStrategy::Shell]);
}

#[test]
fn multicall_arguments() {
    assert_eq!(multicall_args("coreutils", "ls"), vec!["--coreutils-prog=ls".to_string()]);
    assert_eq!(multicall_args("busybox", "vi"), vec!["vi".to_string()]);
    assert_eq!(multicall_args("toybox", "sed"), vec!["sed".to_string()]);
    assert!(multicall_args("nvim", "vim").is_empty());
    assert!(multicall_args("busybox", "busybox").is_empty());
}

#[test]
fn installed_lookup() {
    let installed = vec!["bash".to_string(), "nvim".to_string()];
    assert!(is_installed(&installed, "nvim"));
    assert!(!is_installed(&installed, "vim"));
    assert!(!is_installed(&[], "bash"));
}

#[test]
fn operation_plans() {
    let none = flags();
    assert_eq!(plan_operation(none, true), vec![Step::NoOperation]);

    let sync_search = OperationFlags { sync: true, refresh: true, search: true, sysupgrade: true, ..flags() };
    assert_eq!(plan_operation(sync_search, true), vec![Step::Refresh, Step::Search]);

    let sync_all = OperationFlags { sync: true, refresh: true, sysupgrade: true, ..flags() };
    assert_eq!(
        plan_operation(sync_all, true),
        vec![Step::Refresh, Step::Upgrade, Step::Install]
    );
    assert_eq!(plan_operation(sync_all, false), vec![Step::Refresh, Step::Upgrade]);

    let sync = OperationFlags { sync: true, ..flags() };
    assert_eq!(plan_operation(sync, false), Vec::<Step>::new());

    let remove = OperationFlags { remove: true, query: true, ..flags() };
    assert_eq!(plan_operation(remove, true), vec![Step::Remove]);
    assert_eq!(plan_operation(remove, false), Vec::<Step>::new());

    let query = OperationFlags { query: true, ..flags() };
    assert_eq!(plan_operation(query, false), vec![Step::ListInstalled]);
}
