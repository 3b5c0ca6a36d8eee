use freertos_rs::builder::{
    absolute_paths, gcc_project_dir, is_object, is_rlib, is_test_source, rlib_object_path,
    rustup_sysroot, test_elf_path, test_name, test_names, test_renames, tests_deps_dir,
    tests_source_dir, CrossbuildOptions, FoundFile,
};
use freertos_rs::text::join_with_spaces;

fn options() -> CrossbuildOptions {
    CrossbuildOptions {
        tests_project_path: "../qemu_stm32_tests/".to_string(),
        target_arch: "thumbv7m-none-eabi".to_string(),
    }
}

#[test]
fn test_sources_are_test_star_rs() {
    assert!(is_test_source("test_mutex.rs"));
    assert!(is_test_source("test_.rs"));
    assert!(!is_test_source("testbed.rs"));
    assert!(!is_test_source("test_mutex.rs.bak"));
    assert!(!is_test_source("utils.rs"));
    assert!(!is_test_source("test_"));
}

#[test]
fn test_names_drop_rs() {
    assert_eq!("test_mutex", test_name("test_mutex.rs"));
    assert_eq!("test_x", test_name("test_.rsx.rs"));
    assert_eq!("test_a", test_name("test_a"));
    let files = vec![
        FoundFile::new("test_delay.rs", "/src"),
        FoundFile::new("test_timers.rs", "/src"),
    ];
    assert_eq!(vec!["test_delay".to_string(), "test_timers".to_string()], test_names(&files));
    assert_eq!(
        vec!["/src/test_delay.rs".to_string(), "/src/test_timers.rs".to_string()],
        absolute_paths(&files)
    );
}

#[test]
fn found_file_paths() {
    let f = FoundFile::new("libcore.rlib", "/home/u/lib");
    assert_eq!("libcore.rlib", f.name());
    assert_eq!("/home/u/lib/libcore.rlib", f.absolute_path());
}

#[test]
fn rlibs_become_objects() {
    assert!(is_rlib("libcore-abc.rlib"));
    assert!(!is_rlib("libcore.rmeta"));
    assert!(is_object("a.o"));
    assert!(!is_object("a.rlib"));
    assert_eq!("deps//libcore.o", rlib_object_path("deps/", "libcore.rlib"));
    assert_eq!("d/x.o", rlib_object_path("d", "x.rlib.rlib"));
    assert_eq!("d/x.rlibz.o", rlib_object_path("d", "x.rlibz"));
}

#[test]
fn project_directories() {
    let o = options();
    assert_eq!("../qemu_stm32_tests//src/", tests_source_dir(&o));
    assert_eq!(
        "../qemu_stm32_tests//target/thumbv7m-none-eabi/debug/deps/",
        tests_deps_dir(&o)
    );
    assert_eq!("../qemu_stm32_tests//gcc/", gcc_project_dir(&o));
    assert_eq!(
        "/home/u/.rustup/toolchains/nightly/lib/rustlib/thumbv7m-none-eabi/lib/",
        rustup_sysroot("/home/u", "nightly", "thumbv7m-none-eabi")
    );
}

#[test]
fn timer4_tests_get_the_isr_rename() {
    assert_eq!(
        "testbed_timer4_isr = test_isr_timer4_queue_timer4_isr;",
        test_renames("test_isr_timer4_queue")
    );
    assert_eq!("", test_renames("test_mutex"));
    assert_eq!("", test_renames("isr_timer"));
}

#[test]
fn elf_paths_and_object_lists() {
    assert_eq!("gcc//build/stm32_test_delay.elf", test_elf_path("gcc/", "test_delay"));
    let objs = vec!["a.o".to_string(), "b.o".to_string(), "c.o".to_string()];
    assert_eq!("a.o b.o c.o", join_with_spaces(&objs));
    assert_eq!("", join_with_spaces(&vec![]));
    assert_eq!("a.o", join_with_spaces(&vec!["a.o".to_string()]));
}

use freertos_rs::text::first_word;

#[test]
fn toolchain_name_is_the_first_word() {
    assert_eq!(
        Some("nightly-x86_64-unknown-linux-gnu".to_string()),
        first_word("nightly-x86_64-unknown-linux-gnu (default)\n")
    );
    assert_eq!(Some("stable".to_string()), first_word("  \t stable\n"));
    assert_eq!(Some("a".to_string()), first_word("a"));
    assert_eq!(Some("x".to_string()), first_word("\u{3000}x\u{a0}y"));
    assert_eq!(None, first_word(" \n\t "));
    assert_eq!(None, first_word(""));
}
