use vstd::prelude::*;
use vstd::string::StringExecFns;

use crate::text::{
    contains,
    ends_with,
    has_prefix,
    has_substring,
    has_suffix,
    remove_all,
    remove_matches,
    starts_with,
    trim_end_all,
    trim_end_matches,
};

verus! {

/// A file found in a directory: its name and its absolute path.
#[derive(Clone, Debug)]
pub struct FoundFile {
    name: String,
    absolute_path: String,
}

/// Where the tests project lies, and the target it is built for.
#[derive(Debug)]
pub struct CrossbuildOptions {
    pub tests_project_path: String,
    pub target_arch: String,
}

/// The objects of the cross-built tests project, and the names of its tests.
#[derive(Debug)]
pub struct CrossbuiltTests {
    pub object_paths: Vec<String>,
    pub tests: Vec<String>,
}

/// A test binary, linked for the board.
#[derive(Debug, Clone)]
pub struct Stm32Test {
    pub name: String,
    pub absolute_elf_path: String,
}

#[derive(Debug, Clone)]
pub struct Stm32Binaries {
    pub binaries: Vec<Stm32Test>,
}

impl FoundFile {
    pub closed spec fn name_spec(&self) -> Seq<char> {
        self.name@
    }

    pub closed spec fn absolute_path_spec(&self) -> Seq<char> {
        self.absolute_path@
    }

    /// The file `name` in the directory whose absolute path is `dir_absolute`.
    pub fn new(name: &str, dir_absolute: &str) -> (f: FoundFile)
        ensures
            f.name_spec() == name@,
            f.absolute_path_spec() == dir_absolute@ + "/"@ + name@,
    {
        let mut absolute_path = String::from_str(dir_absolute);
        absolute_path.append("/");
        absolute_path.append(name);
        FoundFile { name: String::from_str(name), absolute_path: absolute_path }
    }

    pub fn name(&self) -> (s: &str)
        ensures
            s@ == self.name_spec(),
    {
        self.name.as_str()
    }

    pub fn absolute_path(&self) -> (s: &str)
        ensures
            s@ == self.absolute_path_spec(),
    {
        self.absolute_path.as_str()
    }
}

/// Whether a file holds a test's entry point: each test is in a source file of its
/// own, named `test_*.rs`.
pub fn is_test_source(name: &str) -> (r: bool)
    ensures
        r == (starts_with(name@, "test_"@) && ends_with(name@, ".rs"@)),
{
    has_prefix(name, "test_") && has_suffix(name, ".rs")
}

/// The name of the test in a source file: the file name without `.rs`.
pub fn test_name(file_name: &str) -> (r: String)
    ensures
        r@ == remove_all(file_name@, ".rs"@),
{
    remove_matches(file_name, ".rs")
}

/// The names of the tests in the given source files, in their order.
pub fn test_names(files: &Vec<FoundFile>) -> (r: Vec<String>)
    ensures
        r@.len() == files@.len(),
        forall|i: int|
            0 <= i < files@.len() ==> #[trigger] r@[i]@ == remove_all(files@[i].name_spec(), ".rs"@),
{
    let mut r: Vec<String> = Vec::new();
    let mut i: usize = 0;
    while i < files.len()
        invariant
            i <= files@.len(),
            r@.len() == i,
            forall|k: int|
                0 <= k < i ==> #[trigger] r@[k]@ == remove_all(files@[k].name_spec(), ".rs"@),
        decreases files@.len() - i,
    {
        r.push(test_name(files[i].name()));
        i = i + 1;
    }
    r
}

/// The absolute paths of the given files, in their order.
pub fn absolute_paths(files: &Vec<FoundFile>) -> (r: Vec<String>)
    ensures
        r@.len() == files@.len(),
        forall|i: int| 0 <= i < files@.len() ==> #[trigger] r@[i]@ == files@[i].absolute_path_spec(),
{
    let mut r: Vec<String> = Vec::new();
    let mut i: usize = 0;
    while i < files.len()
        invariant
            i <= files@.len(),
            r@.len() == i,
            forall|k: int| 0 <= k < i ==> #[trigger] r@[k]@ == files@[k].absolute_path_spec(),
        decreases files@.len() - i,
    {
        r.push(String::from_str(files[i].absolute_path()));
        i = i + 1;
    }
    r
}

/// Whether a file of the toolchain is a Rust library.
pub fn is_rlib(name: &str) -> (r: bool)
    ensures
        r == ends_with(name@, ".rlib"@),
{
    has_suffix(name, ".rlib")
}

/// Whether a file is an object file.
pub fn is_object(name: &str) -> (r: bool)
    ensures
        r == ends_with(name@, ".o"@),
{
    has_suffix(name, ".o")
}

/// Where a library of the toolchain is copied to, to be linked as an object:
/// `{deps_dir}/{name without .rlib}.o`.
pub fn rlib_object_path(deps_dir: &str, rlib_name: &str) -> (r: String)
    ensures
        r@ == deps_dir@ + "/"@ + trim_end_all(rlib_name@, ".rlib"@) + ".o"@,
{
    let mut r = String::from_str(deps_dir);
    r.append("/");
    r.append(trim_end_matches(rlib_name, ".rlib"));
    r.append(".o");
    r
}

/// The directory that holds the tests' source files.
pub fn tests_source_dir(options: &CrossbuildOptions) -> (r: String)
    ensures
        r@ == options.tests_project_path@ + "/src/"@,
{
    let mut r = String::from_str(options.tests_project_path.as_str());
    r.append("/src/");
    r
}

/// The directory where cargo puts the objects of the cross-built tests.
pub fn tests_deps_dir(options: &CrossbuildOptions) -> (r: String)
    ensures
        r@ == options.tests_project_path@ + "/target/"@ + options.target_arch@ + "/debug/deps/"@,
{
    let mut r = String::from_str(options.tests_project_path.as_str());
    r.append("/target/");
    r.append(options.target_arch.as_str());
    r.append("/debug/deps/");
    r
}

/// The directory of the toolchain's libraries for the target.
pub fn rustup_sysroot(home: &str, active_toolchain: &str, target_arch: &str) -> (r: String)
    ensures
        r@ == home@ + "/.rustup/toolchains/"@ + active_toolchain@ + "/lib/rustlib/"@ + target_arch@
            + "/lib/"@,
{
    let mut r = String::from_str(home);
    r.append("/.rustup/toolchains/");
    r.append(active_toolchain);
    r.append("/lib/rustlib/");
    r.append(target_arch);
    r.append("/lib/");
    r
}

/// The directory of the C firmware project.
pub fn gcc_project_dir(options: &CrossbuildOptions) -> (r: String)
    ensures
        r@ == options.tests_project_path@ + "/gcc/"@,
{
    let mut r = String::from_str(options.tests_project_path.as_str());
    r.append("/gcc/");
    r
}

/// The symbol renames that a test needs at link time: a test of the timer 4
/// interrupt provides the interrupt handler of the testbed.
pub fn test_renames(test: &str) -> (r: String)
    ensures
        contains(test@, "isr_timer4"@) ==> r@ == "testbed_timer4_isr = "@ + test@ + "_timer4_isr;"@,
        !contains(test@, "isr_timer4"@) ==> r@ == Seq::<char>::empty(),
{
    let mut r = String::new();
    if has_substring(test, "isr_timer4") {
        r.append("testbed_timer4_isr = ");
        r.append(test);
        r.append("_timer4_isr;");
    }
    r
}

/// Where the firmware build puts the binary of a test.
pub fn test_elf_path(gcc_proj_dir: &str, test: &str) -> (r: String)
    ensures
        r@ == gcc_proj_dir@ + "/build/stm32_"@ + test@ + ".elf"@,
{
    let mut r = String::from_str(gcc_proj_dir);
    r.append("/build/stm32_");
    r.append(test);
    r.append(".elf");
    r
}

} // verus!
