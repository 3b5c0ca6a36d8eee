use vstd::prelude::*;
use vstd::string::StringExecFns;

verus! {

/// How the tests are run in the emulator.
#[derive(Debug)]
pub struct RunTestOptions {
    pub test_name_filter: Option<String>,
    pub qemu_path: String,
}

/// The emulator's arguments for running a test binary on the board.
pub open spec fn qemu_args(elf_path: Seq<char>) -> Seq<Seq<char>> {
    seq![
        "--verbose"@,
        "--board"@,
        "STM32F4-Discovery"@,
        "--mcu"@,
        "STM32F407VG"@,
        "--nographic"@,
        "--image"@,
        elf_path,
    ]
}

/// The command line that runs a test: the emulator, under `timeout` with a limit of
/// fifteen seconds where `timeout` was found.
pub open spec fn qemu_command_line(
    timeout: Option<Seq<char>>,
    qemu_path: Seq<char>,
    elf_path: Seq<char>,
) -> Seq<Seq<char>> {
    match timeout {
        Some(t) => seq![t, "15s"@, qemu_path] + qemu_args(elf_path),
        None => seq![qemu_path] + qemu_args(elf_path),
    }
}

/// With a timeout program, the command is the command without one, run by that
/// program with a limit of fifteen seconds: whatever the emulator's path, the
/// timeout program comes first and `15s` second.
pub proof fn lemma_timeout_wraps_command(t: Seq<char>, qemu_path: Seq<char>, elf_path: Seq<char>)
    ensures
        qemu_command_line(Some(t), qemu_path, elf_path) == seq![t, "15s"@]
            + qemu_command_line(None, qemu_path, elf_path),
        qemu_command_line(None, qemu_path, elf_path)[0] == qemu_path,
        qemu_command_line(None, qemu_path, elf_path).last() == elf_path,
{
    assert(qemu_command_line(Some(t), qemu_path, elf_path) =~= seq![t, "15s"@]
        + qemu_command_line(None, qemu_path, elf_path));
}

fn push_str(v: &mut Vec<String>, s: &str)
    ensures
        final(v)@.len() == old(v)@.len() + 1,
        forall|i: int| 0 <= i < old(v)@.len() ==> #[trigger] final(v)@[i] == old(v)@[i],
        final(v)@[old(v)@.len() as int]@ == s@,
{
    v.push(String::from_str(s));
}

/// The program to start and its arguments, for running the test binary at
/// `elf_path`; `timeout` is where the `timeout` program was found, if it was.
pub fn qemu_command(timeout: Option<&str>, options: &RunTestOptions, elf_path: &str) -> (r: Vec<
    String,
>)
    ensures
        r@.len() == qemu_command_line(
            match timeout {
                Some(t) => Some(t@),
                None => None,
            },
            options.qemu_path@,
            elf_path@,
        ).len(),
        forall|i: int|
            0 <= i < r@.len() ==> #[trigger] r@[i]@ == qemu_command_line(
                match timeout {
                    Some(t) => Some(t@),
                    None => None,
                },
                options.qemu_path@,
                elf_path@,
            )[i],
        timeout matches Some(t) ==> r@[0]@ == t@ && r@[1]@ == "15s"@ && r@[2]@
            == options.qemu_path@,
        timeout is None ==> r@[0]@ == options.qemu_path@,
        r@[r@.len() - 1]@ == elf_path@,
{
    let mut r: Vec<String> = Vec::new();
    match timeout {
        Some(t) => {
            push_str(&mut r, t);
            push_str(&mut r, "15s");
        },
        None => {},
    }
    push_str(&mut r, options.qemu_path.as_str());
    push_str(&mut r, "--verbose");
    push_str(&mut r, "--board");
    push_str(&mut r, "STM32F4-Discovery");
    push_str(&mut r, "--mcu");
    push_str(&mut r, "STM32F407VG");
    push_str(&mut r, "--nographic");
    push_str(&mut r, "--image");
    push_str(&mut r, elf_path);
    proof {
        let tv: Option<Seq<char>> = match timeout {
            Some(t) => Some(t@),
            None => None,
        };
        let expected = qemu_command_line(tv, options.qemu_path@, elf_path@);
        assert(r@.len() == expected.len());
        assert forall|i: int| 0 <= i < r@.len() implies #[trigger] r@[i]@ == expected[i] by {}
    }
    r
}

} // verus!
