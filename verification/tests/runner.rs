use freertos_rs::runner::{qemu_command, RunTestOptions};

#[test]
fn qemu_command_with_timeout() {
    let o = RunTestOptions { test_name_filter: None, qemu_path: "/opt/qemu".to_string() };
    let cmd = qemu_command(Some("/usr/bin/timeout"), &o, "/b/stm32_test_delay.elf");
    assert_eq!(
        vec![
            "/usr/bin/timeout", "15s", "/opt/qemu", "--verbose", "--board", "STM32F4-Discovery",
            "--mcu", "STM32F407VG", "--nographic", "--image", "/b/stm32_test_delay.elf",
        ],
        cmd
    );
}

#[test]
fn qemu_command_without_timeout() {
    let o = RunTestOptions { test_name_filter: Some("x".to_string()), qemu_path: "qemu".to_string() };
    let cmd = qemu_command(None, &o, "t.elf");
    assert_eq!(
        vec![
            "qemu", "--verbose", "--board", "STM32F4-Discovery", "--mcu", "STM32F407VG",
            "--nographic", "--image", "t.elf",
        ],
        cmd
    );
}
