use freertos_rs::utils::{shim_sanity_check, str_from_c_string};
use freertos_rs::FreeRtosError;

#[test]
fn shim_sanity_check_passes_when_sizes_agree() {
    let checks = [(0u8, 4usize), (1, 4), (2, 1), (10, 4)];
    assert_eq!(Ok(()), shim_sanity_check(&checks, &[4, 4, 1, 4]));
    assert_eq!(Ok(()), shim_sanity_check(&[], &[]));
}

#[test]
fn shim_sanity_check_reports_the_first_mismatch() {
    let checks = [(0u8, 4usize), (1, 4), (2, 1), (10, 4), (11, 4)];
    assert_eq!(Err(10), shim_sanity_check(&checks, &[4, 4, 1, 2, 8]));
    assert_eq!(Err(0), shim_sanity_check(&checks, &[8, 4, 1, 4, 4]));
    // sizes are compared by their lowest byte
    assert_eq!(Ok(()), shim_sanity_check(&[(12u8, 260usize)], &[4]));
}

#[test]
fn c_string_stops_at_nul() {
    assert_eq!(Ok("main".to_string()), str_from_c_string(b"main\0garbage"));
    assert_eq!(Ok("".to_string()), str_from_c_string(b"\0abc"));
    assert_eq!(Ok("IDLE".to_string()), str_from_c_string(b"IDLE"));
    assert_eq!(Ok("h\u{e9}".to_string()), str_from_c_string(&[b'h', 0xc3, 0xa9, 0]));
}

#[test]
fn c_string_must_be_utf8() {
    assert_eq!(
        Err(FreeRtosError::StringConversionError),
        str_from_c_string(&[0x66, 0xff, 0x66, 0])
    );
    assert_eq!(Ok("f".to_string()), str_from_c_string(&[0x66, 0, 0xff]));
}

use freertos_rs::utils::{shim_check_first, shim_check_next, SanityStep};

/// Runs the checks one size at a time, recording which ids were asked for.
fn run_steps(checks: &[(u8, usize)], sizes: &dyn Fn(u8) -> u8) -> (Result<(), usize>, Vec<u8>) {
    let mut asked = vec![];
    let mut step = shim_check_first(checks);
    loop {
        match step {
            SanityStep::Query { index, id } => {
                asked.push(id);
                step = shim_check_next(checks, index, sizes(id));
            }
            SanityStep::Finished(r) => return (r, asked),
        }
    }
}

#[test]
fn shim_steps_stop_at_the_first_mismatch() {
    let checks = [(0u8, 4usize), (1, 4), (2, 1), (10, 4), (11, 4)];
    let (r, asked) = run_steps(&checks, &|id| if id == 2 { 4 } else { 4 });
    assert_eq!(Err(2), r);
    assert_eq!(vec![0, 1, 2], asked);
    let (r, asked) = run_steps(&checks, &|id| if id == 2 { 1 } else { 4 });
    assert_eq!(Ok(()), r);
    assert_eq!(vec![0, 1, 2, 10, 11], asked);
    let (r, asked) = run_steps(&[], &|_| 0);
    assert_eq!(Ok(()), r);
    assert!(asked.is_empty());
}

#[test]
fn shim_step_values() {
    let checks = [(0u8, 4usize), (12, 4)];
    assert_eq!(SanityStep::Query { index: 0, id: 0 }, shim_check_first(&checks));
    assert_eq!(SanityStep::Finished(Ok(())), shim_check_first(&[]));
    assert_eq!(SanityStep::Query { index: 1, id: 12 }, shim_check_next(&checks, 0, 4));
    assert_eq!(SanityStep::Finished(Err(12)), shim_check_next(&checks, 1, 8));
    assert_eq!(SanityStep::Finished(Ok(())), shim_check_next(&checks, 1, 4));
}
