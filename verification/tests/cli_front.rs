use otoriscv::cli::{input_byte, output_has_prompt, parse_args, signature_requested, signature_text, CliError, Session, StopReason};
use otoriscv::memory::DRAM_BASE;
use otoriscv::System;

fn args(list: &[&str]) -> Vec<Vec<u8>> {
    list.iter().map(|a| a.as_bytes().to_vec()).collect()
}

#[test]
fn parses_flags_values_and_kernel() {
    let a = args(&["prog", "Image", "--ram", "128", "--initrd", "rd.img", "--begin", "0x80002000", "--end", "80003000",
        "--raw", "--bogus", "--signature", "sig.txt"]);
    let (o, unknown) = parse_args(&a).unwrap();
    assert_eq!(o.kernel, Some(1));
    assert_eq!(o.ram_size_mb, 128);
    assert_eq!(o.initrd, Some(5));
    assert_eq!(o.sig_begin, 0x8000_2000);
    assert_eq!(o.sig_end, 0x8000_3000);
    assert!(o.raw_mode);
    assert!(!o.benchmark);
    assert_eq!(unknown, vec![11]);
    assert!(signature_requested(&o, &a));
}

#[test]
fn defaults_without_arguments() {
    let (o, unknown) = parse_args(&args(&["prog"])).unwrap();
    assert_eq!(o.kernel, None);
    assert_eq!(o.ram_size_mb, 64);
    assert!(unknown.is_empty());
    assert!(!signature_requested(&o, &args(&["prog"])));
}

#[test]
fn numbers_follow_the_standard_readers() {
    assert_eq!(parse_args(&args(&["p", "--ram", "+64"])).unwrap().0.ram_size_mb, 64);
    assert_eq!(parse_args(&args(&["p", "--begin", "0x0x1F"])).unwrap().0.sig_begin, 0x1F);
    assert_eq!(parse_args(&args(&["p", "--end", "ffffFFFF"])).unwrap().0.sig_end, 0xFFFF_FFFF);
}

#[test]
fn bad_command_lines_are_refused() {
    assert_eq!(parse_args(&args(&["p", "--ram"])).unwrap_err(), CliError::MissingValue(1));
    assert_eq!(parse_args(&args(&["p", "--ram", "12x"])).unwrap_err(), CliError::InvalidRamSize);
    assert_eq!(parse_args(&args(&["p", "--ram", "4294967296"])).unwrap_err(), CliError::InvalidRamSize);
    assert_eq!(parse_args(&args(&["p", "--ram", ""])).unwrap_err(), CliError::InvalidRamSize);
    assert_eq!(parse_args(&args(&["p", "--begin", "0xZZ"])).unwrap_err(), CliError::InvalidBeginAddr);
    assert_eq!(parse_args(&args(&["p", "--end", "0x100000000"])).unwrap_err(), CliError::InvalidEndAddr);
}

#[test]
fn prompt_detection() {
    assert!(output_has_prompt(b"Welcome\n# "));
    assert!(output_has_prompt(b"x\n~ $"));
    assert!(!output_has_prompt(b"# no newline"));
    assert!(!output_has_prompt(b""));
    assert_eq!(input_byte(13), 10);
    assert_eq!(input_byte(b'a'), b'a');
}

#[test]
fn session_stops_at_prompt_when_benchmarking() {
    let mut s = Session::new();
    assert_eq!(s.after_batch(true, true, 10000, b"booting...", 0x8000_0000), (false, None));
    assert_eq!(s.after_batch(true, true, 10000, b"\n# ", 0x8000_0000), (true, Some(StopReason::PromptSeen)));
    assert_eq!(s.instructions, 20000);
    assert!(s.prompt_seen);
}

#[test]
fn session_other_stops() {
    let mut s = Session::new();
    assert_eq!(s.after_batch(false, false, 10000, b"\n# ", 0), (false, Some(StopReason::PcZero)));
    assert_eq!(s.after_batch(false, false, 0, b"", 4), (false, Some(StopReason::Stalled)));
    let mut t = Session::new();
    t.instructions = 10_000_000_000;
    assert_eq!(t.after_batch(false, false, 1, b"", 4), (false, Some(StopReason::Timeout)));
}

#[test]
fn prompt_buffer_keeps_last_bytes() {
    let mut s = Session::new();
    let long = vec![b'x'; 300];
    s.after_batch(true, false, 1, &long, 4);
    assert_eq!(s.prompt_buffer.len(), 128);
}

#[test]
fn signature_dump_text() {
    let mut sys = System::new(1, None).unwrap();
    sys.load_binary(&[0x13, 0, 0, 0, 0xef, 0xbe, 0xad, 0xde], DRAM_BASE).unwrap();
    let text = signature_text(&sys, DRAM_BASE, DRAM_BASE + 8);
    assert_eq!(text, b"00000013\ndeadbeef\n".to_vec());
    assert!(signature_text(&sys, DRAM_BASE + 8, DRAM_BASE).is_empty());
}
