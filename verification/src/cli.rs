//! The command-line front end's decisions: reading the arguments, spotting
//! a shell prompt in the console output, when to stop running, and the
//! text of a memory signature dump. The program around it does the I/O.

use vstd::prelude::*;
use crate::System;
use crate::memory::DRAM_BASE;

verus! {

/// Default RAM size in MiB.
pub const DEFAULT_RAM_MB: u32 = 64;

/// Cycles run between two looks at the console.
pub const BATCH_CYCLES: u32 = 10000;

/// After this many cycles the run stops.
pub const MAX_TOTAL_CYCLES: u64 = 10_000_000_000;

/// The console output kept for prompt detection.
pub const PROMPT_BUFFER_MAX: usize = 128;

/// What the command line asks for. Paths are given as the index of the
/// argument that names them.
#[derive(Clone, Copy, PartialEq, Eq, Structural, Debug)]
pub struct CliOptions {
    pub kernel: Option<usize>,
    pub initrd: Option<usize>,
    pub ram_size_mb: u32,
    pub signature: Option<usize>,
    pub sig_begin: u32,
    pub sig_end: u32,
    pub raw_mode: bool,
    pub fs: Option<usize>,
    pub benchmark: bool,
    pub fast_mode: bool,
}

/// Why the command line cannot be used.
#[derive(Clone, Copy, PartialEq, Eq, Structural, Debug)]
pub enum CliError {
    /// The flag at this index needs a value and is the last argument.
    MissingValue(usize),
    /// The value of `--ram` is no decimal number that fits in 32 bits.
    InvalidRamSize,
    /// The value of `--begin` is no hexadecimal number that fits in 32 bits.
    InvalidBeginAddr,
    /// The value of `--end` is no hexadecimal number that fits in 32 bits.
    InvalidEndAddr,
}

/// The options before any argument is read.
pub open spec fn default_options() -> CliOptions {
    CliOptions {
        kernel: None,
        initrd: None,
        ram_size_mb: DEFAULT_RAM_MB,
        signature: None,
        sig_begin: 0,
        sig_end: 0,
        raw_mode: false,
        fs: None,
        benchmark: false,
        fast_mode: false,
    }
}

pub open spec fn flag_ram() -> Seq<u8> { seq![45u8, 45, 114, 97, 109] }
pub open spec fn flag_initrd() -> Seq<u8> { seq![45u8, 45, 105, 110, 105, 116, 114, 100] }
pub open spec fn flag_signature() -> Seq<u8> { seq![45u8, 45, 115, 105, 103, 110, 97, 116, 117, 114, 101] }
pub open spec fn flag_begin() -> Seq<u8> { seq![45u8, 45, 98, 101, 103, 105, 110] }
pub open spec fn flag_end() -> Seq<u8> { seq![45u8, 45, 101, 110, 100] }
pub open spec fn flag_raw() -> Seq<u8> { seq![45u8, 45, 114, 97, 119] }
pub open spec fn flag_benchmark() -> Seq<u8> { seq![45u8, 45, 98, 101, 110, 99, 104, 109, 97, 114, 107] }
pub open spec fn flag_fast() -> Seq<u8> {
    seq![45u8, 45, 115, 116, 105, 108, 108, 45, 98, 114, 111, 107, 101, 110, 45, 102, 97, 115, 116, 45, 109, 111, 100, 101]
}
pub open spec fn flag_fs() -> Seq<u8> { seq![45u8, 45, 102, 115] }

/// The value of a digit in base 16 (either case) or base 10, if it is one.
pub open spec fn digit_of(d: u8, hex: bool) -> Option<nat> {
    if 48 <= d <= 57 { Some((d - 48) as nat) }
    else if hex && 97 <= d <= 102 { Some((d - 87) as nat) }
    else if hex && 65 <= d <= 70 { Some((d - 55) as nat) }
    else { None }
}

/// The value of a string of at least one digit, in base 16 or 10, if it is one.
pub open spec fn digits_value(s: Seq<u8>, hex: bool) -> Option<nat>
    decreases s.len(),
{
    if s.len() == 0 {
        None
    } else {
        match digit_of(s.last(), hex) {
            None => None,
            Some(d) => if s.len() == 1 {
                Some(d)
            } else {
                match digits_value(s.drop_last(), hex) {
                    Some(v) => Some(v * (if hex { 16nat } else { 10nat }) + d),
                    None => None,
                }
            },
        }
    }
}

/// `s` without its optional leading `+`.
pub open spec fn unsigned_body(s: Seq<u8>) -> Seq<u8> {
    if s.len() > 0 && s[0] == 43 { s.drop_first() } else { s }
}

/// A decimal number as the standard library reads a `u32` (an optional `+`,
/// then digits; it must fit).
pub open spec fn parse_dec_u32(s: Seq<u8>) -> Option<u32> {
    match digits_value(unsigned_body(s), false) {
        Some(v) => if v <= u32::MAX { Some(v as u32) } else { None },
        None => None,
    }
}

/// `s` with every leading `0x` removed.
pub open spec fn trim_0x(s: Seq<u8>) -> Seq<u8>
    decreases s.len(),
{
    if s.len() >= 2 && s[0] == 48 && s[1] == 120 { trim_0x(s.subrange(2, s.len() as int)) } else { s }
}

/// A hexadecimal address: leading `0x` removed, then an optional `+` and
/// hexadecimal digits; it must fit in 32 bits.
pub open spec fn parse_hex_u32(s: Seq<u8>) -> Option<u32> {
    match digits_value(unsigned_body(trim_0x(s)), true) {
        Some(v) => if v <= u32::MAX { Some(v as u32) } else { None },
        None => None,
    }
}

/// Does the flag `a` take a value from the next argument?
pub open spec fn takes_value(a: Seq<u8>) -> bool {
    a == flag_ram() || a == flag_initrd() || a == flag_signature() || a == flag_begin() || a == flag_end()
        || a == flag_fs()
}

/// Reading the arguments from index `i` on with options `o` so far and the
/// unknown arguments `unknown` so far: flags with a value take the next
/// argument, an argument not starting with `-` names the kernel, any other
/// is unknown. The first bad value or missing value stops the reading.
pub open spec fn parse_from(args: Seq<Seq<u8>>, i: int, o: CliOptions, unknown: Seq<usize>) -> Result<(CliOptions, Seq<usize>), CliError>
    decreases args.len() - i,
{
    if i < 1 || i >= args.len() {
        Ok((o, unknown))
    } else {
        let a = args[i];
        if takes_value(a) && i + 1 >= args.len() {
            Err(CliError::MissingValue(i as usize))
        } else if a == flag_ram() {
            match parse_dec_u32(args[i + 1]) {
                Some(v) => parse_from(args, i + 2, CliOptions { ram_size_mb: v, ..o }, unknown),
                None => Err(CliError::InvalidRamSize),
            }
        } else if a == flag_initrd() {
            parse_from(args, i + 2, CliOptions { initrd: Some((i + 1) as usize), ..o }, unknown)
        } else if a == flag_signature() {
            parse_from(args, i + 2, CliOptions { signature: Some((i + 1) as usize), ..o }, unknown)
        } else if a == flag_begin() {
            match parse_hex_u32(args[i + 1]) {
                Some(v) => parse_from(args, i + 2, CliOptions { sig_begin: v, ..o }, unknown),
                None => Err(CliError::InvalidBeginAddr),
            }
        } else if a == flag_end() {
            match parse_hex_u32(args[i + 1]) {
                Some(v) => parse_from(args, i + 2, CliOptions { sig_end: v, ..o }, unknown),
                None => Err(CliError::InvalidEndAddr),
            }
        } else if a == flag_fs() {
            parse_from(args, i + 2, CliOptions { fs: Some((i + 1) as usize), ..o }, unknown)
        } else if a == flag_raw() {
            parse_from(args, i + 1, CliOptions { raw_mode: true, ..o }, unknown)
        } else if a == flag_benchmark() {
            parse_from(args, i + 1, CliOptions { benchmark: true, ..o }, unknown)
        } else if a == flag_fast() {
            parse_from(args, i + 1, CliOptions { fast_mode: true, ..o }, unknown)
        } else if a.len() == 0 || a[0] != 45 {
            parse_from(args, i + 1, CliOptions { kernel: Some(i as usize), ..o }, unknown)
        } else {
            parse_from(args, i + 1, o, unknown.push(i as usize))
        }
    }
}

/// The views of the arguments.
pub open spec fn views(args: Seq<Vec<u8>>) -> Seq<Seq<u8>> {
    args.map_values(|a: Vec<u8>| a@)
}

/// Does `a` hold exactly the bytes of `lit`?
fn bytes_eq(a: &Vec<u8>, lit: &Vec<u8>) -> (r: bool)
    ensures
        r == (a@ == lit@),
{
    if a.len() != lit.len() {
        return false;
    }
    let mut i: usize = 0;
    while i < a.len()
        invariant
            a@.len() == lit@.len(),
            i <= a@.len(),
            forall|j: int| 0 <= j < i ==> a@[j] == lit@[j],
        decreases a@.len() - i,
    {
        if a[i] != lit[i] {
            return false;
        }
        i = i + 1;
    }
    assert(a@ =~= lit@);
    true
}

/// The value of a digit, if it is one.
fn digit(d: u8, hex: bool) -> (r: Option<u64>)
    ensures
        match digit_of(d, hex) {
            Some(v) => r == Some(v as u64),
            None => r is None,
        },
{
    if 48 <= d && d <= 57 {
        Some((d - 48) as u64)
    } else if hex && 97 <= d && d <= 102 {
        Some((d - 87) as u64)
    } else if hex && 65 <= d && d <= 70 {
        Some((d - 55) as u64)
    } else {
        None
    }
}

/// The value of the digits of `s` from `start` on, in base 16 or 10, if
/// they are digits and their value fits in 32 bits.
fn digits_u32(s: &Vec<u8>, start: usize, hex: bool) -> (r: Option<u32>)
    requires
        start <= s@.len(),
    ensures
        r == (match digits_value(s@.subrange(start as int, s@.len() as int), hex) {
            Some(v) => if v <= u32::MAX { Some(v as u32) } else { None },
            None => None,
        }),
{
    let ghost t = s@.subrange(start as int, s@.len() as int);
    if start >= s.len() {
        assert(t.len() == 0);
        return None;
    }
    let base: u64 = if hex { 16 } else { 10 };
    let mut v: u64 = 0;
    let mut i: usize = start;
    while i < s.len()
        invariant
            start < s@.len(),
            start <= i <= s@.len(),
            t == s@.subrange(start as int, s@.len() as int),
            base == (if hex { 16u64 } else { 10u64 }),
            i > start ==> digits_value(s@.subrange(start as int, i as int), hex) == Some(v as nat),
            i == start ==> v == 0,
            v <= u32::MAX,
        decreases s@.len() - i,
    {
        let d = s[i];
        assert(s@.subrange(start as int, i + 1).drop_last() =~= s@.subrange(start as int, i as int));
        assert(s@.subrange(start as int, i + 1).last() == d);
        let dv = match digit(d, hex) {
            Some(x) => x,
            None => {
                proof { lemma_bad_digit(t, i - start, hex); }
                return None;
            },
        };
        let nv = v * base + dv;
        assert(digits_value(s@.subrange(start as int, i + 1), hex) == Some(nv as nat));
        if nv > 0xFFFF_FFFF {
            proof {
                assert(t.subrange(0, i - start + 1) =~= s@.subrange(start as int, i + 1));
                lemma_too_big(t, i - start + 1, nv as nat, hex);
            }
            return None;
        }
        v = nv;
        i = i + 1;
    }
    assert(s@.subrange(start as int, i as int) =~= t);
    Some(v as u32)
}

/// A non-digit makes the whole string no number.
proof fn lemma_bad_digit(s: Seq<u8>, k: int, hex: bool)
    requires
        0 <= k < s.len(),
        digit_of(s[k], hex) is None,
    ensures
        digits_value(s, hex) is None,
    decreases s.len(),
{
    if k < s.len() - 1 {
        assert(s.drop_last()[k] == s[k]);
        lemma_bad_digit(s.drop_last(), k, hex);
    }
}

/// A prefix too big makes the whole string too big, or no number.
proof fn lemma_too_big(s: Seq<u8>, n: int, v: nat, hex: bool)
    requires
        1 <= n <= s.len(),
        digits_value(s.subrange(0, n), hex) == Some(v),
        v > u32::MAX,
    ensures
        match digits_value(s, hex) {
            Some(w) => w > u32::MAX,
            None => true,
        },
    decreases s.len() - n,
{
    if n == s.len() {
        assert(s.subrange(0, n) =~= s);
    } else {
        let t = s.subrange(0, n + 1);
        assert(t.drop_last() =~= s.subrange(0, n));
        match digits_value(t, hex) {
            Some(w) => {
                lemma_too_big(s, n + 1, w, hex);
            },
            None => {
                lemma_none_extends(s, n + 1, hex);
            },
        }
    }
}

/// Once a prefix is no number, neither is the whole string.
proof fn lemma_none_extends(s: Seq<u8>, n: int, hex: bool)
    requires
        1 <= n <= s.len(),
        digits_value(s.subrange(0, n), hex) is None,
    ensures
        digits_value(s, hex) is None,
    decreases s.len() - n,
{
    if n == s.len() {
        assert(s.subrange(0, n) =~= s);
    } else {
        let t = s.subrange(0, n + 1);
        assert(t.drop_last() =~= s.subrange(0, n));
        lemma_none_extends(s, n + 1, hex);
    }
}

/// Read a `u32` written in decimal, as the standard library does.
pub fn parse_dec(a: &Vec<u8>) -> (r: Option<u32>)
    ensures
        r == parse_dec_u32(a@),
{
    let start: usize = if a.len() > 0 && a[0] == 43 { 1 } else { 0 };
    assert(unsigned_body(a@) =~= a@.subrange(start as int, a@.len() as int));
    digits_u32(a, start, false)
}

/// Read a `u32` address written in hexadecimal (leading `0x` removed).
pub fn parse_hex(a: &Vec<u8>) -> (r: Option<u32>)
    ensures
        r == parse_hex_u32(a@),
{
    let mut k: usize = 0;
    assert(a@.subrange(0, a@.len() as int) =~= a@);
    while k < a.len() && a.len() - k >= 2 && a[k] == 48 && a[k + 1] == 120
        invariant
            k <= a@.len(),
            trim_0x(a@) == trim_0x(a@.subrange(k as int, a@.len() as int)),
        decreases a@.len() - k,
    {
        assert(a@.subrange(k as int, a@.len() as int).subrange(2, a@.len() - k) =~= a@.subrange(k + 2, a@.len() as int));
        k = k + 2;
    }
    let ghost rest = a@.subrange(k as int, a@.len() as int);
    assert(trim_0x(rest) == rest);
    let start: usize = if k < a.len() && a[k] == 43 { k + 1 } else { k };
    assert(unsigned_body(rest) =~= a@.subrange(start as int, a@.len() as int));
    digits_u32(a, start, true)
}

/// Read the command line (the first argument is the program's name).
/// Flags with a value take the next argument; an argument not starting
/// with `-` names the kernel; others are returned as unknown, by index.
pub fn parse_args(args: &Vec<Vec<u8>>) -> (r: Result<(CliOptions, Vec<usize>), CliError>)
    ensures
        match r {
            Ok((o, u)) => parse_from(views(args@), 1, default_options(), Seq::empty()) == Ok::<(CliOptions, Seq<usize>), CliError>((o, u@)),
            Err(e) => parse_from(views(args@), 1, default_options(), Seq::empty()) == Err::<(CliOptions, Seq<usize>), CliError>(e),
        },
{
    let f_ram: Vec<u8> = vec![45u8, 45, 114, 97, 109];
    let f_initrd: Vec<u8> = vec![45u8, 45, 105, 110, 105, 116, 114, 100];
    let f_signature: Vec<u8> = vec![45u8, 45, 115, 105, 103, 110, 97, 116, 117, 114, 101];
    let f_begin: Vec<u8> = vec![45u8, 45, 98, 101, 103, 105, 110];
    let f_end: Vec<u8> = vec![45u8, 45, 101, 110, 100];
    let f_raw: Vec<u8> = vec![45u8, 45, 114, 97, 119];
    let f_benchmark: Vec<u8> = vec![45u8, 45, 98, 101, 110, 99, 104, 109, 97, 114, 107];
    let f_fast: Vec<u8> = vec![45u8, 45, 115, 116, 105, 108, 108, 45, 98, 114, 111, 107, 101, 110, 45, 102, 97,
        115, 116, 45, 109, 111, 100, 101];
    let f_fs: Vec<u8> = vec![45u8, 45, 102, 115];
    assert(f_ram@ =~= flag_ram());
    assert(f_initrd@ =~= flag_initrd());
    assert(f_signature@ =~= flag_signature());
    assert(f_begin@ =~= flag_begin());
    assert(f_end@ =~= flag_end());
    assert(f_raw@ =~= flag_raw());
    assert(f_benchmark@ =~= flag_benchmark());
    assert(f_fast@ =~= flag_fast());
    assert(f_fs@ =~= flag_fs());
    let ghost v = views(args@);
    let mut o = CliOptions {
        kernel: None,
        initrd: None,
        ram_size_mb: DEFAULT_RAM_MB,
        signature: None,
        sig_begin: 0,
        sig_end: 0,
        raw_mode: false,
        fs: None,
        benchmark: false,
        fast_mode: false,
    };
    let mut unknown: Vec<usize> = Vec::new();
    let mut i: usize = 1;
    assert(unknown@ =~= Seq::<usize>::empty());
    while i < args.len()
        invariant
            v == views(args@),
            v.len() == args@.len(),
            1 <= i,
            f_ram@ == flag_ram(),
            f_initrd@ == flag_initrd(),
            f_signature@ == flag_signature(),
            f_begin@ == flag_begin(),
            f_end@ == flag_end(),
            f_raw@ == flag_raw(),
            f_benchmark@ == flag_benchmark(),
            f_fast@ == flag_fast(),
            f_fs@ == flag_fs(),
            parse_from(v, 1, default_options(), Seq::empty()) == parse_from(v, i as int, o, unknown@),
        decreases args@.len() - i,
    {
        let a = &args[i];
        assert(v[i as int] == a@);
        let is_ram = bytes_eq(a, &f_ram);
        let is_initrd = bytes_eq(a, &f_initrd);
        let is_signature = bytes_eq(a, &f_signature);
        let is_begin = bytes_eq(a, &f_begin);
        let is_end = bytes_eq(a, &f_end);
        let is_fs = bytes_eq(a, &f_fs);
        if (is_ram || is_initrd || is_signature || is_begin || is_end || is_fs) && i + 1 >= args.len() {
            return Err(CliError::MissingValue(i));
        }
        if is_ram {
            assert(v[i + 1] == args@[i + 1]@);
            match parse_dec(&args[i + 1]) {
                Some(n) => {
                    o = CliOptions { ram_size_mb: n, ..o };
                },
                None => {
                    return Err(CliError::InvalidRamSize);
                },
            }
            i = i + 2;
        } else if is_initrd {
            o = CliOptions { initrd: Some(i + 1), ..o };
            i = i + 2;
        } else if is_signature {
            o = CliOptions { signature: Some(i + 1), ..o };
            i = i + 2;
        } else if is_begin {
            assert(v[i + 1] == args@[i + 1]@);
            match parse_hex(&args[i + 1]) {
                Some(n) => {
                    o = CliOptions { sig_begin: n, ..o };
                },
                None => {
                    return Err(CliError::InvalidBeginAddr);
                },
            }
            i = i + 2;
        } else if is_end {
            assert(v[i + 1] == args@[i + 1]@);
            match parse_hex(&args[i + 1]) {
                Some(n) => {
                    o = CliOptions { sig_end: n, ..o };
                },
                None => {
                    return Err(CliError::InvalidEndAddr);
                },
            }
            i = i + 2;
        } else if is_fs {
            o = CliOptions { fs: Some(i + 1), ..o };
            i = i + 2;
        } else if bytes_eq(a, &f_raw) {
            o = CliOptions { raw_mode: true, ..o };
            i = i + 1;
        } else if bytes_eq(a, &f_benchmark) {
            o = CliOptions { benchmark: true, ..o };
            i = i + 1;
        } else if bytes_eq(a, &f_fast) {
            o = CliOptions { fast_mode: true, ..o };
            i = i + 1;
        } else if a.len() == 0 || a[0] != 45 {
            o = CliOptions { kernel: Some(i), ..o };
            i = i + 1;
        } else {
            unknown.push(i);
            i = i + 1;
        }
    }
    Ok((o, unknown))
}

/// The console prompts that mark the end of booting.
pub open spec fn prompts() -> Seq<Seq<u8>> {
    seq![seq![10u8, 35, 32], seq![10u8, 36, 32], seq![10u8, 126, 32, 36], seq![10u8, 126, 35, 32]]
}

/// Does `buf` contain `pat` somewhere?
pub open spec fn has_window(buf: Seq<u8>, pat: Seq<u8>) -> bool {
    exists|i: int| 0 <= i && i + pat.len() <= buf.len() && #[trigger] buf.subrange(i, i + pat.len()) == pat
}

/// Does `buf` contain `pat` somewhere?
fn contains_window(buf: &[u8], pat: &Vec<u8>) -> (r: bool)
    requires
        pat@.len() > 0,
    ensures
        r == has_window(buf@, pat@),
{
    if pat.len() > buf.len() {
        return false;
    }
    let mut i: usize = 0;
    while i <= buf.len() - pat.len()
        invariant
            pat@.len() > 0,
            pat@.len() <= buf@.len(),
            i + pat@.len() <= buf@.len() + 1,
            forall|k: int| 0 <= k < i ==> #[trigger] buf@.subrange(k, k + pat@.len()) != pat@,
        decreases buf@.len() + 1 - i,
    {
        let mut j: usize = 0;
        let mut same = true;
        while j < pat.len()
            invariant
                i + pat@.len() <= buf@.len(),
                buf@.len() <= usize::MAX,
                j <= pat@.len(),
                same == (forall|m: int| 0 <= m < j ==> buf@[i + m] == pat@[m]),
            decreases pat@.len() - j,
        {
            if buf[i + j] != pat[j] {
                same = false;
            }
            j = j + 1;
        }
        if same {
            assert(buf@.subrange(i as int, i + pat@.len()) =~= pat@);
            return true;
        }
        assert(buf@.subrange(i as int, i + pat@.len()) != pat@) by {
            let m = choose|m: int| 0 <= m < pat@.len() && buf@[i + m] != pat@[m];
            assert(buf@.subrange(i as int, i + pat@.len())[m] != pat@[m]);
        }
        i = i + 1;
    }
    false
}

/// Does the console output hold a shell prompt?
pub fn output_has_prompt(buffer: &[u8]) -> (r: bool)
    ensures
        r == exists|k: int| 0 <= k < prompts().len() && has_window(buffer@, #[trigger] prompts()[k]),
{
    let p0: Vec<u8> = vec![10u8, 35, 32];
    let p1: Vec<u8> = vec![10u8, 36, 32];
    let p2: Vec<u8> = vec![10u8, 126, 32, 36];
    let p3: Vec<u8> = vec![10u8, 126, 35, 32];
    assert(p0@ =~= prompts()[0]);
    assert(p1@ =~= prompts()[1]);
    assert(p2@ =~= prompts()[2]);
    assert(p3@ =~= prompts()[3]);
    let r = contains_window(buffer, &p0) || contains_window(buffer, &p1) || contains_window(buffer, &p2)
        || contains_window(buffer, &p3);
    proof {
        if r {
            if has_window(buffer@, prompts()[0]) {
                assert(has_window(buffer@, prompts()[0]));
            }
        } else {
            assert forall|k: int| 0 <= k < prompts().len() implies !has_window(buffer@, #[trigger] prompts()[k]) by {
                if k == 0 {} else if k == 1 {} else if k == 2 {} else {}
            }
        }
    }
    r
}

/// A key from the terminal as the guest sees it: carriage return becomes line feed.
pub fn input_byte(c: u8) -> (r: u8)
    ensures
        r == (if c == 13 { 10 } else { c }),
{
    if c == 13 { 10 } else { c }
}

/// Why a run stops.
#[derive(Clone, Copy, PartialEq, Eq, Structural, Debug)]
pub enum StopReason {
    /// A shell prompt appeared and the run was to end there.
    PromptSeen,
    /// The program counter reached zero.
    PcZero,
    /// The cycle budget is spent.
    Timeout,
    /// A batch ran no cycle.
    Stalled,
}

/// Is there a shell prompt in `buf`?
pub open spec fn prompt_in(buf: Seq<u8>) -> bool {
    exists|k: int| 0 <= k < prompts().len() && has_window(buf, #[trigger] prompts()[k])
}

/// The last 128 bytes of `s` (all of it when shorter).
pub open spec fn keep_tail(s: Seq<u8>) -> Seq<u8> {
    if s.len() > PROMPT_BUFFER_MAX { s.subrange(s.len() - PROMPT_BUFFER_MAX, s.len() as int) } else { s }
}

/// The state of a console run between batches.
pub struct Session {
    /// Cycles run so far.
    pub instructions: u64,
    /// Has the boot prompt been seen?
    pub prompt_seen: bool,
    /// The recent console output, while waiting for the prompt.
    pub prompt_buffer: Vec<u8>,
}

impl Session {
    pub fn new() -> (s: Session)
        ensures
            s.instructions == 0,
            !s.prompt_seen,
            s.prompt_buffer@.len() == 0,
    {
        Session { instructions: 0, prompt_seen: false, prompt_buffer: Vec::new() }
    }

    /// Account for a batch that ran `cycles_run` cycles, printed `output`
    /// and left the pc at `pc`. While benchmarking and before the prompt
    /// was seen, the output is kept (its last 128 bytes) and searched for a
    /// prompt; the first result tells whether the prompt appeared now.
    /// The run stops at the prompt when asked to, at pc zero, past the
    /// cycle budget, or when a batch ran nothing, in that order.
    pub fn after_batch(&mut self, benchmark: bool, exit_on_prompt: bool, cycles_run: u32, output: &[u8], pc: u32)
        -> (r: (bool, Option<StopReason>))
        requires
            old(self).instructions <= MAX_TOTAL_CYCLES,
        ensures
            final(self).instructions == old(self).instructions + cycles_run,
            ({
                let watching = benchmark && !old(self).prompt_seen && output@.len() > 0;
                let buf = keep_tail(old(self).prompt_buffer@ + output@);
                &&& watching ==> final(self).prompt_buffer@ == buf && r.0 == prompt_in(buf)
                &&& !watching ==> final(self).prompt_buffer@ == old(self).prompt_buffer@ && !r.0
                &&& final(self).prompt_seen == (old(self).prompt_seen || r.0)
            }),
            r.1 == (if r.0 && exit_on_prompt { Some(StopReason::PromptSeen) }
                else if pc == 0 { Some(StopReason::PcZero) }
                else if final(self).instructions > MAX_TOTAL_CYCLES { Some(StopReason::Timeout) }
                else if cycles_run == 0 { Some(StopReason::Stalled) }
                else { None }),
    {
        self.instructions = self.instructions + cycles_run as u64;
        let mut prompt_now = false;
        if benchmark && !self.prompt_seen && output.len() > 0 {
            let ghost joined = self.prompt_buffer@ + output@;
            let mut i: usize = 0;
            let ghost before = self.prompt_buffer@;
            while i < output.len()
                invariant
                    i <= output@.len(),
                    self.prompt_buffer@ == before + output@.subrange(0, i as int),
                    self.instructions == old(self).instructions + cycles_run,
                    self.prompt_seen == old(self).prompt_seen,
                decreases output@.len() - i,
            {
                self.prompt_buffer.push(output[i]);
                assert(output@.subrange(0, i + 1) =~= output@.subrange(0, i as int).push(output@[i as int]));
                i = i + 1;
            }
            assert(output@.subrange(0, output@.len() as int) =~= output@);
            if self.prompt_buffer.len() > PROMPT_BUFFER_MAX {
                let excess = self.prompt_buffer.len() - PROMPT_BUFFER_MAX;
                let mut kept: Vec<u8> = Vec::new();
                let mut k: usize = excess;
                while k < self.prompt_buffer.len()
                    invariant
                        excess <= k <= self.prompt_buffer@.len(),
                        kept@ == self.prompt_buffer@.subrange(excess as int, k as int),
                        self.instructions == old(self).instructions + cycles_run,
                        self.prompt_seen == old(self).prompt_seen,
                    decreases self.prompt_buffer@.len() - k,
                {
                    kept.push(self.prompt_buffer[k]);
                    assert(self.prompt_buffer@.subrange(excess as int, k + 1)
                        =~= self.prompt_buffer@.subrange(excess as int, k as int).push(self.prompt_buffer@[k as int]));
                    k = k + 1;
                }
                self.prompt_buffer = kept;
            }
            assert(self.prompt_buffer@ =~= keep_tail(joined));
            prompt_now = output_has_prompt(self.prompt_buffer.as_slice());
            if prompt_now {
                self.prompt_seen = true;
            }
        }
        let stop = if prompt_now && exit_on_prompt {
            Some(StopReason::PromptSeen)
        } else if pc == 0 {
            Some(StopReason::PcZero)
        } else if self.instructions > MAX_TOTAL_CYCLES {
            Some(StopReason::Timeout)
        } else if cycles_run == 0 {
            Some(StopReason::Stalled)
        } else {
            None
        };
        (prompt_now, stop)
    }
}

/// The kernel command line: an initrd is the root filesystem when there
/// is one, otherwise the VirtIO disk is, read-only.
pub fn boot_cmdline(has_initrd: bool) -> (r: &'static str)
    ensures
        r@ == (if has_initrd { "lpj=10000 console=ttyS0 earlycon rdinit=/sbin/init"@ } else {
            "lpj=10000 console=ttyS0 earlycon root=/dev/vda ro"@ }),
{
    if has_initrd {
        "lpj=10000 console=ttyS0 earlycon rdinit=/sbin/init"
    } else {
        "lpj=10000 console=ttyS0 earlycon root=/dev/vda ro"
    }
}

/// Is a signature dump wanted: a non-empty file name and both bounds non-zero?
pub fn signature_requested(o: &CliOptions, args: &Vec<Vec<u8>>) -> (r: bool)
    ensures
        r == ((match o.signature { Some(k) => k < args@.len() && args@[k as int]@.len() > 0, None => false })
            && o.sig_begin != 0 && o.sig_end != 0),
{
    let named = match o.signature {
        Some(k) => k < args.len() && args[k].len() > 0,
        None => false,
    };
    named && o.sig_begin != 0 && o.sig_end != 0
}

/// 16 to the power `e`.
pub open spec fn pow16(e: nat) -> nat
    decreases e,
{
    if e == 0 { 1 } else { 16 * pow16((e - 1) as nat) }
}

/// The lower-case hexadecimal digit for `n` < 16.
pub open spec fn hex_char(n: int) -> u8 {
    if n < 10 { (48 + n) as u8 } else { (87 + n) as u8 }
}

/// A word as eight lower-case hexadecimal digits and a line feed.
pub open spec fn hex_line(v: u32) -> Seq<u8> {
    Seq::new(8, |k: int| hex_char(((v as nat) / pow16((7 - k) as nat)) as int % 16)).push(10u8)
}

/// The word a memory dump shows at `a`: four bytes, little-endian, with
/// bytes below RAM read as zero.
pub open spec fn dump_byte(s: System, a: int) -> int {
    if a >= DRAM_BASE { s.mem().spec_read8(a as u32) as int } else { 0 }
}

pub open spec fn dump_word(s: System, a: int) -> u32 {
    (dump_byte(s, a) + dump_byte(s, a + 1) * 0x100 + dump_byte(s, a + 2) * 0x1_0000 + dump_byte(s, a + 3) * 0x100_0000) as u32
}

/// The lines of a signature dump of the first `n` words from `begin`.
pub open spec fn signature_lines(s: System, begin: u32, n: nat) -> Seq<u8>
    decreases n,
{
    if n == 0 { Seq::empty() } else { signature_lines(s, begin, (n - 1) as nat) + hex_line(dump_word(s, begin + 4 * (n - 1))) }
}

/// The number of words from `begin` below `end`.
pub open spec fn signature_words(begin: u32, end: u32) -> nat {
    if end > begin { ((end - begin + 3) / 4) as nat } else { 0 }
}

/// The number of words a signature dump from `begin` below `end` shows.
pub fn signature_words_count(begin: u32, end: u32) -> (r: u64)
    ensures
        r == signature_words(begin, end),
{
    if end > begin { ((end - begin) as u64 + 3) / 4 } else { 0 }
}

/// Eight hexadecimal digits and a line feed.
fn hex_word_line(v: u32) -> (r: Vec<u8>)
    ensures
        r@ == hex_line(v),
{
    let mut line: Vec<u8> = Vec::new();
    let mut p: u32 = 0x1000_0000;
    let mut k: usize = 0;
    assert(pow16(7) == 0x1000_0000) by {
        reveal_with_fuel(pow16, 8);
    }
    while k < 8
        invariant
            k <= 8,
            k < 8 ==> p as nat == pow16((7 - k) as nat),
            p > 0 || k == 8,
            line@ == Seq::new(k as nat, |m: int| hex_char(((v as nat) / pow16((7 - m) as nat)) as int % 16)),
        decreases 8 - k,
    {
        let n = (v / p) % 16;
        let c: u8 = if n < 10 { 48 + n as u8 } else { 87 + n as u8 };
        line.push(c);
        proof {
            assert(line@ =~= Seq::new((k + 1) as nat, |m: int| hex_char(((v as nat) / pow16((7 - m) as nat)) as int % 16)));
            if k < 7 {
                assert(pow16((7 - k) as nat) == 16 * pow16((6 - k) as nat));
            }
        }
        p = p / 16;
        k = k + 1;
    }
    line.push(10u8);
    assert(line@ =~= hex_line(v));
    line
}

/// The signature dump: every word from `begin` (in steps of four bytes)
/// below `end`, one per line as eight lower-case hexadecimal digits.
/// Every address visited must lie below the last word of the address space.
pub fn signature_text(sys: &System, begin: u32, end: u32) -> (r: Vec<u8>)
    requires
        sys.wf(),
        signature_words(begin, end) == 0 || begin + 4 * (signature_words(begin, end) - 1) < 0xFFFF_FFFC,
    ensures
        r@ == signature_lines(*sys, begin, signature_words(begin, end)),
{
    let mut out: Vec<u8> = Vec::new();
    let mut addr = begin;
    let ghost mut n: nat = 0;
    while addr < end
        invariant
            sys.wf(),
            signature_words(begin, end) == 0 || begin + 4 * (signature_words(begin, end) - 1) < 0xFFFF_FFFC,
            addr == begin + 4 * n,
            addr < end ==> n < signature_words(begin, end),
            addr >= end ==> n == signature_words(begin, end),
            out@ == signature_lines(*sys, begin, n),
        decreases signature_words(begin, end) - n,
    {
        let bytes = sys.read_memory(addr, 4);
        let w: u32 = bytes[0] as u32 + (bytes[1] as u32) * 0x100 + (bytes[2] as u32) * 0x1_0000 + (bytes[3] as u32) * 0x100_0000;
        assert(w == dump_word(*sys, addr as int));
        let line = hex_word_line(w);
        let mut i: usize = 0;
        let ghost before = out@;
        while i < line.len()
            invariant
                i <= line@.len(),
                out@ == before + line@.subrange(0, i as int),
            decreases line@.len() - i,
        {
            out.push(line[i]);
            assert(line@.subrange(0, i + 1) =~= line@.subrange(0, i as int).push(line@[i as int]));
            i = i + 1;
        }
        assert(line@.subrange(0, line@.len() as int) =~= line@);
        proof {
            n = n + 1;
        }
        addr = addr + 4;
    }
    out
}

} // verus!
