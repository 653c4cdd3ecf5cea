//! Decisions taken while booting: where the sandbox comes from, what the second
//! boot phase does with a running Squeak image, the arguments it passes to it,
//! and whether a child's report asks for a scan.
use vstd::prelude::*;

verus! {

/// The character of decimal digit `d`.
pub open spec fn digit_char(d: nat) -> char {
    (48 + d) as char
}

/// The decimal notation of `n`, without leading zeros.
pub open spec fn decimal(n: nat) -> Seq<char>
    decreases n,
{
    if n < 10 {
        seq![digit_char(n)]
    } else {
        decimal(n / 10).push(digit_char(n % 10))
    }
}

/// Whether `c` is a decimal digit character.
pub open spec fn is_digit(c: char) -> bool {
    '0' <= c && c <= '9'
}

/// The number that the digit characters `s` denote, most significant first.
pub open spec fn digits_value(s: Seq<char>) -> int
    decreases s.len(),
{
    if s.len() == 0 {
        0
    } else {
        digits_value(s.drop_last()) * 10 + ((s.last() as int) - ('0' as int))
    }
}

/// `decimal(n)` is the decimal notation of `n`: a non-empty string of digits,
/// without a leading zero unless `n` is zero, whose positional value is `n`.
pub proof fn lemma_decimal_is_notation(n: nat)
    ensures
        decimal(n).len() > 0,
        forall|i: int| 0 <= i < decimal(n).len() ==> is_digit(#[trigger] decimal(n)[i]),
        n != 0 ==> decimal(n)[0] != '0',
        digits_value(decimal(n)) == n,
    decreases n,
{
    if n < 10 {
        assert(digit_char(n) as int == 48 + n);
        assert(decimal(n).drop_last() =~= Seq::<char>::empty());
        assert(digits_value(decimal(n)) == digits_value(Seq::<char>::empty()) * 10 + n);
    } else {
        lemma_decimal_is_notation(n / 10);
        let prev = decimal(n / 10);
        let cur = decimal(n);
        assert(digit_char(n % 10) as int == 48 + n % 10);
        assert(cur.drop_last() =~= prev);
        assert(cur.last() == digit_char(n % 10));
        assert(digits_value(cur) == digits_value(prev) * 10 + (n % 10) as int);
        assert((n / 10) * 10 + n % 10 == n);
        assert(cur[0] == prev[0]);
        assert forall|i: int| 0 <= i < cur.len() implies is_digit(#[trigger] cur[i]) by {
            if i < prev.len() {
                assert(cur[i] == prev[i]);
            }
        }
    }
}

/// The one-character string of decimal digit `d`.
fn digit_str(d: u64) -> (r: &'static str)
    requires
        d < 10,
    ensures
        r@ == seq![digit_char(d as nat)],
{
    proof {
        reveal_strlit("0");
        reveal_strlit("1");
        reveal_strlit("2");
        reveal_strlit("3");
        reveal_strlit("4");
        reveal_strlit("5");
        reveal_strlit("6");
        reveal_strlit("7");
        reveal_strlit("8");
        reveal_strlit("9");
    }
    if d == 0 {
        "0"
    } else if d == 1 {
        "1"
    } else if d == 2 {
        "2"
    } else if d == 3 {
        "3"
    } else if d == 4 {
        "4"
    } else if d == 5 {
        "5"
    } else if d == 6 {
        "6"
    } else if d == 7 {
        "7"
    } else if d == 8 {
        "8"
    } else {
        "9"
    }
}

/// Appends the decimal notation of `n` to `s`.
fn push_decimal(s: &mut String, n: u64)
    ensures
        final(s)@ == old(s)@ + decimal(n as nat),
    decreases n,
{
    if n >= 10 {
        push_decimal(s, n / 10);
    }
    s.append(digit_str(n % 10));
    assert(final(s)@ =~= old(s)@ + decimal(n as nat));
}

/// `prefix` followed by the decimal notation of `n`.
fn tagged_number(prefix: &str, n: u64) -> (r: String)
    ensures
        r@ == prefix@ + decimal(n as nat),
{
    let mut s = String::from_str(prefix);
    push_decimal(&mut s, n);
    s
}

/// The arguments a Squeak image gets when it boots without a sandbox: the
/// address of the start routine and that of the boot task bar flag, in decimal.
pub open spec fn spec_boot_args(start_addr: u64, bts_addr: u64) -> Seq<Seq<char>> {
    seq![
        "-no-q"@,
        "--addr"@,
        "addr:"@ + decimal(start_addr as nat),
        "--bts"@,
        "bts:"@ + decimal(bts_addr as nat),
    ]
}

/// Builds the arguments of a Squeak image that boots without a sandbox.
pub fn boot_args(start_addr: u64, bts_addr: u64) -> (r: Vec<String>)
    ensures
        r@.map_values(|s: String| s@) == spec_boot_args(start_addr, bts_addr),
{
    let mut v: Vec<String> = Vec::new();
    v.push(String::from_str("-no-q"));
    v.push(String::from_str("--addr"));
    v.push(tagged_number("addr:", start_addr));
    v.push(String::from_str("--bts"));
    v.push(tagged_number("bts:", bts_addr));
    assert(v@.map_values(|s: String| s@) =~= spec_boot_args(start_addr, bts_addr));
    v
}

/// Where the sandbox of a booting system comes from.
#[derive(PartialEq, Eq, Structural, Copy, Clone, Debug)]
pub enum QSource {
    /// The processor-instruction sandbox.
    Asm,
    /// A sandbox object the boot loader placed at this address.
    External(u64),
    /// No sandbox.
    NoQ,
}

/// Chooses the sandbox from the boot flag byte at `physical_memory_offset + 23`
/// and the byte after it: flag 1 selects the instruction sandbox; flag 2 with a
/// non-zero byte after it selects the one placed at `physical_memory_offset + 24`.
pub fn choose_q(physical_memory_offset: u64, flag: u8, next: u8) -> (r: QSource)
    requires
        flag == 2 && next != 0 ==> physical_memory_offset + 24 <= u64::MAX,
    ensures
        r == if flag == 1 {
            QSource::Asm
        } else if flag == 2 && next != 0 {
            QSource::External((physical_memory_offset + 24) as u64)
        } else {
            QSource::NoQ
        },
{
    if flag == 1 {
        QSource::Asm
    } else if flag == 2 && next != 0 {
        QSource::External(physical_memory_offset + 24)
    } else {
        QSource::NoQ
    }
}

/// What the second boot phase does with the Squeak image it fetched.
#[derive(PartialEq, Eq, Debug)]
pub enum Phase2Action {
    /// Hook the sandbox into the running image.
    InstallHooks,
    /// Boot the image without a sandbox, with these arguments.
    SetArgs(Vec<String>),
    /// There is no image to act on.
    Nothing,
}

/// Decides the second boot phase: with an image and a sandbox, hook the
/// sandbox in; with an image and no sandbox, hand the image its arguments;
/// without an image, do nothing.
pub fn boot_phase2_action(has_q: bool, squeak_running: bool, start_addr: u64, bts_addr: u64) -> (r:
    Phase2Action)
    ensures
        !squeak_running ==> r is Nothing,
        squeak_running && has_q ==> r is InstallHooks,
        squeak_running && !has_q ==> (r matches Phase2Action::SetArgs(args) && args@.map_values(
            |s: String| s@,
        ) == spec_boot_args(start_addr, bts_addr)),
{
    if !squeak_running {
        Phase2Action::Nothing
    } else if has_q {
        Phase2Action::InstallHooks
    } else {
        Phase2Action::SetArgs(boot_args(start_addr, bts_addr))
    }
}

/// The marker a child process prints when it wants the system scanned.
pub open spec fn scan_marker() -> Seq<char> {
    "Fe2O3"@
}

/// Whether `text` holds `pattern` starting at position `i`.
pub open spec fn occurs_at(text: Seq<char>, pattern: Seq<char>, i: int) -> bool {
    0 <= i && i + pattern.len() <= text.len() && text.subrange(i, i + pattern.len()) == pattern
}

/// Whether a child's output asks for a scan: it holds the marker somewhere.
pub fn output_requests_scan(output: &str) -> (r: bool)
    ensures
        r == exists|i: int| occurs_at(output@, scan_marker(), i),
{
    let marker = "Fe2O3";
    proof {
        reveal_strlit("Fe2O3");
    }
    let n = output.unicode_len();
    let m = marker.unicode_len();
    if n < m {
        assert forall|i: int| !occurs_at(output@, scan_marker(), i) by {}
        return false;
    }
    let mut i: usize = 0;
    while i <= n - m
        invariant
            n == output@.len(),
            m == marker@.len(),
            marker@ == scan_marker(),
            m == 5,
            m <= n,
            i <= n - m + 1,
            forall|j: int| 0 <= j < i ==> !occurs_at(output@, scan_marker(), j),
        decreases n - m + 1 - i,
    {
        let mut k: usize = 0;
        let mut same = true;
        assert(output@.subrange(i as int, i as int) =~= marker@.subrange(0, 0));
        while k < m
            invariant
                n == output@.len(),
                m == marker@.len(),
                i + m <= n,
                k <= m,
                same == (output@.subrange(i as int, i + k) == marker@.subrange(0, k as int)),
            decreases m - k,
        {
            let ghost was_same = same;
            if same && output.get_char(i + k) != marker.get_char(k) {
                same = false;
            }
            proof {
                assert(output@.subrange(i as int, i + k + 1) =~= output@.subrange(i as int, i + k).push(
                    output@[i + k],
                ));
                assert(marker@.subrange(0, k + 1) =~= marker@.subrange(0, k as int).push(
                    marker@[k as int],
                ));
                if was_same && output@[i + k] == marker@[k as int] {
                    assert(output@.subrange(i as int, i + k + 1) =~= marker@.subrange(0, k + 1));
                }
                if output@.subrange(i as int, i + k + 1) == marker@.subrange(0, k + 1) {
                    assert(output@.subrange(i as int, i + k) =~= output@.subrange(
                        i as int,
                        i + k + 1,
                    ).drop_last());
                    assert(marker@.subrange(0, k as int) =~= marker@.subrange(0, k + 1).drop_last());
                    assert(output@.subrange(i as int, i + k + 1)[k as int] == output@[i + k]);
                    assert(marker@.subrange(0, k + 1)[k as int] == marker@[k as int]);
                }
            }
            k = k + 1;
        }
        assert(marker@.subrange(0, m as int) =~= marker@);
        if same {
            assert(occurs_at(output@, scan_marker(), i as int));
            return true;
        }
        i = i + 1;
    }
    assert forall|j: int| !occurs_at(output@, scan_marker(), j) by {
        if 0 <= j && j + m <= n {
            assert(j < i);
        }
    }
    false
}

} // verus!
