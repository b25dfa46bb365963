//! Memory regions, page-size constants, alignment arithmetic, and the
//! memory-map report.

use vstd::prelude::*;
use vstd::string::StringExecFns;

verus! {

/// 4 KiB page size used by the memory subsystem.
pub const PAGE_SIZE: u64 = 4096;

/// Memory region classification used by the kernel.
#[derive(Debug, Clone, Copy, PartialEq, Eq, Structural)]
pub enum MemRegionKind {
    Usable,
    Reserved,
    Other,
}

/// Memory region description provided by the bootloader; `[start, end)` semantics.
#[derive(Debug, Clone, Copy)]
pub struct MemRegion {
    pub start: u64,
    pub end: u64,
    pub kind: MemRegionKind,
}

/// Generic address range [start, end) used for range checks.
#[derive(Debug, Clone, Copy)]
pub struct Range {
    pub start: u64,
    pub end: u64,
}

impl Range {
    /// Returns true if `addr` is inside this range.
    pub fn contains(&self, addr: u64) -> (r: bool)
        ensures
            r == (self.start <= addr && addr < self.end),
    {
        self.start <= addr && addr < self.end
    }
}

/// `a` is a power of two (and hence a valid alignment).
pub open spec fn is_pow2(a: u64) -> bool {
    exists|k: u64| k < 64 && a == (1u64 << k)
}

/// A region that the allocators can accept: non-inverted bounds, and a start
/// low enough that rounding it up to a page boundary cannot overflow.
pub open spec fn region_ok(r: MemRegion) -> bool {
    &&& r.start <= r.end
    &&& r.start + PAGE_SIZE - 1 <= u64::MAX
}

/// Regions are sorted and non-overlapping, as the bootloader supplies them.
pub open spec fn regions_ordered(rs: Seq<MemRegion>) -> bool {
    forall|i: int, j: int| 0 <= i < j < rs.len() ==> rs[i].end <= rs[j].start
}

/// All entries of a region list are acceptable to the allocators.
pub open spec fn regions_ok(rs: Seq<MemRegion>) -> bool {
    forall|i: int| 0 <= i < rs.len() ==> region_ok(#[trigger] rs[i])
}

/// The page size is a valid alignment.
pub proof fn lemma_page_size_pow2()
    ensures
        is_pow2(PAGE_SIZE),
{
    assert(1u64 << 12 == 4096) by (bit_vector);
}

/// Least multiple of `a` that is at least `x`.
pub open spec fn spec_align_up(x: int, a: int) -> int {
    (x + a - 1) / a * a
}

/// Greatest multiple of `a` that is at most `x`.
pub open spec fn spec_align_down(x: int, a: int) -> int {
    x / a * a
}

/// `spec_align_up` lands on a multiple of `a` within `[x, x + a)`.
pub proof fn lemma_spec_align_up_bounds(x: int, a: int)
    requires
        a > 0,
    ensures
        spec_align_up(x, a) % a == 0,
        x <= spec_align_up(x, a) < x + a,
{
    vstd::arithmetic::div_mod::lemma_fundamental_div_mod(x + a - 1, a);
    vstd::arithmetic::div_mod::lemma_mod_bound(x + a - 1, a);
    let q = (x + a - 1) / a;
    assert(a * q <= x + a - 1 < a * q + a);
    vstd::arithmetic::div_mod::lemma_mod_multiples_basic(q, a);
    assert(q * a == a * q) by (nonlinear_arith);
}

/// When `x` sits within an alignment's reach of the top of the address
/// space, rounding it up leaves the representable range.
pub proof fn lemma_align_up_near_max(x: u64, a: u64)
    requires
        is_pow2(a),
        x > u64::MAX - (a - 1),
    ensures
        spec_align_up(x as int, a as int) > u64::MAX,
{
    lemma_pow2_positive(a);
    lemma_spec_align_up_bounds(x as int, a as int);
    let s = spec_align_up(x as int, a as int);
    let k = choose|k: u64| k < 64 && a == (1u64 << k);
    vstd::bits::lemma_u64_pow2_no_overflow(k as nat);
    vstd::bits::lemma_u64_shl_is_mul(1u64, k);
    vstd::arithmetic::power2::lemma_pow2_adds(k as nat, (64 - k) as nat);
    vstd::arithmetic::power2::lemma2_to64();
    vstd::arithmetic::power2::lemma2_to64_rest();
    let t = vstd::arithmetic::power2::pow2(64) as int;
    assert(t == u64::MAX + 1);
    assert(t == (a as int) * (vstd::arithmetic::power2::pow2((64 - k) as nat) as int));
    if s <= u64::MAX {
        vstd::arithmetic::div_mod::lemma_fundamental_div_mod(s, a as int);
        vstd::arithmetic::div_mod::lemma_fundamental_div_mod(t, a as int);
        vstd::arithmetic::div_mod::lemma_mod_multiples_basic(
            vstd::arithmetic::power2::pow2((64 - k) as nat) as int,
            a as int,
        );
        let qs = s / (a as int);
        let qt = t / (a as int);
        assert(false) by (nonlinear_arith)
            requires
                s == (a as int) * qs,
                t == (a as int) * qt,
                t - a < s < t,
                a > 0,
        ;
    }
}

/// A multiple of `a` in the half-open window `[x, x + a)` is unique, and it
/// is exactly `spec_align_up(x, a)`.
pub proof fn lemma_align_up_unique(x: int, a: int, r: int)
    requires
        a > 0,
        r % a == 0,
        x <= r < x + a,
    ensures
        r == spec_align_up(x, a),
{
    vstd::arithmetic::div_mod::lemma_fundamental_div_mod(x + a - 1, a);
    vstd::arithmetic::div_mod::lemma_fundamental_div_mod(r, a);
    vstd::arithmetic::div_mod::lemma_mod_bound(x + a - 1, a);
    let q = (x + a - 1) / a;
    let p = r / a;
    assert(r == a * p);
    assert(a * q <= x + a - 1 < a * q + a);
    assert(p == q) by (nonlinear_arith)
        requires
            a > 0,
            r == a * p,
            a * q <= x + a - 1 < a * q + a,
            x <= r < x + a,
    ;
    assert(spec_align_up(x, a) == q * a);
    assert(q * a == a * q) by (nonlinear_arith);
}

/// A multiple of `a` in the half-open window `(x - a, x]` is unique, and it
/// is exactly `spec_align_down(x, a)`.
pub proof fn lemma_align_down_unique(x: int, a: int, r: int)
    requires
        a > 0,
        r % a == 0,
        r <= x < r + a,
    ensures
        r == spec_align_down(x, a),
{
    vstd::arithmetic::div_mod::lemma_fundamental_div_mod(x, a);
    vstd::arithmetic::div_mod::lemma_fundamental_div_mod(r, a);
    vstd::arithmetic::div_mod::lemma_mod_bound(x, a);
    let q = x / a;
    let p = r / a;
    assert(r == a * p);
    assert(a * q <= x < a * q + a);
    assert(p == q) by (nonlinear_arith)
        requires
            a > 0,
            r == a * p,
            a * q <= x < a * q + a,
            r <= x < r + a,
    ;
    assert(spec_align_down(x, a) == q * a);
    assert(q * a == a * q) by (nonlinear_arith);
}

pub proof fn lemma_pow2_positive(a: u64)
    requires
        is_pow2(a),
    ensures
        1 <= a,
{
    let k = choose|k: u64| k < 64 && a == (1u64 << k);
    assert(k < 64 ==> 1u64 << k >= 1) by (bit_vector);
}

/// Clearing the low bits of a power of two `a` yields the greatest multiple
/// of `a` that is at most `v`.
proof fn lemma_pow2_mask(v: u64, a: u64)
    requires
        is_pow2(a),
    ensures
        1 <= a,
        (v & !((a - 1) as u64)) % a == 0,
        (v & !((a - 1) as u64)) <= v,
        v < (v & !((a - 1) as u64)) + a,
{
    lemma_pow2_positive(a);
    let k = choose|k: u64| k < 64 && a == (1u64 << k);
    vstd::bits::lemma_u64_pow2_no_overflow(k as nat);
    vstd::bits::lemma_u64_shl_is_mul(1u64, k);
    assert(a == vstd::arithmetic::power2::pow2(k as nat));
    let m: u64 = (a - 1) as u64;
    assert(m == vstd::bits::low_bits_mask(k as nat) as u64);
    vstd::bits::lemma_u64_low_bits_mask_is_mod(v, k as nat);
    assert((v & !m) == vstd::prelude::sub(v, v & m) && (v & m) <= v) by (bit_vector);
    assert((v & m) == v % a);
    vstd::arithmetic::div_mod::lemma_fundamental_div_mod(v as int, a as int);
    let q = v as int / a as int;
    assert((v & !m) as int == (a as int) * q);
    vstd::arithmetic::div_mod::lemma_mod_multiples_basic(q, a as int);
    assert(q * (a as int) == (a as int) * q) by (nonlinear_arith);
    assert((v & !m) % a == 0);
}

/// Align `x` up to the next multiple of `a` (power of two).
pub fn align_up(x: u64, a: u64) -> (r: u64)
    requires
        is_pow2(a),
        x + a - 1 <= u64::MAX,
    ensures
        r % a == 0,
        x <= r < x + a,
        r == spec_align_up(x as int, a as int),
{
    proof {
        lemma_pow2_positive(a);
    }
    let v = x + (a - 1);
    let r = v & !(a - 1);
    proof {
        lemma_pow2_mask(v, a);
        lemma_align_up_unique(x as int, a as int, r as int);
    }
    r
}

/// Align `x` down to the previous multiple of `a` (power of two).
pub fn align_down(x: u64, a: u64) -> (r: u64)
    requires
        is_pow2(a),
    ensures
        r % a == 0,
        r <= x < r + a,
        r == spec_align_down(x as int, a as int),
{
    proof {
        lemma_pow2_positive(a);
    }
    let r = x & !(a - 1);
    proof {
        lemma_pow2_mask(x, a);
        lemma_align_down_unique(x as int, a as int, r as int);
    }
    r
}

/// Align `x` up to the next multiple of `a` (power of two), usize variant.
pub fn align_up_usize(x: usize, a: usize) -> (r: usize)
    requires
        is_pow2(a as u64),
        x + a - 1 <= usize::MAX,
    ensures
        r % a == 0,
        x <= r < x + a,
        r == spec_align_up(x as int, a as int),
{
    let r = align_up(x as u64, a as u64);
    r as usize
}

/// Allocate one physical frame from the provided memory regions.
///
/// Builds a fresh bump allocator over the regions and takes its first
/// frame: the page-aligned start of the first usable region, or `None`
/// when no region yields a whole page.
pub fn alloc_frame(regions: Vec<MemRegion>) -> (r: Option<u64>)
    requires
        regions_ok(regions@),
        regions_ordered(regions@),
    ensures
        (r is Some) == exists|i: int|
            0 <= i < regions@.len() && crate::frame::usable_region(#[trigger] regions@[i]),
        match r {
            Some(addr) => {
                &&& addr % PAGE_SIZE == 0
                &&& addr == crate::frame::region_first_page(
                    regions@[crate::frame::first_usable_from(regions@, 0)],
                )
            },
            None => true,
        },
{
    let mut allocator = crate::frame::BumpFrameAllocator::new(regions);
    crate::frame::FrameAllocator::alloc_frame(&mut allocator)
}

/// Digit character for a value below 16, lowercase.
pub open spec fn spec_digit(v: int) -> char {
    if v == 0 { '0' } else if v == 1 { '1' } else if v == 2 { '2' } else if v == 3 { '3' }
    else if v == 4 { '4' } else if v == 5 { '5' } else if v == 6 { '6' } else if v == 7 { '7' }
    else if v == 8 { '8' } else if v == 9 { '9' } else if v == 10 { 'a' } else if v == 11 { 'b' }
    else if v == 12 { 'c' } else if v == 13 { 'd' } else if v == 14 { 'e' } else { 'f' }
}

/// The low `k` hexadecimal digits of `x`, most significant first.
pub open spec fn spec_hex_digits(x: int, k: nat) -> Seq<char>
    decreases k,
{
    if k == 0 {
        Seq::empty()
    } else {
        spec_hex_digits(x / 16, (k - 1) as nat).push(spec_digit(x % 16))
    }
}

/// Decimal digits of `x`, most significant first, no leading zeros.
pub open spec fn spec_dec_digits(x: int) -> Seq<char>
    decreases x,
{
    if x < 10 {
        seq![spec_digit(x)]
    } else {
        spec_dec_digits(x / 10).push(spec_digit(x % 10))
    }
}

/// Append the digit character for `v` to `s`.
fn append_digit(s: &mut String, v: u64)
    requires
        v < 16,
    ensures
        final(s)@ == old(s)@.push(spec_digit(v as int)),
{
    proof {
        reveal_strlit("0");
        reveal_strlit("1");
        reveal_strlit("2");
        reveal_strlit("3");
        reveal_strlit("4");
        reveal_strlit("5");
        reveal_strlit("6");
        reveal_strlit("7");
        reveal_strlit("8");
        reveal_strlit("9");
        reveal_strlit("a");
        reveal_strlit("b");
        reveal_strlit("c");
        reveal_strlit("d");
        reveal_strlit("e");
        reveal_strlit("f");
    }
    let ghost before = s@;
    if v == 0 { s.append("0"); } else if v == 1 { s.append("1"); }
    else if v == 2 { s.append("2"); } else if v == 3 { s.append("3"); }
    else if v == 4 { s.append("4"); } else if v == 5 { s.append("5"); }
    else if v == 6 { s.append("6"); } else if v == 7 { s.append("7"); }
    else if v == 8 { s.append("8"); } else if v == 9 { s.append("9"); }
    else if v == 10 { s.append("a"); } else if v == 11 { s.append("b"); }
    else if v == 12 { s.append("c"); } else if v == 13 { s.append("d"); }
    else if v == 14 { s.append("e"); } else { s.append("f"); }
    proof {
        assert(s@ =~= before.push(spec_digit(v as int)));
    }
}

/// Append the low `k` hex digits of `x`, most significant first.
fn append_hex_digits(s: &mut String, x: u64, k: usize)
    ensures
        final(s)@ == old(s)@ + spec_hex_digits(x as int, k as nat),
    decreases k,
{
    if k == 0 {
        proof {
            assert(s@ =~= s@ + spec_hex_digits(x as int, 0));
        }
        return;
    }
    let ghost before = s@;
    append_hex_digits(s, x / 16, k - 1);
    append_digit(s, x % 16);
    proof {
        assert(s@ =~= before + spec_hex_digits(x as int, k as nat));
    }
}

/// Format `x` as 16 lowercase hex digits, zero padded.
pub fn u64_to_hex(x: u64) -> (r: String)
    ensures
        r@ == spec_hex_digits(x as int, 16),
{
    let mut s = String::new();
    append_hex_digits(&mut s, x, 16);
    proof {
        assert(s@ =~= spec_hex_digits(x as int, 16));
    }
    s
}

/// Append the decimal digits of `x`, most significant first.
fn append_dec_digits(s: &mut String, x: u64)
    ensures
        final(s)@ == old(s)@ + spec_dec_digits(x as int),
    decreases x,
{
    let ghost before = s@;
    if x < 10 {
        append_digit(s, x);
        proof {
            assert(s@ =~= before + spec_dec_digits(x as int));
        }
        return;
    }
    append_dec_digits(s, x / 10);
    append_digit(s, x % 10);
    proof {
        assert(s@ =~= before + spec_dec_digits(x as int));
    }
}

/// Format `x` in decimal.
pub fn u64_to_dec(x: u64) -> (r: String)
    ensures
        r@ == spec_dec_digits(x as int),
{
    let mut s = String::new();
    append_dec_digits(&mut s, x);
    proof {
        assert(s@ =~= spec_dec_digits(x as int));
    }
    s
}

/// Total bytes of the `Usable` regions.
pub open spec fn spec_usable_bytes(rs: Seq<MemRegion>) -> int
    decreases rs.len(),
{
    if rs.len() == 0 {
        0
    } else {
        spec_usable_bytes(rs.drop_last()) + if rs.last().kind == MemRegionKind::Usable {
            rs.last().end - rs.last().start
        } else {
            0int
        }
    }
}

/// The report line for one region: its bounds in 16-digit hex, its size
/// in whole KiB, and its kind, with `Usable` distinguished.
pub open spec fn spec_region_line(r: MemRegion) -> Seq<char> {
    "0x"@ + spec_hex_digits(r.start as int, 16) + " - 0x"@ + spec_hex_digits(r.end as int, 16)
        + " ("@ + spec_dec_digits((r.end - r.start) / 1024) + " KiB) "@ + if r.kind
        == MemRegionKind::Usable {
        "Usable"@
    } else {
        "Reserved/Other"@
    }
}

/// The closing summary line: the usable total in whole MiB.
pub open spec fn spec_summary_line(usable_bytes: int) -> Seq<char> {
    "Usable total: "@ + spec_dec_digits(usable_bytes / (1024int * 1024)) + " MiB"@
}

/// Render the memory map as report lines: a header, one line per region
/// with its bounds, size and kind, and a usable-total summary.
pub fn dump_memory_map(regions: &Vec<MemRegion>) -> (r: Vec<String>)
    requires
        regions_ok(regions@),
        spec_usable_bytes(regions@) <= u64::MAX,
    ensures
        r@.len() == regions@.len() + 2,
        r@[0]@ == "== memory map =="@,
        forall|i: int|
            0 <= i < regions@.len() ==> (#[trigger] r@[i + 1])@ == spec_region_line(regions@[i]),
        r@[regions@.len() as int + 1]@ == spec_summary_line(spec_usable_bytes(regions@)),
{
    let mut lines: Vec<String> = Vec::new();
    lines.push("== memory map ==".to_owned());
    let mut usable_bytes: u64 = 0;
    let n = regions.len();
    let mut i: usize = 0;
    while i < n
        invariant
            i <= n,
            n == regions@.len(),
            regions_ok(regions@),
            spec_usable_bytes(regions@) <= u64::MAX,
            usable_bytes == spec_usable_bytes(regions@.take(i as int)),
            usable_bytes <= u64::MAX,
            lines@.len() == i + 1,
            lines@[0]@ == "== memory map =="@,
            forall|j: int|
                0 <= j < i ==> (#[trigger] lines@[j + 1])@ == spec_region_line(regions@[j]),
        decreases n - i,
    {
        let region = regions[i];
        let size = region.end - region.start;
        proof {
            assert(regions@.take(i as int + 1).drop_last() =~= regions@.take(i as int));
            lemma_usable_bytes_bound(regions@, i as int + 1);
        }
        let mut line = String::new();
        line.append("0x");
        append_hex_digits(&mut line, region.start, 16);
        line.append(" - 0x");
        append_hex_digits(&mut line, region.end, 16);
        line.append(" (");
        append_dec_digits(&mut line, size / 1024);
        line.append(" KiB) ");
        match region.kind {
            MemRegionKind::Usable => {
                usable_bytes = usable_bytes + size;
                line.append("Usable");
            },
            _ => {
                line.append("Reserved/Other");
            },
        }
        proof {
            reveal_strlit("0x");
            reveal_strlit(" - 0x");
            reveal_strlit(" (");
            reveal_strlit(" KiB) ");
            reveal_strlit("Usable");
            reveal_strlit("Reserved/Other");
            assert(line@ =~= spec_region_line(regions@[i as int]));
        }
        lines.push(line);
        i = i + 1;
    }
    proof {
        assert(regions@.take(n as int) =~= regions@);
    }
    let mut summary = String::new();
    summary.append("Usable total: ");
    append_dec_digits(&mut summary, usable_bytes / (1024 * 1024));
    summary.append(" MiB");
    proof {
        reveal_strlit("Usable total: ");
        reveal_strlit(" MiB");
        assert(summary@ =~= spec_summary_line(spec_usable_bytes(regions@)));
    }
    lines.push(summary);
    lines
}

/// A prefix's usable-byte total never exceeds the whole list's.
proof fn lemma_usable_bytes_bound(rs: Seq<MemRegion>, k: int)
    requires
        regions_ok(rs),
        0 <= k <= rs.len(),
    ensures
        spec_usable_bytes(rs.take(k)) <= spec_usable_bytes(rs),
        spec_usable_bytes(rs.take(k)) >= 0,
    decreases rs.len() - k,
{
    lemma_usable_bytes_nonneg(rs.take(k));
    if k < rs.len() {
        assert(rs.take(k + 1).drop_last() =~= rs.take(k));
        assert(rs.take(k + 1).last() == rs[k]);
        lemma_usable_bytes_bound(rs, k + 1);
    } else {
        assert(rs.take(k) =~= rs);
    }
}

/// Usable totals of well-formed region lists are non-negative.
proof fn lemma_usable_bytes_nonneg(rs: Seq<MemRegion>)
    requires
        regions_ok(rs),
    ensures
        spec_usable_bytes(rs) >= 0,
    decreases rs.len(),
{
    if rs.len() > 0 {
        assert(regions_ok(rs.drop_last()));
        lemma_usable_bytes_nonneg(rs.drop_last());
    }
}

} // verus!
