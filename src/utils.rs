//! Utilities: timing jitter decisions, PMF sampling, power-of-two bias,
//! extension-order validation, reputation scoring and HTTP/2 encoders.
use vstd::prelude::*;
use crate::error::CustlsError;
use crate::rng::SimpleRng;
use crate::codec::put_u16;
use crate::types::ExtensionType;

verus! {

/// Optional delay at hook boundaries: with `apply_probability` (per mille),
/// a delay drawn uniformly from `[min_delay_micros, max_delay_micros]`.
#[derive(Debug, Clone, Copy, PartialEq, Eq, Structural)]
pub struct TimingJitterConfig {
    pub min_delay_micros: u64,
    pub max_delay_micros: u64,
    /// Probability in parts per thousand.
    pub apply_probability: u16,
}

impl TimingJitterConfig {
    /// Valid parameters: `min <= max` and a probability of at most 1000 per mille.
    pub open spec fn valid(&self) -> bool {
        self.min_delay_micros <= self.max_delay_micros && self.apply_probability <= 1000
    }

    /// Checks the parameters and builds the configuration.
    pub fn new(min_micros: u64, max_micros: u64, probability: u16) -> (r: Result<Self, CustlsError>)
        ensures
            min_micros > max_micros ==> r matches Err(CustlsError::ValidationError(_)),
            min_micros <= max_micros && probability > 1000 ==> r matches Err(CustlsError::ValidationError(_)),
            min_micros <= max_micros && probability <= 1000 ==> r == Ok::<Self, CustlsError>(
                TimingJitterConfig {
                    min_delay_micros: min_micros,
                    max_delay_micros: max_micros,
                    apply_probability: probability,
                },
            ),
    {
        if min_micros > max_micros {
            return Err(CustlsError::ValidationError("min_delay_micros must be <= max_delay_micros".to_string()));
        }
        if probability > 1000 {
            return Err(CustlsError::ValidationError("apply_probability must be between 0 and 1000 per mille".to_string()));
        }
        Ok(TimingJitterConfig {
            min_delay_micros: min_micros,
            max_delay_micros: max_micros,
            apply_probability: probability,
        })
    }

    /// Decides whether to wait and for how long; the caller performs the wait.
    pub fn delay(&self, rng: &mut SimpleRng) -> (r: Option<u64>)
        requires
            self.valid(),
        ensures
            r matches Some(d) ==> self.min_delay_micros <= d <= self.max_delay_micros,
            self.apply_probability == 0 ==> r is None,
            self.apply_probability >= 1000 ==> r is Some,
    {
        if !rng.chance(self.apply_probability) {
            return None;
        }
        let span = self.max_delay_micros - self.min_delay_micros;
        if span == u64::MAX {
            return Some(self.min_delay_micros + rng.next_u64());
        }
        let d = self.min_delay_micros + rng.below(span + 1);
        Some(d)
    }
}

impl Default for TimingJitterConfig {
    fn default() -> (r: Self)
        ensures
            r.min_delay_micros == 100,
            r.max_delay_micros == 5000,
            r.apply_probability == 300,
    {
        TimingJitterConfig { min_delay_micros: 100, max_delay_micros: 5000, apply_probability: 300 }
    }
}

/// The value picked from a PMF by a roll: the first entry whose running sum of
/// probabilities exceeds the roll; `None` when the roll is not below the total.
pub open spec fn pmf_pick(pmf: Seq<(u16, u16)>, roll: int) -> Option<u16>
    decreases pmf.len(),
{
    if pmf.len() == 0 {
        None
    } else if roll < pmf[0].1 {
        Some(pmf[0].0)
    } else {
        pmf_pick(pmf.drop_first(), roll - pmf[0].1)
    }
}

/// The sum of the probabilities of a PMF, summed from the front.
pub open spec fn pmf_sum(pmf: Seq<(u16, u16)>) -> int
    decreases pmf.len(),
{
    if pmf.len() == 0 {
        0
    } else {
        pmf[0].1 + pmf_sum(pmf.drop_first())
    }
}

proof fn lemma_pmf_pick_member(pmf: Seq<(u16, u16)>, roll: int)
    requires
        roll >= 0,
    ensures
        pmf_pick(pmf, roll) matches Some(v) ==> exists|i: int| 0 <= i < pmf.len() && (#[trigger] pmf[i]).0 == v && pmf[i].1 > 0,
        0 <= roll < pmf_sum(pmf) ==> pmf_pick(pmf, roll) is Some,
    decreases pmf.len(),
{
    if pmf.len() > 0 {
        if roll >= pmf[0].1 {
            lemma_pmf_pick_member(pmf.drop_first(), roll - pmf[0].1);
            if let Some(v) = pmf_pick(pmf, roll) {
                let i = choose|i: int| 0 <= i < pmf.drop_first().len() && (#[trigger] pmf.drop_first()[i]).0 == v && pmf.drop_first()[i].1 > 0;
                assert(pmf[i + 1] == pmf.drop_first()[i]);
            }
        }
    }
}

/// Picks from a PMF by a roll, by cumulative-probability inversion.
pub fn pick_from_pmf(pmf: &[(u16, u16)], roll: u128) -> (r: Option<u16>)
    ensures
        r == pmf_pick(pmf@, roll as int),
{
    let mut rest: u128 = roll;
    let mut i: usize = 0;
    assert(pmf@.subrange(0, pmf@.len() as int) =~= pmf@);
    while i < pmf.len()
        invariant
            i <= pmf@.len(),
            pmf_pick(pmf@, roll as int) == pmf_pick(pmf@.subrange(i as int, pmf@.len() as int), rest as int),
        decreases pmf@.len() - i,
    {
        let (v, p) = pmf[i];
        proof {
            assert(pmf@.subrange(i as int, pmf@.len() as int)[0] == pmf@[i as int]);
            assert(pmf@.subrange(i as int, pmf@.len() as int).drop_first() =~= pmf@.subrange(i + 1, pmf@.len() as int));
        }
        if rest < p as u128 {
            return Some(v);
        }
        rest = rest - p as u128;
        i = i + 1;
    }
    None
}

/// The sum of the probabilities of a PMF.
pub fn pmf_total_of(pmf: &[(u16, u16)]) -> (r: u128)
    ensures
        r == pmf_sum(pmf@),
{
    let mut total: u128 = 0;
    let mut i: usize = pmf.len();
    while i > 0
        invariant
            i <= pmf@.len(),
            total == pmf_sum(pmf@.subrange(i as int, pmf@.len() as int)),
            total <= (pmf@.len() - i) * 65535,
            pmf@.len() <= usize::MAX,
        decreases i,
    {
        i = i - 1;
        proof {
            assert(pmf@.subrange(i as int, pmf@.len() as int).drop_first() =~= pmf@.subrange(i + 1, pmf@.len() as int));
        }
        total = total + pmf[i].1 as u128;
    }
    assert(pmf@.subrange(0, pmf@.len() as int) =~= pmf@);
    total
}

/// Samples a value from a PMF by its weights, which need not sum to 1000; `None` when
/// the PMF is empty or all its weights are zero.
pub fn sample_from_pmf(pmf: &[(u16, u16)], rng: &mut SimpleRng) -> (r: Option<u16>)
    ensures
        r is None <==> pmf_sum(pmf@) == 0,
        r matches Some(v) ==> exists|i: int| 0 <= i < pmf@.len() && (#[trigger] pmf@[i]).0 == v && pmf@[i].1 > 0,
{
    let total = pmf_total_of(pmf);
    if total == 0 {
        return None;
    }
    let x = rng.next_u64();
    let roll: u128 = (x as u128) % total;
    proof {
        lemma_pmf_pick_member(pmf@, roll as int);
    }
    pick_from_pmf(pmf, roll)
}

/// The four big-endian bytes of a 32-bit value.
pub open spec fn be32(v: u32) -> Seq<u8> {
    seq![(v / 0x100_0000) as u8, ((v / 0x1_0000) % 256) as u8, ((v / 256) % 256) as u8, (v % 256) as u8]
}

fn put_u32(out: &mut Vec<u8>, v: u32)
    ensures
        final(out)@ == old(out)@ + be32(v),
{
    out.push((v / 0x100_0000) as u8);
    out.push(((v / 0x1_0000) % 256) as u8);
    out.push(((v / 256) % 256) as u8);
    out.push((v % 256) as u8);
    assert(out@ =~= old(out)@ + be32(v));
}

/// HTTP/2 stream priority.
#[derive(Debug, Clone, Copy, PartialEq, Eq, Structural)]
pub struct PrioritySpec {
    pub stream_dependency: u32,
    pub weight: u16,
    pub exclusive: bool,
}

/// The wire weight: `weight - 1`, kept within one byte.
pub open spec fn wire_weight(w: u16) -> u8 {
    if w == 0 { 0 } else if w - 1 > 255 { 255 } else { (w - 1) as u8 }
}

/// The dependency field: the low 31 bits, with the top bit set when exclusive.
pub open spec fn wire_dependency(p: PrioritySpec) -> u32 {
    ((p.stream_dependency % 0x8000_0000) + if p.exclusive { 0x8000_0000u32 } else { 0 }) as u32
}

impl PrioritySpec {
    /// The five bytes of a PRIORITY frame body.
    pub fn encode(&self) -> (r: Vec<u8>)
        ensures
            r@ == be32(wire_dependency(*self)) + seq![wire_weight(self.weight)],
    {
        let dep: u32 = (self.stream_dependency % 0x8000_0000) + if self.exclusive { 0x8000_0000u32 } else { 0 };
        let mut bytes: Vec<u8> = Vec::new();
        put_u32(&mut bytes, dep);
        let w: u8 = if self.weight == 0 { 0 } else if self.weight - 1 > 255 { 255 } else { (self.weight - 1) as u8 };
        bytes.push(w);
        assert(bytes@ =~= be32(wire_dependency(*self)) + seq![wire_weight(self.weight)]);
        bytes
    }
}

/// HTTP/2 SETTINGS values and header order of a browser.
#[derive(Debug, Clone, PartialEq, Eq)]
pub struct Http2Settings {
    pub header_table_size: u32,
    pub enable_push: bool,
    pub max_concurrent_streams: u32,
    pub initial_window_size: u32,
    pub max_frame_size: u32,
    pub max_header_list_size: u32,
    pub pseudo_header_order: Vec<String>,
    pub priority_spec: Option<PrioritySpec>,
}

/// One SETTINGS entry: two-byte identifier, four-byte value.
pub open spec fn setting(id: u16, v: u32) -> Seq<u8> {
    crate::codec::be16(id) + be32(v)
}

/// The SETTINGS payload: identifiers 1 to 6 in order.
pub open spec fn settings_wire(s: Http2Settings) -> Seq<u8> {
    setting(1, s.header_table_size) + setting(2, if s.enable_push { 1 } else { 0 })
        + setting(3, s.max_concurrent_streams) + setting(4, s.initial_window_size)
        + setting(5, s.max_frame_size) + setting(6, s.max_header_list_size)
}

/// The text of each header name.
pub open spec fn header_texts(h: Seq<String>) -> Seq<Seq<char>> {
    h.map_values(|s: String| s@)
}

fn header_order(names: [&str; 4]) -> (r: Vec<String>)
    ensures
        r@.len() == 4,
        forall|i: int| 0 <= i < 4 ==> (#[trigger] r@[i])@ == names@[i]@,
        header_texts(r@) == seq![names@[0]@, names@[1]@, names@[2]@, names@[3]@],
{
    let mut r: Vec<String> = Vec::new();
    let mut i: usize = 0;
    while i < 4
        invariant
            i <= 4,
            r@.len() == i,
            forall|j: int| 0 <= j < i ==> (#[trigger] r@[j])@ == names@[j]@,
        decreases 4 - i,
    {
        r.push(names[i].to_string());
        i = i + 1;
    }
    assert(header_texts(r@) =~= seq![names@[0]@, names@[1]@, names@[2]@, names@[3]@]);
    r
}

impl Http2Settings {
    /// The SETTINGS payload.
    pub fn encode(&self) -> (r: Vec<u8>)
        ensures
            r@ == settings_wire(*self),
    {
        let mut p: Vec<u8> = Vec::new();
        put_u16(&mut p, 1);
        put_u32(&mut p, self.header_table_size);
        put_u16(&mut p, 2);
        put_u32(&mut p, if self.enable_push { 1 } else { 0 });
        put_u16(&mut p, 3);
        put_u32(&mut p, self.max_concurrent_streams);
        put_u16(&mut p, 4);
        put_u32(&mut p, self.initial_window_size);
        put_u16(&mut p, 5);
        put_u32(&mut p, self.max_frame_size);
        put_u16(&mut p, 6);
        put_u32(&mut p, self.max_header_list_size);
        assert(p@ =~= settings_wire(*self));
        p
    }

    /// Chrome's settings: no push, a 6 MiB window and an exclusive priority.
    pub fn chrome_default() -> (r: Self)
        ensures
            r.header_table_size == 65536,
            !r.enable_push,
            r.max_concurrent_streams == 1000,
            r.initial_window_size == 6291456,
            r.max_frame_size == 16384,
            r.max_header_list_size == 262144,
            r.priority_spec == Some(PrioritySpec { stream_dependency: 0, weight: 256, exclusive: true }),
            header_texts(r.pseudo_header_order@) == seq![":method"@, ":authority"@, ":scheme"@, ":path"@],
    {
        Http2Settings {
            header_table_size: 65536,
            enable_push: false,
            max_concurrent_streams: 1000,
            initial_window_size: 6291456,
            max_frame_size: 16384,
            max_header_list_size: 262144,
            pseudo_header_order: header_order([":method", ":authority", ":scheme", ":path"]),
            priority_spec: Some(PrioritySpec { stream_dependency: 0, weight: 256, exclusive: true }),
        }
    }

    /// Firefox's settings: push enabled, a 128 KiB window, path before authority.
    pub fn firefox_default() -> (r: Self)
        ensures
            r.header_table_size == 65536,
            r.enable_push,
            r.max_concurrent_streams == 1000,
            r.initial_window_size == 131072,
            r.max_frame_size == 16384,
            r.max_header_list_size == 262144,
            r.priority_spec is None,
            header_texts(r.pseudo_header_order@) == seq![":method"@, ":path"@, ":authority"@, ":scheme"@],
    {
        Http2Settings {
            header_table_size: 65536,
            enable_push: true,
            max_concurrent_streams: 1000,
            initial_window_size: 131072,
            max_frame_size: 16384,
            max_header_list_size: 262144,
            pseudo_header_order: header_order([":method", ":path", ":authority", ":scheme"]),
            priority_spec: None,
        }
    }
}

impl Default for Http2Settings {
    fn default() -> (r: Self)
        ensures
            r.header_table_size == 65536,
            r.enable_push,
            r.max_concurrent_streams == 1000,
            r.initial_window_size == 6291456,
            r.max_frame_size == 16384,
            r.max_header_list_size == 262144,
            r.priority_spec is None,
            header_texts(r.pseudo_header_order@) == seq![":method"@, ":authority"@, ":scheme"@, ":path"@],
    {
        Http2Settings {
            header_table_size: 65536,
            enable_push: true,
            max_concurrent_streams: 1000,
            initial_window_size: 6291456,
            max_frame_size: 16384,
            max_header_list_size: 262144,
            pseudo_header_order: header_order([":method", ":authority", ":scheme", ":path"]),
            priority_spec: None,
        }
    }
}

/// A length drawn in `[min, max]`: with `power_of_2_bias` per mille, one of the powers
/// of two in range chosen uniformly, else a uniform length; `min` when `min >= max`.
pub fn sample_with_power_of_2_bias(min: u16, max: u16, power_of_2_bias: u16, rng: &mut SimpleRng) -> (r: u16)
    ensures
        min <= max ==> min <= r <= max,
        min >= max ==> r == min,
        min < max && power_of_2_bias >= 1000 && (exists|j: int| 0 <= j < 16 && min <= #[trigger] pow2s()[j] <= max)
            ==> pow2s().contains(r),
{
    if min >= max {
        return min;
    }
    if rng.chance(power_of_2_bias) {
        let all: [u16; 16] = POWERS_OF_TWO;
        assert(all@ =~= pow2s());
        let mut powers: Vec<u16> = Vec::new();
        let mut i: usize = 0;
        while i < 16
            invariant
                i <= 16,
                all@ == pow2s(),
                forall|k: int| 0 <= k < powers@.len() ==> min <= #[trigger] powers@[k] <= max && pow2s().contains(powers@[k]),
                forall|j: int| 0 <= j < i && min <= #[trigger] pow2s()[j] <= max ==> powers@.contains(pow2s()[j]),
            decreases 16 - i,
        {
            let p = all[i];
            let ghost before = powers@;
            if min <= p && p <= max {
                powers.push(p);
                proof {
                    assert(powers@[powers@.len() - 1] == p);
                    assert(pow2s()[i as int] == p);
                }
            }
            proof {
                assert forall|k: int| 0 <= k < powers@.len() implies min <= #[trigger] powers@[k] <= max && pow2s().contains(powers@[k]) by {
                    if k < before.len() {
                        assert(powers@[k] == before[k]);
                    } else {
                        assert(pow2s()[i as int] == powers@[k]);
                    }
                }
                assert forall|j: int| 0 <= j < i + 1 && min <= #[trigger] pow2s()[j] <= max implies powers@.contains(pow2s()[j]) by {
                    if j < i {
                        let w = choose|w: int| 0 <= w < before.len() && before[w] == pow2s()[j];
                        assert(powers@[w] == before[w]);
                    } else {
                        assert(powers@[powers@.len() - 1] == p);
                    }
                }
            }
            i = i + 1;
        }
        if powers.len() > 0 {
            let k = rng.index(powers.len());
            return powers[k];
        }
    }
    rng.gen_range(min, max)
}

/// The powers of two that fit in 16 bits, from 1 up.
pub const POWERS_OF_TWO: [u16; 16] = [1, 2, 4, 8, 16, 32, 64, 128, 256, 512, 1024, 2048, 4096, 8192, 16384, 32768];

/// The powers of two that fit in 16 bits, from 1 up.
pub open spec fn pow2s() -> Seq<u16> {
    seq![1u16, 2, 4, 8, 16, 32, 64, 128, 256, 512, 1024, 2048, 4096, 8192, 16384, 32768]
}

/// The PSK rule and uniqueness: a pre-shared key, when present, is last, and no type repeats.
pub open spec fn order_valid(exts: Seq<ExtensionType>) -> bool {
    &&& (exts.contains(ExtensionType::PreSharedKey) ==> exts.last() == ExtensionType::PreSharedKey)
    &&& forall|i: int, j: int| 0 <= i < j < exts.len() ==> exts[i] != exts[j]
}

/// Checks that a pre-shared key extension, if any, is last and that no type repeats.
pub fn validate_extension_order(extensions: &[ExtensionType]) -> (r: Result<(), CustlsError>)
    ensures
        r is Ok <==> order_valid(extensions@),
        r matches Err(e) ==> e matches CustlsError::ValidationError(_),
{
    let n = extensions.len();
    if n == 0 {
        return Ok(());
    }
    let mut has_psk = false;
    let mut i: usize = 0;
    while i < n
        invariant
            n == extensions@.len(),
            i <= n,
            has_psk == exists|j: int| 0 <= j < i && extensions@[j] == ExtensionType::PreSharedKey,
        decreases n - i,
    {
        if extensions[i] == ExtensionType::PreSharedKey {
            has_psk = true;
        }
        i = i + 1;
    }
    if has_psk && extensions[n - 1] != ExtensionType::PreSharedKey {
        return Err(CustlsError::ValidationError("pre_shared_key extension must be last".to_string()));
    }
    let mut i: usize = 0;
    while i < n
        invariant
            n == extensions@.len(),
            i <= n,
            forall|a: int, b: int| 0 <= a < i && a < b < n ==> extensions@[a] != extensions@[b],
        decreases n - i,
    {
        let mut j: usize = i + 1;
        while j < n
            invariant
                n == extensions@.len(),
                i < n,
                i + 1 <= j <= n,
                forall|a: int, b: int| 0 <= a < i && a < b < n ==> extensions@[a] != extensions@[b],
                forall|b: int| i < b < j ==> extensions@[i as int] != extensions@[b],
            decreases n - j,
        {
            if extensions[i] == extensions[j] {
                return Err(CustlsError::ValidationError("duplicate extension".to_string()));
            }
            j = j + 1;
        }
        i = i + 1;
    }
    Ok(())
}

/// The confidence-weighted reputation `(successes + 5) / (total + 10)` in parts per million:
/// a blend of the success rate with one half, weighted by `total / (total + 10)`.
pub open spec fn weighted_reputation_ppm(s: u32, f: u32) -> int {
    (s as int + 5) * 1_000_000 / (s as int + f as int + 10)
}

/// The confidence-weighted reputation score, in parts per million.
pub fn calculate_reputation_score(success_count: u32, failure_count: u32) -> (r: u32)
    ensures
        r == weighted_reputation_ppm(success_count, failure_count),
        r <= 1_000_000,
{
    let num: u64 = (success_count as u64 + 5) * 1_000_000;
    let den: u64 = success_count as u64 + failure_count as u64 + 10;
    let v = num / den;
    proof {
        let a: int = success_count as int + 5;
        let d: int = den as int;
        assert(a <= d);
        assert(a * 1_000_000 <= d * 1_000_000) by (nonlinear_arith)
            requires a <= d;
        assert((a * 1_000_000) / d <= 1_000_000) by (nonlinear_arith)
            requires a * 1_000_000 <= d * 1_000_000, d > 0;
    }
    v as u32
}

} // verus!
