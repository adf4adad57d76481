//! Per-target fingerprint cache with reputation-weighted eviction and
//! anti-repetition history.
use vstd::prelude::*;
use crate::assoc::{
    lemma_to_map_dom, lemma_to_map_index, lemma_to_map_len, lemma_to_map_push, lemma_to_map_remove,
    lemma_to_map_update, lemma_unique_push, to_map, unique_keys,
};
use crate::config::{BrowserTemplate, same_template};
use crate::types::{CipherSuite, ExtensionType, NamedGroup, SignatureScheme};

verus! {

/// A peer: host name and port.
#[derive(Debug, Clone, PartialEq, Eq, Hash, PartialOrd, Ord)]
pub struct TargetKey {
    pub host: String,
    pub port: u16,
}

impl View for TargetKey {
    type V = (Seq<char>, u16);

    open spec fn view(&self) -> (Seq<char>, u16) {
        (self.host@, self.port)
    }
}

impl TargetKey {
    pub fn new(host: String, port: u16) -> (r: Self)
        ensures
            r.host == host,
            r.port == port,
    {
        TargetKey { host, port }
    }

    /// Whether both name the same peer.
    pub fn same(&self, o: &TargetKey) -> (r: bool)
        ensures
            r == (self@ == o@),
    {
        self.port == o.port && self.host == o.host
    }

    pub fn duplicate(&self) -> (r: Self)
        ensures
            r@ == self@,
    {
        TargetKey { host: self.host.clone(), port: self.port }
    }
}

/// A copy of a vector of plain values.
pub fn copy_vec<T: Copy>(v: &Vec<T>) -> (r: Vec<T>)
    ensures
        r@ == v@,
{
    let mut r: Vec<T> = Vec::new();
    let mut i: usize = 0;
    while i < v.len()
        invariant
            i <= v@.len(),
            r@ == v@.subrange(0, i as int),
        decreases v@.len() - i,
    {
        r.push(v[i]);
        i = i + 1;
        assert(r@ =~= v@.subrange(0, i as int));
    }
    assert(v@.subrange(0, i as int) =~= v@);
    r
}

/// The contents of per-extension encoded bytes.
pub open spec fn data_view(d: Seq<(ExtensionType, Vec<u8>)>) -> Seq<(ExtensionType, Seq<u8>)> {
    d.map_values(|p: (ExtensionType, Vec<u8>)| (p.0, p.1@))
}

fn copy_data(v: &Vec<(ExtensionType, Vec<u8>)>) -> (r: Vec<(ExtensionType, Vec<u8>)>)
    ensures
        data_view(r@) == data_view(v@),
{
    let mut r: Vec<(ExtensionType, Vec<u8>)> = Vec::new();
    let mut i: usize = 0;
    while i < v.len()
        invariant
            i <= v@.len(),
            r@.len() == i,
            forall|j: int| 0 <= j < i ==> (#[trigger] r@[j]).0 == v@[j].0 && r@[j].1@ == v@[j].1@,
        decreases v@.len() - i,
    {
        let t = v[i].0;
        let b = copy_vec(&v[i].1);
        r.push((t, b));
        i = i + 1;
    }
    assert(data_view(r@) =~= data_view(v@));
    r
}

/// A snapshot of what a ClientHello carried.
#[derive(Debug, Clone)]
pub struct ClientHelloConfig {
    pub template: BrowserTemplate,
    pub cipher_suites: Vec<CipherSuite>,
    pub extension_order: Vec<ExtensionType>,
    /// Encoded bytes of each extension, by type.
    pub extension_data: Vec<(ExtensionType, Vec<u8>)>,
    pub grease_cipher_positions: Vec<usize>,
    pub grease_extension_positions: Vec<usize>,
    pub padding_length: u16,
    pub random_seed: u64,
    pub supported_groups: Vec<NamedGroup>,
    pub signature_algorithms: Vec<SignatureScheme>,
}

/// Two snapshots hold the same values.
pub open spec fn same_config(a: ClientHelloConfig, b: ClientHelloConfig) -> bool {
    &&& same_template(a.template, b.template)
    &&& a.cipher_suites@ == b.cipher_suites@
    &&& a.extension_order@ == b.extension_order@
    &&& data_view(a.extension_data@) == data_view(b.extension_data@)
    &&& a.grease_cipher_positions@ == b.grease_cipher_positions@
    &&& a.grease_extension_positions@ == b.grease_extension_positions@
    &&& a.padding_length == b.padding_length
    &&& a.random_seed == b.random_seed
    &&& a.supported_groups@ == b.supported_groups@
    &&& a.signature_algorithms@ == b.signature_algorithms@
}

impl ClientHelloConfig {
    /// An independent copy holding the same values.
    pub fn duplicate(&self) -> (r: Self)
        ensures
            same_config(r, *self),
    {
        ClientHelloConfig {
            template: self.template.duplicate(),
            cipher_suites: copy_vec(&self.cipher_suites),
            extension_order: copy_vec(&self.extension_order),
            extension_data: copy_data(&self.extension_data),
            grease_cipher_positions: copy_vec(&self.grease_cipher_positions),
            grease_extension_positions: copy_vec(&self.grease_extension_positions),
            padding_length: self.padding_length,
            random_seed: self.random_seed,
            supported_groups: copy_vec(&self.supported_groups),
            signature_algorithms: copy_vec(&self.signature_algorithms),
        }
    }
}

/// How many recent values each anti-repetition queue keeps.
pub const HISTORY_LEN: usize = 10;

/// `v` pushed onto `s`, dropping the oldest value when more than `HISTORY_LEN` would be kept.
pub open spec fn push_bounded(s: Seq<u16>, v: u16) -> Seq<u16> {
    if s.len() + 1 > HISTORY_LEN {
        s.push(v).drop_first()
    } else {
        s.push(v)
    }
}

/// `vals` pushed one after another with `push_bounded`.
pub open spec fn push_all(s: Seq<u16>, vals: Seq<u16>) -> Seq<u16>
    decreases vals.len(),
{
    if vals.len() == 0 {
        s
    } else {
        push_bounded(push_all(s, vals.drop_last()), vals.last())
    }
}

fn push_bounded_exec(q: &mut Vec<u16>, v: u16)
    ensures
        final(q)@ == push_bounded(old(q)@, v),
{
    q.push(v);
    if q.len() > HISTORY_LEN {
        q.remove(0);
        assert(q@ =~= push_bounded(old(q)@, v));
    }
}

fn contains_u16(s: &Vec<u16>, v: u16) -> (r: bool)
    ensures
        r == s@.contains(v),
{
    let mut i: usize = 0;
    while i < s.len()
        invariant
            i <= s@.len(),
            forall|j: int| 0 <= j < i ==> s@[j] != v,
        decreases s@.len() - i,
    {
        if s[i] == v {
            return true;
        }
        i = i + 1;
    }
    false
}

/// Numerator of the reputation `successes / (successes + failures)`, which is 1/2 with no data.
pub open spec fn rep_num(s: u32, f: u32) -> int {
    if s as int + f as int == 0 { 1 } else { s as int }
}

/// Denominator of the reputation.
pub open spec fn rep_den(s: u32, f: u32) -> int {
    if s as int + f as int == 0 { 2 } else { s as int + f as int }
}

/// The reputation in parts per million, rounded down.
pub open spec fn reputation_ppm_of(s: u32, f: u32) -> int {
    rep_num(s, f) * 1_000_000 / rep_den(s, f)
}

fn reputation_ppm_exec(s: u32, f: u32) -> (r: u32)
    ensures
        r == reputation_ppm_of(s, f),
        r <= 1_000_000,
{
    let total: u64 = s as u64 + f as u64;
    if total == 0 {
        500_000
    } else {
        let v: u64 = s as u64 * 1_000_000 / total;
        proof {
            let a: int = s as int;
            let t: int = total as int;
            assert(a * 1_000_000 <= t * 1_000_000) by (nonlinear_arith)
                requires a <= t;
            assert((a * 1_000_000) / t <= 1_000_000) by (nonlinear_arith)
                requires a * 1_000_000 <= t * 1_000_000, t > 0;
        }
        v as u32
    }
}

/// A cached fingerprint for one peer, with its record and recent values.
#[derive(Debug, Clone)]
pub struct FingerprintEntry {
    pub config: ClientHelloConfig,
    pub success_count: u32,
    pub failure_count: u32,
    /// Logical time of the last use; a larger value is more recent.
    pub last_used: u64,
    pub previous_grease_values: Vec<u16>,
    pub previous_padding_lengths: Vec<u16>,
}

/// `a` has strictly lower reputation than `b`.
pub open spec fn rep_lt(a: FingerprintEntry, b: FingerprintEntry) -> bool {
    rep_num(a.success_count, a.failure_count) * rep_den(b.success_count, b.failure_count)
        < rep_num(b.success_count, b.failure_count) * rep_den(a.success_count, a.failure_count)
}

/// `a` goes before `b` in eviction order: lower reputation, or equal and older.
pub open spec fn evicts_before(a: FingerprintEntry, b: FingerprintEntry) -> bool {
    rep_lt(a, b) || (!rep_lt(b, a) && a.last_used <= b.last_used)
}

impl FingerprintEntry {
    /// A fresh entry: no successes, no failures, no history.
    pub fn new(config: ClientHelloConfig, now: u64) -> (r: Self)
        ensures
            r.config == config,
            r.success_count == 0,
            r.failure_count == 0,
            r.last_used == now,
            r.previous_grease_values@.len() == 0,
            r.previous_padding_lengths@.len() == 0,
    {
        FingerprintEntry {
            config,
            success_count: 0,
            failure_count: 0,
            last_used: now,
            previous_grease_values: Vec::new(),
            previous_padding_lengths: Vec::new(),
        }
    }

    /// The reputation in parts per million: successes over all results, or one half with none.
    pub fn reputation_ppm(&self) -> (r: u32)
        ensures
            r == reputation_ppm_of(self.success_count, self.failure_count),
            r <= 1_000_000,
    {
        reputation_ppm_exec(self.success_count, self.failure_count)
    }

    /// Marks the entry as used at `now`.
    pub fn touch(&mut self, now: u64)
        ensures
            *final(self) == (FingerprintEntry { last_used: now, ..*old(self) }),
    {
        self.last_used = now;
    }

    pub fn track_grease_value(&mut self, grease_value: u16)
        ensures
            final(self).previous_grease_values@ == push_bounded(old(self).previous_grease_values@, grease_value),
            final(self).config == old(self).config,
            final(self).success_count == old(self).success_count,
            final(self).failure_count == old(self).failure_count,
            final(self).last_used == old(self).last_used,
            final(self).previous_padding_lengths == old(self).previous_padding_lengths,
    {
        push_bounded_exec(&mut self.previous_grease_values, grease_value);
    }

    pub fn was_grease_used(&self, grease_value: u16) -> (r: bool)
        ensures
            r == self.previous_grease_values@.contains(grease_value),
    {
        contains_u16(&self.previous_grease_values, grease_value)
    }

    pub fn get_previous_grease_values(&self) -> (r: &Vec<u16>)
        ensures
            r@ == self.previous_grease_values@,
    {
        &self.previous_grease_values
    }

    pub fn track_padding_length(&mut self, padding_length: u16)
        ensures
            final(self).previous_padding_lengths@ == push_bounded(old(self).previous_padding_lengths@, padding_length),
            final(self).config == old(self).config,
            final(self).success_count == old(self).success_count,
            final(self).failure_count == old(self).failure_count,
            final(self).last_used == old(self).last_used,
            final(self).previous_grease_values == old(self).previous_grease_values,
    {
        push_bounded_exec(&mut self.previous_padding_lengths, padding_length);
    }

    pub fn was_padding_used(&self, padding_length: u16) -> (r: bool)
        ensures
            r == self.previous_padding_lengths@.contains(padding_length),
    {
        contains_u16(&self.previous_padding_lengths, padding_length)
    }

    pub fn get_previous_padding_lengths(&self) -> (r: &Vec<u16>)
        ensures
            r@ == self.previous_padding_lengths@,
    {
        &self.previous_padding_lengths
    }
}

/// `x` plus one, staying at the maximum.
pub open spec fn sat_inc(x: u32) -> u32 {
    if x < u32::MAX { (x + 1) as u32 } else { x }
}

pub proof fn lemma_evicts_before_total(a: FingerprintEntry, b: FingerprintEntry)
    ensures
        evicts_before(a, b) || evicts_before(b, a),
{
}

pub proof fn lemma_evicts_before_transitive(a: FingerprintEntry, b: FingerprintEntry, c: FingerprintEntry)
    requires
        evicts_before(a, b),
        evicts_before(b, c),
    ensures
        evicts_before(a, c),
{
    let an = rep_num(a.success_count, a.failure_count);
    let ad = rep_den(a.success_count, a.failure_count);
    let bn = rep_num(b.success_count, b.failure_count);
    let bd = rep_den(b.success_count, b.failure_count);
    let cn = rep_num(c.success_count, c.failure_count);
    let cd = rep_den(c.success_count, c.failure_count);
    assert(ad > 0 && bd > 0 && cd > 0);
    assert(an >= 0 && bn >= 0 && cn >= 0);
    // a <= b and b <= c in reputation, with strictness carried through.
    assert(an * bd <= bn * ad ==> bn * cd <= cn * bd ==> an * cd <= cn * ad) by (nonlinear_arith)
        requires ad > 0, bd > 0, cd > 0, an >= 0, bn >= 0, cn >= 0;
    assert(an * bd < bn * ad ==> bn * cd <= cn * bd ==> an * cd < cn * ad) by (nonlinear_arith)
        requires ad > 0, bd > 0, cd > 0, an >= 0, bn >= 0, cn >= 0;
    assert(an * bd <= bn * ad ==> bn * cd < cn * bd ==> an * cd < cn * ad) by (nonlinear_arith)
        requires ad > 0, bd > 0, cd > 0, an >= 0, bn >= 0, cn >= 0;
}

fn rep_lt_exec(a: &FingerprintEntry, b: &FingerprintEntry) -> (r: bool)
    ensures
        r == rep_lt(*a, *b),
{
    let (an, ad): (u128, u128) = if a.success_count as u64 + a.failure_count as u64 == 0 {
        (1, 2)
    } else {
        (a.success_count as u128, a.success_count as u128 + a.failure_count as u128)
    };
    let (bn, bd): (u128, u128) = if b.success_count as u64 + b.failure_count as u64 == 0 {
        (1, 2)
    } else {
        (b.success_count as u128, b.success_count as u128 + b.failure_count as u128)
    };
    assert(an * bd <= 0x1_0000_0000u128 * 0x2_0000_0000u128) by (nonlinear_arith)
        requires an <= 0x1_0000_0000u128, bd <= 0x2_0000_0000u128;
    assert(bn * ad <= 0x1_0000_0000u128 * 0x2_0000_0000u128) by (nonlinear_arith)
        requires bn <= 0x1_0000_0000u128, ad <= 0x2_0000_0000u128;
    an * bd < bn * ad
}

/// The key/entry pairs of a cache as plain values.
pub open spec fn kv(s: Seq<(TargetKey, FingerprintEntry)>) -> Seq<((Seq<char>, u16), FingerprintEntry)> {
    s.map_values(|p: (TargetKey, FingerprintEntry)| (p.0@, p.1))
}

/// Per-target cache of working fingerprints, bounded by `max_size`.
pub struct FingerprintManager {
    entries: Vec<(TargetKey, FingerprintEntry)>,
    max_size: usize,
    clock: u64,
}

impl FingerprintManager {
    /// The cached entries by peer.
    pub closed spec fn view(&self) -> Map<(Seq<char>, u16), FingerprintEntry> {
        to_map(kv(self.entries@))
    }

    /// The bound on the number of entries.
    pub closed spec fn spec_max_size(&self) -> nat {
        self.max_size as nat
    }

    /// The logical time of the last use.
    pub closed spec fn spec_clock(&self) -> u64 {
        self.clock
    }

    pub closed spec fn wf(&self) -> bool {
        &&& unique_keys(kv(self.entries@))
        &&& self.entries@.len() <= self.max_size
    }

    proof fn lemma_size(&self)
        requires
            self.wf(),
        ensures
            self.view().dom().finite(),
            self.view().dom().len() == self.entries@.len(),
            self.view().dom().len() <= self.spec_max_size(),
    {
        lemma_to_map_len(kv(self.entries@));
    }

    /// An empty cache holding at most `max_size` entries.
    pub fn new(max_size: usize) -> (r: Self)
        ensures
            r.wf(),
            r.view() == Map::<(Seq<char>, u16), FingerprintEntry>::empty(),
            r.spec_max_size() == max_size,
    {
        FingerprintManager { entries: Vec::new(), max_size, clock: 0 }
    }

    /// The number of cached peers.
    pub fn size(&self) -> (r: usize)
        requires
            self.wf(),
        ensures
            self.view().dom().finite(),
            r == self.view().dom().len(),
            r <= self.spec_max_size(),
    {
        proof { self.lemma_size(); }
        self.entries.len()
    }

    pub fn is_empty(&self) -> (r: bool)
        requires
            self.wf(),
        ensures
            r == (self.view().dom().len() == 0),
    {
        proof { self.lemma_size(); }
        self.entries.len() == 0
    }

    pub fn max_size(&self) -> (r: usize)
        ensures
            r == self.spec_max_size(),
    {
        self.max_size
    }

    /// Drops every entry.
    pub fn clear_cache(&mut self)
        ensures
            final(self).wf(),
            final(self).view() == Map::<(Seq<char>, u16), FingerprintEntry>::empty(),
            final(self).spec_max_size() == old(self).spec_max_size(),
            final(self).spec_clock() == old(self).spec_clock(),
    {
        self.entries.clear();
        assert(kv(self.entries@) =~= seq![]);
    }

    fn find(&self, target: &TargetKey) -> (r: Option<usize>)
        requires
            self.wf(),
        ensures
            match r {
                Some(i) => i < self.entries@.len() && self.entries@[i as int].0@ == target@
                    && self.view().contains_key(target@)
                    && self.view()[target@] == self.entries@[i as int].1,
                None => !self.view().contains_key(target@),
            },
    {
        let mut i: usize = 0;
        while i < self.entries.len()
            invariant
                self.wf(),
                i <= self.entries@.len(),
                forall|j: int| 0 <= j < i ==> self.entries@[j].0@ != target@,
            decreases self.entries@.len() - i,
        {
            if self.entries[i].0.same(target) {
                proof {
                    assert(kv(self.entries@)[i as int] == (self.entries@[i as int].0@, self.entries@[i as int].1));
                    lemma_to_map_index(kv(self.entries@), i as int);
                }
                return Some(i);
            }
            i = i + 1;
        }
        proof {
            lemma_to_map_dom(kv(self.entries@), target@);
            if self.view().contains_key(target@) {
                let j = choose|j: int| 0 <= j < kv(self.entries@).len() && kv(self.entries@)[j].0 == target@;
                assert(self.entries@[j].0@ == target@);
            }
        }
        None
    }

    /// Removes the entry of `target`; says whether there was one.
    pub fn invalidate_target(&mut self, target: &TargetKey) -> (r: bool)
        requires
            old(self).wf(),
        ensures
            final(self).wf(),
            r == old(self).view().contains_key(target@),
            final(self).view() == old(self).view().remove(target@),
            final(self).spec_max_size() == old(self).spec_max_size(),
            final(self).spec_clock() == old(self).spec_clock(),
    {
        match self.find(target) {
            Some(i) => {
                proof { self.remove_at_lemma(i as int); }
                self.entries.remove(i);
                true
            },
            None => {
                assert(old(self).view().remove(target@) =~= old(self).view());
                false
            },
        }
    }

    proof fn remove_at_lemma(&self, i: int)
        requires
            self.wf(),
            0 <= i < self.entries@.len(),
        ensures
            to_map(kv(self.entries@.remove(i))) == self.view().remove(self.entries@[i].0@),
            unique_keys(kv(self.entries@.remove(i))),
    {
        assert(kv(self.entries@.remove(i)) =~= kv(self.entries@).remove(i));
        lemma_to_map_remove(kv(self.entries@), i);
    }

    fn tick(&mut self) -> (r: u64)
        ensures
            r == final(self).clock,
            final(self).clock == if old(self).clock < u64::MAX { (old(self).clock + 1) as u64 } else { old(self).clock },
            final(self).entries == old(self).entries,
            final(self).max_size == old(self).max_size,
    {
        if self.clock < u64::MAX {
            self.clock = self.clock + 1;
        }
        self.clock
    }

    /// Removes the entry that goes first in eviction order: lowest reputation, then oldest.
    fn evict_lowest_reputation(&mut self) -> (victim: Ghost<(Seq<char>, u16)>)
        requires
            old(self).wf(),
            old(self).entries@.len() > 0,
        ensures
            final(self).wf(),
            old(self).view().contains_key(victim@),
            final(self).view() == old(self).view().remove(victim@),
            forall|k| #[trigger] old(self).view().contains_key(k) ==> evicts_before(old(self).view()[victim@], old(self).view()[k]),
            final(self).entries@.len() == old(self).entries@.len() - 1,
            final(self).max_size == old(self).max_size,
            final(self).clock == old(self).clock,
    {
        let mut best: usize = 0;
        let mut i: usize = 1;
        while i < self.entries.len()
            invariant
                1 <= i <= self.entries@.len(),
                best < i,
                forall|j: int| 0 <= j < i ==> evicts_before(self.entries@[best as int].1, #[trigger] self.entries@[j].1),
            decreases self.entries@.len() - i,
        {
            let a = &self.entries[i].1;
            let b = &self.entries[best].1;
            let strictly = rep_lt_exec(a, b) || (!rep_lt_exec(b, a) && a.last_used < b.last_used);
            if strictly {
                proof {
                    assert forall|j: int| 0 <= j < i + 1 implies evicts_before(self.entries@[i as int].1, #[trigger] self.entries@[j].1) by {
                        if j < i {
                            lemma_evicts_before_transitive(self.entries@[i as int].1, self.entries@[best as int].1, self.entries@[j].1);
                        }
                    }
                }
                best = i;
            } else {
                proof {
                    lemma_evicts_before_total(self.entries@[i as int].1, self.entries@[best as int].1);
                }
            }
            i = i + 1;
        }
        let ghost victim = self.entries@[best as int].0@;
        proof {
            let s = kv(self.entries@);
            lemma_to_map_index(s, best as int);
            assert forall|k| #[trigger] old(self).view().contains_key(k) implies evicts_before(old(self).view()[victim], old(self).view()[k]) by {
                lemma_to_map_dom(s, k);
                let j = choose|j: int| 0 <= j < s.len() && s[j].0 == k;
                lemma_to_map_index(s, j);
                assert(s[j].1 == self.entries@[j].1);
            }
            self.remove_at_lemma(best as int);
        }
        self.entries.remove(best);
        Ghost(victim)
    }

    /// Records the outcome of a handshake with `target` using `config`.
    ///
    /// A new peer in a full cache first evicts the entry that goes first in eviction
    /// order. The peer's counts, reputation, time of use and stored config are updated.
    /// A cache of size zero stores nothing.
    pub fn record_result(&mut self, target: &TargetKey, config: ClientHelloConfig, success: bool)
        requires
            old(self).wf(),
        ensures
            final(self).wf(),
            final(self).spec_max_size() == old(self).spec_max_size(),
            old(self).spec_max_size() == 0 ==> final(self).view() == old(self).view(),
            old(self).spec_max_size() > 0 ==> {
                let k = target@;
                let had = old(self).view().contains_key(k);
                let e = final(self).view()[k];
                &&& final(self).view().contains_key(k)
                &&& e.config == config
                &&& e.success_count == if success {
                    sat_inc(if had { old(self).view()[k].success_count } else { 0 })
                } else {
                    if had { old(self).view()[k].success_count } else { 0 }
                }
                &&& e.failure_count == if !success {
                    sat_inc(if had { old(self).view()[k].failure_count } else { 0 })
                } else {
                    if had { old(self).view()[k].failure_count } else { 0 }
                }
                &&& e.last_used == final(self).spec_clock()
                &&& had ==> e.previous_grease_values == old(self).view()[k].previous_grease_values
                &&& had ==> e.previous_padding_lengths == old(self).view()[k].previous_padding_lengths
                &&& !had ==> e.previous_grease_values@.len() == 0 && e.previous_padding_lengths@.len() == 0
            },
            forall|k| k != target@ && #[trigger] final(self).view().contains_key(k) ==> old(self).view().contains_key(k)
                && final(self).view()[k] == old(self).view()[k],
            forall|k| k != target@ && #[trigger] old(self).view().contains_key(k) && !final(self).view().contains_key(k)
                ==> !old(self).view().contains_key(target@)
                && old(self).view().dom().len() >= old(self).spec_max_size()
                && (forall|k3| #[trigger] old(self).view().contains_key(k3) ==> evicts_before(old(self).view()[k], old(self).view()[k3])),
            old(self).spec_max_size() > 0 && !old(self).view().contains_key(target@)
                && old(self).view().dom().len() >= old(self).spec_max_size() ==> exists|v: (Seq<char>, u16)|
                old(self).view().contains_key(v) && final(self).view().dom() == old(self).view().dom().remove(v).insert(target@),
            old(self).spec_max_size() > 0 && (old(self).view().contains_key(target@)
                || old(self).view().dom().len() < old(self).spec_max_size())
                ==> final(self).view().dom() == old(self).view().dom().insert(target@),
    {
        if self.max_size == 0 {
            return;
        }
        let now = self.tick();
        let ghost mid = self.view();
        match self.find(target) {
            Some(i) => {
                let (key, mut e) = self.entries.remove(i);
                if success {
                    if e.success_count < u32::MAX {
                        e.success_count = e.success_count + 1;
                    }
                } else {
                    if e.failure_count < u32::MAX {
                        e.failure_count = e.failure_count + 1;
                    }
                }
                e.last_used = now;
                e.config = config;
                let ghost ev = e;
                let ghost s0 = kv(old(self).entries@);
                self.entries.insert(i, (key, e));
                proof {
                    assert(self.entries@ =~= old(self).entries@.update(i as int, (key, ev)));
                    assert(kv(self.entries@) =~= s0.update(i as int, (s0[i as int].0, ev)));
                    lemma_to_map_update(s0, i as int, ev);
                }
            },
            None => {
                let ghost victim: Option<(Seq<char>, u16)> = None;
                if self.entries.len() >= self.max_size {
                    let v = self.evict_lowest_reputation();
                    proof { victim = Some(v@); }
                }
                let ghost before = self.view();
                proof {
                    lemma_to_map_dom(kv(self.entries@), target@);
                    if before.contains_key(target@) {
                        let j = choose|j: int| 0 <= j < kv(self.entries@).len() && kv(self.entries@)[j].0 == target@;
                        lemma_to_map_index(kv(self.entries@), j);
                    }
                    assert(!before.contains_key(target@));
                }
                let mut e = FingerprintEntry::new(config, now);
                if success {
                    e.success_count = 1;
                } else {
                    e.failure_count = 1;
                }
                let ghost ev = e;
                let ghost s0 = kv(self.entries@);
                self.entries.push((target.duplicate(), e));
                proof {
                    assert(kv(self.entries@) =~= s0.push((target@, ev)));
                    lemma_to_map_push(s0, target@, ev);
                    lemma_unique_push(s0, target@, ev);
                    lemma_to_map_len(s0);
                    lemma_to_map_len(kv(old(self).entries@));
                    if let Some(v) = victim {
                        assert(final(self).view().dom() =~= old(self).view().dom().remove(v).insert(target@));
                    } else {
                        assert(final(self).view().dom() =~= old(self).view().dom().insert(target@));
                    }
                }
            },
        }
    }

    /// A copy of the stored config for `target`, marking the entry as just used.
    pub fn get_working_fingerprint(&mut self, target: &TargetKey) -> (r: Option<ClientHelloConfig>)
        requires
            old(self).wf(),
        ensures
            final(self).wf(),
            final(self).spec_max_size() == old(self).spec_max_size(),
            r is Some <==> old(self).view().contains_key(target@),
            r matches Some(c) ==> same_config(c, old(self).view()[target@].config),
            old(self).view().contains_key(target@) ==> final(self).view() == old(self).view().insert(
                target@,
                FingerprintEntry { last_used: final(self).spec_clock(), ..old(self).view()[target@] },
            ),
            !old(self).view().contains_key(target@) ==> final(self).view() == old(self).view(),
    {
        match self.find(target) {
            Some(i) => {
                let now = self.tick();
                let (key, mut e) = self.entries.remove(i);
                e.touch(now);
                let c = e.config.duplicate();
                let ghost ev = e;
                let ghost s0 = kv(old(self).entries@);
                self.entries.insert(i, (key, e));
                proof {
                    assert(kv(self.entries@) =~= s0.update(i as int, (s0[i as int].0, ev)));
                    lemma_to_map_update(s0, i as int, ev);
                }
                Some(c)
            },
            None => None,
        }
    }

    /// `(successes, failures, reputation in parts per million)` for `target`.
    pub fn get_stats(&self, target: &TargetKey) -> (r: Option<(u32, u32, u32)>)
        requires
            self.wf(),
        ensures
            r is Some <==> self.view().contains_key(target@),
            r matches Some(t) ==> {
                let e = self.view()[target@];
                t.0 == e.success_count && t.1 == e.failure_count
                    && t.2 == reputation_ppm_of(e.success_count, e.failure_count)
            },
    {
        match self.find(target) {
            Some(i) => {
                let e = &self.entries[i].1;
                Some((e.success_count, e.failure_count, e.reputation_ppm()))
            },
            None => None,
        }
    }

    /// Every cached peer, once each.
    pub fn get_all_targets(&self) -> (r: Vec<TargetKey>)
        requires
            self.wf(),
        ensures
            r@.len() == self.view().dom().len(),
            forall|i: int| 0 <= i < r@.len() ==> self.view().contains_key(#[trigger] r@[i]@),
            forall|k| #[trigger] self.view().contains_key(k) ==> exists|i: int| 0 <= i < r@.len() && r@[i]@ == k,
    {
        let mut r: Vec<TargetKey> = Vec::new();
        let mut i: usize = 0;
        while i < self.entries.len()
            invariant
                i <= self.entries@.len(),
                r@.len() == i,
                forall|j: int| 0 <= j < i ==> (#[trigger] r@[j])@ == self.entries@[j].0@,
            decreases self.entries@.len() - i,
        {
            r.push(self.entries[i].0.duplicate());
            i = i + 1;
        }
        proof {
            self.lemma_size();
            let s = kv(self.entries@);
            assert forall|i: int| 0 <= i < r@.len() implies self.view().contains_key(#[trigger] r@[i]@) by {
                lemma_to_map_index(s, i);
            }
            assert forall|k| #[trigger] self.view().contains_key(k) implies exists|i: int| 0 <= i < r@.len() && r@[i]@ == k by {
                lemma_to_map_dom(s, k);
                let j = choose|j: int| 0 <= j < s.len() && s[j].0 == k;
                assert(r@[j]@ == k);
            }
        }
        r
    }

    /// The recent GREASE values of `target`, oldest first; empty for an unknown peer.
    pub fn get_previous_grease_values(&self, target: &TargetKey) -> (r: Vec<u16>)
        requires
            self.wf(),
        ensures
            r@ == if self.view().contains_key(target@) {
                self.view()[target@].previous_grease_values@
            } else {
                Seq::<u16>::empty()
            },
    {
        match self.find(target) {
            Some(i) => copy_vec(&self.entries[i].1.previous_grease_values),
            None => Vec::new(),
        }
    }

    /// The recent padding lengths of `target`, oldest first; empty for an unknown peer.
    pub fn get_previous_padding_lengths(&self, target: &TargetKey) -> (r: Vec<u16>)
        requires
            self.wf(),
        ensures
            r@ == if self.view().contains_key(target@) {
                self.view()[target@].previous_padding_lengths@
            } else {
                Seq::<u16>::empty()
            },
    {
        match self.find(target) {
            Some(i) => copy_vec(&self.entries[i].1.previous_padding_lengths),
            None => Vec::new(),
        }
    }

    /// Remembers a GREASE value used for `target`; nothing happens for an unknown peer.
    pub fn track_grease_value(&mut self, target: &TargetKey, grease_value: u16)
        requires
            old(self).wf(),
        ensures
            final(self).wf(),
            final(self).spec_max_size() == old(self).spec_max_size(),
            final(self).spec_clock() == old(self).spec_clock(),
            final(self).view().dom() == old(self).view().dom(),
            forall|k| k != target@ && #[trigger] old(self).view().contains_key(k) ==> final(self).view()[k] == old(self).view()[k],
            old(self).view().contains_key(target@) ==> {
                let a = old(self).view()[target@];
                let b = final(self).view()[target@];
                &&& b.previous_grease_values@ == push_bounded(a.previous_grease_values@, grease_value)
                &&& b.config == a.config && b.success_count == a.success_count
                &&& b.failure_count == a.failure_count && b.last_used == a.last_used
                &&& b.previous_padding_lengths == a.previous_padding_lengths
            },
    {
        match self.find(target) {
            Some(i) => {
                let (key, mut e) = self.entries.remove(i);
                e.track_grease_value(grease_value);
                let ghost ev = e;
                let ghost s0 = kv(old(self).entries@);
                self.entries.insert(i, (key, e));
                proof {
                    assert(kv(self.entries@) =~= s0.update(i as int, (s0[i as int].0, ev)));
                    lemma_to_map_update(s0, i as int, ev);
                    assert(final(self).view().dom() =~= old(self).view().dom());
                }
            },
            None => {},
        }
    }

    /// Remembers a padding length used for `target`; nothing happens for an unknown peer.
    pub fn track_padding_length(&mut self, target: &TargetKey, padding_length: u16)
        requires
            old(self).wf(),
        ensures
            final(self).wf(),
            final(self).spec_max_size() == old(self).spec_max_size(),
            final(self).spec_clock() == old(self).spec_clock(),
            final(self).view().dom() == old(self).view().dom(),
            forall|k| k != target@ && #[trigger] old(self).view().contains_key(k) ==> final(self).view()[k] == old(self).view()[k],
            old(self).view().contains_key(target@) ==> {
                let a = old(self).view()[target@];
                let b = final(self).view()[target@];
                &&& b.previous_padding_lengths@ == push_bounded(a.previous_padding_lengths@, padding_length)
                &&& b.config == a.config && b.success_count == a.success_count
                &&& b.failure_count == a.failure_count && b.last_used == a.last_used
                &&& b.previous_grease_values == a.previous_grease_values
            },
    {
        match self.find(target) {
            Some(i) => {
                let (key, mut e) = self.entries.remove(i);
                e.track_padding_length(padding_length);
                let ghost ev = e;
                let ghost s0 = kv(old(self).entries@);
                self.entries.insert(i, (key, e));
                proof {
                    assert(kv(self.entries@) =~= s0.update(i as int, (s0[i as int].0, ev)));
                    lemma_to_map_update(s0, i as int, ev);
                    assert(final(self).view().dom() =~= old(self).view().dom());
                }
            },
            None => {},
        }
    }
}

/// With at least one result, the reported reputation is `successes / (successes + failures)`
/// rounded down to a millionth.
pub proof fn lemma_reputation_ppm_exact(s: u32, f: u32)
    requires
        s as int + f as int > 0,
    ensures
        reputation_ppm_of(s, f) * (s as int + f as int) <= s as int * 1_000_000,
        s as int * 1_000_000 < (reputation_ppm_of(s, f) + 1) * (s as int + f as int),
{
    let t = s as int + f as int;
    let n = s as int * 1_000_000;
    vstd::arithmetic::div_mod::lemma_fundamental_div_mod(n, t);
    vstd::arithmetic::div_mod::lemma_mod_bound(n, t);
    assert(reputation_ppm_of(s, f) == n / t);
    assert((n / t) * t <= n) by (nonlinear_arith)
        requires n == t * (n / t) + n % t, n % t >= 0;
    assert(n < (n / t + 1) * t) by (nonlinear_arith)
        requires n == t * (n / t) + n % t, n % t < t;
}

/// Two copies that each hold the values of one stored config hold the same values.
pub proof fn lemma_copies_agree(c1: ClientHelloConfig, c2: ClientHelloConfig, stored: ClientHelloConfig)
    requires
        same_config(c1, stored),
        same_config(c2, stored),
    ensures
        same_config(c1, c2),
{
}

/// An entry with strictly higher reputation than another never goes first in eviction order,
/// so no insertion evicts it while a lower-reputation entry is cached.
pub proof fn lemma_higher_reputation_kept(high: FingerprintEntry, low: FingerprintEntry)
    requires
        rep_lt(low, high),
    ensures
        !evicts_before(high, low),
{
    let hn = rep_num(high.success_count, high.failure_count);
    let hd = rep_den(high.success_count, high.failure_count);
    let ln = rep_num(low.success_count, low.failure_count);
    let ld = rep_den(low.success_count, low.failure_count);
    assert(!(hn * ld < ln * hd)) by (nonlinear_arith)
        requires ln * hd < hn * ld;
}

} // verus!
