//! Browser-style randomization: grouped extension shuffling, GREASE injection
//! and padding-length sampling.
use vstd::prelude::*;
use vstd::multiset::Multiset;
use crate::config::RandomizationLevel;
use crate::error::Error;
use crate::hooks::ClientExtension;
use crate::rng::SimpleRng;
use crate::templates::{GreasePattern, NaturalnessFilter, TemplateData, natural};
use crate::types::{CipherSuite, ExtensionType};

verus! {

broadcast use vstd::seq_lib::group_to_multiset_ensures;

/// Where an extension goes when extensions are reordered: 0 the leading critical group,
/// 1 standard, 2 optional, 3 the pre-shared key, which is always last.
pub open spec fn rank(t: ExtensionType) -> int {
    match t {
        ExtensionType::SupportedVersions | ExtensionType::KeyShare | ExtensionType::SignatureAlgorithms => 0,
        ExtensionType::Padding | ExtensionType::ApplicationSettings | ExtensionType::DelegatedCredential
        | ExtensionType::CompressCertificate | ExtensionType::SCT | ExtensionType::EncryptedClientHello
        | ExtensionType::Unknown(_) => 2,
        ExtensionType::PreSharedKey => 3,
        _ => 1,
    }
}

fn rank_exec(t: ExtensionType) -> (r: u8)
    ensures
        r == rank(t),
{
    match t {
        ExtensionType::SupportedVersions | ExtensionType::KeyShare | ExtensionType::SignatureAlgorithms => 0,
        ExtensionType::Padding | ExtensionType::ApplicationSettings | ExtensionType::DelegatedCredential
        | ExtensionType::CompressCertificate | ExtensionType::SCT | ExtensionType::EncryptedClientHello
        | ExtensionType::Unknown(_) => 2,
        ExtensionType::PreSharedKey => 3,
        _ => 1,
    }
}

/// The extension types of a list, in order.
pub open spec fn types_of(s: Seq<ClientExtension>) -> Seq<ExtensionType> {
    s.map_values(|e: ClientExtension| e.ext_type)
}

/// The list is ordered by group: critical, standard, optional, then the pre-shared key.
pub open spec fn grouped(s: Seq<ClientExtension>) -> bool {
    forall|i: int, j: int| #![trigger s[i], s[j]] 0 <= i < j < s.len() ==> rank(s[i].ext_type) <= rank(s[j].ext_type)
}

/// The members of group `g`, in their order in `s`.
pub open spec fn of_rank(s: Seq<ClientExtension>, g: int) -> Seq<ClientExtension> {
    s.filter(rank_is(g))
}

/// Whether an extension lies in group `g`.
pub open spec fn rank_is(g: int) -> spec_fn(ClientExtension) -> bool {
    |e: ClientExtension| rank(e.ext_type) == g
}

/// The list regrouped without reordering any group: critical, standard, optional, then the
/// pre-shared key, each in its order in `s`.
pub open spec fn by_rank(s: Seq<ClientExtension>) -> Seq<ClientExtension> {
    of_rank(s, 0) + of_rank(s, 1) + of_rank(s, 2) + of_rank(s, 3)
}

/// Every member of the list lies in group `g`.
pub open spec fn all_rank(s: Seq<ClientExtension>, g: int) -> bool {
    forall|i: int| 0 <= i < s.len() ==> rank((#[trigger] s[i]).ext_type) == g
}

/// In a grouped list, a pre-shared key extension, when present, is last.
pub proof fn lemma_psk_last(s: Seq<ClientExtension>, i: int)
    requires
        grouped(s),
        0 <= i < s.len(),
        s[i].ext_type == ExtensionType::PreSharedKey,
    ensures
        s.last().ext_type == ExtensionType::PreSharedKey,
{
    if i < s.len() - 1 {
        assert(rank(s[i].ext_type) <= rank(s[s.len() - 1].ext_type));
        assert(rank(s.last().ext_type) == 3);
    }
}

/// In a grouped list, the critical extensions form the leading positions.
pub proof fn lemma_critical_leading(s: Seq<ClientExtension>, i: int, j: int)
    requires
        grouped(s),
        0 <= i < j < s.len(),
        rank(s[j].ext_type) == 0,
    ensures
        rank(s[i].ext_type) == 0,
{
    assert(rank(s[i].ext_type) <= rank(s[j].ext_type));
}

/// Whether `t` occurs in a list is decided by its multiset.
proof fn lemma_same_members(a: Seq<ClientExtension>, b: Seq<ClientExtension>)
    requires
        a.to_multiset() == b.to_multiset(),
    ensures
        forall|t: ExtensionType| types_of(a).contains(t) <==> types_of(b).contains(t),
{
    assert forall|t: ExtensionType| types_of(a).contains(t) implies types_of(b).contains(t) by {
        let i = choose|i: int| 0 <= i < types_of(a).len() && types_of(a)[i] == t;
        assert(a.to_multiset().count(a[i]) > 0);
        assert(b.contains(a[i]));
        let j = choose|j: int| 0 <= j < b.len() && b[j] == a[i];
        assert(types_of(b)[j] == t);
    }
    assert forall|t: ExtensionType| types_of(b).contains(t) implies types_of(a).contains(t) by {
        let i = choose|i: int| 0 <= i < types_of(b).len() && types_of(b)[i] == t;
        assert(b.to_multiset().count(b[i]) > 0);
        assert(a.contains(b[i]));
        let j = choose|j: int| 0 <= j < a.len() && a[j] == b[i];
        assert(types_of(a)[j] == t);
    }
}

/// The per-mille chance of swapping two neighbours at each level.
pub open spec fn swap_permille(level: RandomizationLevel) -> u16 {
    match level {
        RandomizationLevel::Disabled => 0,
        RandomizationLevel::Light => 150,
        RandomizationLevel::Medium => 400,
        RandomizationLevel::High => 800,
    }
}

/// The per-mille chance of sampling padding from the template PMF at each level.
pub open spec fn pmf_permille(level: RandomizationLevel) -> u16 {
    match level {
        RandomizationLevel::Disabled => 1000,
        RandomizationLevel::Light => 900,
        RandomizationLevel::Medium => 700,
        RandomizationLevel::High => 500,
    }
}

/// Applies browser-plausible perturbations with a deterministic generator.
pub struct BrowserRandomizer {
    level: RandomizationLevel,
    rng: SimpleRng,
    naturalness_filter: NaturalnessFilter,
    /// The padding lengths drawn by the last `generate_padding_len`, in order.
    tries: Ghost<Seq<u16>>,
}

impl BrowserRandomizer {
    pub closed spec fn spec_level(&self) -> RandomizationLevel {
        self.level
    }

    /// The padding lengths drawn by the last `generate_padding_len`, in order.
    pub closed spec fn spec_tries(&self) -> Seq<u16> {
        self.tries@
    }

    pub closed spec fn spec_filter(&self) -> NaturalnessFilter {
        self.naturalness_filter
    }

    /// A randomizer with the default seed.
    pub fn new(level: RandomizationLevel, naturalness_filter: NaturalnessFilter) -> (r: Self)
        ensures
            r.spec_level() == level,
            r.spec_filter() == naturalness_filter,
    {
        BrowserRandomizer { level, rng: SimpleRng::new(), naturalness_filter, tries: Ghost(Seq::empty()) }
    }

    /// A randomizer whose choices are pinned by `seed`.
    pub fn with_seed(level: RandomizationLevel, naturalness_filter: NaturalnessFilter, seed: u64) -> (r: Self)
        ensures
            r.spec_level() == level,
            r.spec_filter() == naturalness_filter,
    {
        BrowserRandomizer { level, rng: SimpleRng::with_seed(seed), naturalness_filter, tries: Ghost(Seq::empty()) }
    }

    /// The generator's current state, which pins its next choices.
    pub fn seed_state(&self) -> (r: u64)
        ensures
            r == self.spec_rng_state(),
    {
        self.rng.state
    }

    /// The generator's current state.
    pub closed spec fn spec_rng_state(&self) -> u64 {
        self.rng.state
    }

    pub fn level(&self) -> (r: RandomizationLevel)
        ensures
            r == self.spec_level(),
    {
        self.level
    }

    pub fn naturalness_filter(&self) -> (r: &NaturalnessFilter)
        ensures
            *r == self.spec_filter(),
    {
        &self.naturalness_filter
    }

    fn pmf_chance(&self) -> (r: u16)
        ensures
            r == pmf_permille(self.level),
    {
        match self.level {
            RandomizationLevel::Disabled => 1000,
            RandomizationLevel::Light => 900,
            RandomizationLevel::Medium => 700,
            RandomizationLevel::High => 500,
        }
    }

    fn swap_chance(&self) -> (r: u16)
        ensures
            r == swap_permille(self.level),
    {
        match self.level {
            RandomizationLevel::Disabled => 0,
            RandomizationLevel::Light => 150,
            RandomizationLevel::Medium => 400,
            RandomizationLevel::High => 800,
        }
    }

    /// Walks the list once, swapping each pair of neighbours with the level's chance.
    fn perturb(&mut self, g: &mut Vec<ClientExtension>, ghost_rank: Ghost<int>)
        requires
            all_rank(old(g)@, ghost_rank@),
        ensures
            all_rank(final(g)@, ghost_rank@),
            final(g)@.to_multiset() == old(g)@.to_multiset(),
            final(self).level == old(self).level,
            final(self).naturalness_filter == old(self).naturalness_filter,
    {
        let p = self.swap_chance();
        let mut i: usize = 0;
        while g.len() - i > 1
            invariant
                i <= g@.len(),
                all_rank(g@, ghost_rank@),
                g@.to_multiset() == old(g)@.to_multiset(),
                self.level == old(self).level,
                self.naturalness_filter == old(self).naturalness_filter,
                p == swap_permille(self.level),
            decreases g@.len() - i,
        {
            if self.rng.chance(p) {
                let ghost before = g@;
                let e = g.remove(i + 1);
                let ghost mid = g@;
                g.insert(i, e);
                proof {
                    assert(mid.to_multiset() == before.to_multiset().remove(e));
                    assert(g@.to_multiset() == mid.to_multiset().insert(e));
                    assert(before.to_multiset().count(e) > 0);
                    assert(g@.to_multiset() =~= before.to_multiset());
                    assert forall|j: int| 0 <= j < g@.len() implies rank((#[trigger] g@[j]).ext_type) == ghost_rank@ by {
                        if j < i {
                            assert(g@[j] == before[j]);
                        } else if j == i {
                            assert(g@[j] == before[i + 1]);
                        } else if j == i + 1 {
                            assert(g@[j] == before[i as int]);
                        } else {
                            assert(g@[j] == before[j]);
                        }
                    }
                }
            }
            i = i + 1;
        }
    }

    /// Reorders `extensions` into groups: critical first, then standard, then optional,
    /// with a pre-shared key extension moved last. When the filter accepts the list,
    /// neighbours in a group are swapped with a chance that grows with the level; a list the
    /// filter rejects keeps its default order within each group. At level `Disabled` the
    /// list is left as it is.
    pub fn shuffle_extensions(&mut self, extensions: &mut Vec<ClientExtension>, _template: &TemplateData) -> (r: Result<(), Error>)
        ensures
            r is Ok,
            final(self).spec_level() == old(self).spec_level(),
            final(self).spec_filter() == old(self).spec_filter(),
            old(self).spec_level() == RandomizationLevel::Disabled ==> final(extensions)@ == old(extensions)@,
            old(self).spec_level() != RandomizationLevel::Disabled
                && !natural(old(self).spec_filter(), types_of(old(extensions)@))
                ==> final(extensions)@ == by_rank(old(extensions)@),
            old(self).spec_level() != RandomizationLevel::Disabled ==> {
                &&& final(extensions)@.to_multiset() == old(extensions)@.to_multiset()
                &&& grouped(final(extensions)@)
                &&& natural(old(self).spec_filter(), types_of(final(extensions)@))
                    == natural(old(self).spec_filter(), types_of(old(extensions)@))
            },
    {
        if self.level == RandomizationLevel::Disabled {
            return Ok(());
        }
        let types = extension_types(extensions);
        let accepted = self.naturalness_filter.is_natural(types.as_slice());
        let ghost orig = extensions@;
        assert(orig.subrange(0, 0) =~= Seq::<ClientExtension>::empty());
        assert(orig.subrange(0, orig.len() as int) =~= orig);
        let mut critical: Vec<ClientExtension> = Vec::new();
        let mut standard: Vec<ClientExtension> = Vec::new();
        let mut optional: Vec<ClientExtension> = Vec::new();
        let mut psk: Vec<ClientExtension> = Vec::new();
        while extensions.len() > 0
            invariant
                all_rank(critical@, 0),
                all_rank(standard@, 1),
                all_rank(optional@, 2),
                all_rank(psk@, 3),
                extensions@.to_multiset().add(critical@.to_multiset()).add(standard@.to_multiset())
                    .add(optional@.to_multiset()).add(psk@.to_multiset()) == orig.to_multiset(),
                self.level == old(self).level,
                self.naturalness_filter == old(self).naturalness_filter,
                extensions@.len() <= orig.len(),
                extensions@ == orig.subrange(orig.len() - extensions@.len(), orig.len() as int),
                critical@ == of_rank(orig.subrange(0, orig.len() - extensions@.len()), 0),
                standard@ == of_rank(orig.subrange(0, orig.len() - extensions@.len()), 1),
                optional@ == of_rank(orig.subrange(0, orig.len() - extensions@.len()), 2),
                psk@ == of_rank(orig.subrange(0, orig.len() - extensions@.len()), 3),
            decreases extensions@.len(),
        {
            let ghost before = extensions@;
            let ghost done = orig.len() - before.len();
            let e = extensions.remove(0);
            proof {
                assert(e == orig[done]);
                assert(extensions@ =~= orig.subrange(orig.len() - extensions@.len(), orig.len() as int));
                assert(orig.subrange(0, done + 1) =~= orig.subrange(0, done).push(e));
            }
            proof {
                assert(extensions@.to_multiset() == before.to_multiset().remove(e));
                assert(before.to_multiset().count(e) > 0);
            }
            let g = rank_exec(e.ext_type);
            let ghost ge = e;
            if g == 0 {
                critical.push(e);
            } else if g == 1 {
                standard.push(e);
            } else if g == 2 {
                optional.push(e);
            } else {
                psk.push(e);
            }
            proof {
                let pre = orig.subrange(0, done);
                pre.lemma_filter_push(ge, rank_is(0));
                pre.lemma_filter_push(ge, rank_is(1));
                pre.lemma_filter_push(ge, rank_is(2));
                pre.lemma_filter_push(ge, rank_is(3));
                assert(critical@ =~= of_rank(pre.push(ge), 0));
                assert(standard@ =~= of_rank(pre.push(ge), 1));
                assert(optional@ =~= of_rank(pre.push(ge), 2));
                assert(psk@ =~= of_rank(pre.push(ge), 3));
                assert(before.to_multiset() =~= extensions@.to_multiset().insert(ge));
                assert(extensions@.to_multiset().add(critical@.to_multiset()).add(standard@.to_multiset())
                    .add(optional@.to_multiset()).add(psk@.to_multiset()) =~= orig.to_multiset());
            }
        }
        assert(orig.subrange(0, orig.len() as int) =~= orig);
        if accepted {
            self.perturb(&mut critical, Ghost(0));
            self.perturb(&mut standard, Ghost(1));
            self.perturb(&mut optional, Ghost(2));
        }
        let ghost c = critical@;
        let ghost s = standard@;
        let ghost o = optional@;
        let ghost p = psk@;
        critical.append(&mut standard);
        critical.append(&mut optional);
        critical.append(&mut psk);
        proof {
            let all = c + s + o + p;
            assert(critical@ =~= all);
            if !accepted {
                assert(all == by_rank(orig));
            }
            vstd::seq_lib::lemma_multiset_commutative(c, s);
            vstd::seq_lib::lemma_multiset_commutative(c + s, o);
            vstd::seq_lib::lemma_multiset_commutative(c + s + o, p);
            assert(extensions@ =~= seq![]);
            assert(all.to_multiset() =~= orig.to_multiset());
            assert forall|i: int, j: int| #![trigger all[i], all[j]] 0 <= i < j < all.len() implies rank(all[i].ext_type) <= rank(all[j].ext_type)
                by {
                let ri = if i < c.len() { 0int } else if i < c.len() + s.len() { 1 } else if i < c.len() + s.len() + o.len() { 2 } else { 3 };
                let rj = if j < c.len() { 0int } else if j < c.len() + s.len() { 1 } else if j < c.len() + s.len() + o.len() { 2 } else { 3 };
                if i < c.len() { assert(all[i] == c[i]); }
                else if i < c.len() + s.len() { assert(all[i] == s[i - c.len()]); }
                else if i < c.len() + s.len() + o.len() { assert(all[i] == o[i - c.len() - s.len()]); }
                else { assert(all[i] == p[i - c.len() - s.len() - o.len()]); }
                if j < c.len() { assert(all[j] == c[j]); }
                else if j < c.len() + s.len() { assert(all[j] == s[j - c.len()]); }
                else if j < c.len() + s.len() + o.len() { assert(all[j] == o[j - c.len() - s.len()]); }
                else { assert(all[j] == p[j - c.len() - s.len() - o.len()]); }
                assert(rank(all[i].ext_type) == ri);
                assert(rank(all[j].ext_type) == rj);
            }
            lemma_same_members(all, orig);
            crate::templates::lemma_natural_same_members(self.naturalness_filter, types_of(orig), types_of(all));
        }
        *extensions = critical;
        Ok(())
    }

    /// A value of `available` that is not in `previous` if there is one, else any value
    /// of `available`; `None` when `available` is empty.
    pub fn select_unused_grease(&mut self, available: &[u16], previous: &[u16]) -> (r: Option<u16>)
        ensures
            r is None <==> available@.len() == 0,
            r matches Some(v) ==> available@.contains(v),
            r matches Some(v) ==> (exists|i: int| 0 <= i < available@.len() && !previous@.contains(#[trigger] available@[i]))
                ==> !previous@.contains(v),
            final(self).spec_level() == old(self).spec_level(),
            final(self).spec_filter() == old(self).spec_filter(),
    {
        if available.len() == 0 {
            return None;
        }
        let mut unused: Vec<u16> = Vec::new();
        let mut i: usize = 0;
        while i < available.len()
            invariant
                i <= available@.len(),
                forall|j: int| 0 <= j < unused@.len() ==> available@.contains(#[trigger] unused@[j]) && !previous@.contains(unused@[j]),
                forall|j: int| 0 <= j < i && !previous@.contains(#[trigger] available@[j]) ==> unused@.contains(available@[j]),
            decreases available@.len() - i,
        {
            let ghost before = unused@;
            let v = available[i];
            if !contains_value(previous, v) {
                unused.push(v);
            }
            proof {
                assert forall|j: int| 0 <= j < unused@.len() implies available@.contains(#[trigger] unused@[j]) && !previous@.contains(unused@[j]) by {
                    if j < before.len() {
                        assert(unused@[j] == before[j]);
                    } else {
                        assert(unused@[j] == available@[i as int]);
                    }
                }
                assert forall|j: int| 0 <= j < i + 1 && !previous@.contains(#[trigger] available@[j]) implies unused@.contains(available@[j]) by {
                    if j == i {
                        assert(unused@[unused@.len() - 1] == v);
                    } else {
                        let k = choose|k: int| 0 <= k < before.len() && before[k] == available@[j];
                        assert(unused@[k] == before[k]);
                    }
                }
            }
            i = i + 1;
        }
        if unused.len() > 0 {
            let k = self.rng.index(unused.len());
            return Some(unused[k]);
        }
        let k = self.rng.index(available.len());
        Some(available[k])
    }

    /// The insertion index for a GREASE value in a list of `len`: a per-mille position
    /// picked from `positions`, scaled to the length; 0 with no positions.
    fn grease_index(&mut self, positions: &Vec<u16>, len: usize) -> (r: usize)
        ensures
            r <= len,
            at_grease_index(positions@, len as int, r as int),
            final(self).level == old(self).level,
            final(self).naturalness_filter == old(self).naturalness_filter,
    {
        if positions.len() == 0 {
            return 0;
        }
        let k = self.rng.index(positions.len());
        let pos = positions[k];
        assert((pos as u128) * (len as u128) <= 0xFFFFu128 * 0xFFFF_FFFF_FFFF_FFFFu128) by (nonlinear_arith)
            requires pos as u128 <= 0xFFFFu128, len as u128 <= 0xFFFF_FFFF_FFFF_FFFFu128;
        let scaled: u128 = (pos as u128) * (len as u128) / 1000;
        assert(scaled as int == grease_scaled(positions@[k as int], len as int));
        if scaled >= len as u128 {
            assert(len as int == grease_pos(positions@[k as int], len as int));
            len
        } else {
            assert(scaled as int == grease_pos(positions@[k as int], len as int));
            scaled as usize
        }
    }

    /// With the pattern's cipher-suite probability, inserts one GREASE cipher suite at a
    /// preferred position, preferring a value not in `avoid`.
    fn inject_suite_grease(&mut self, cipher_suites: &mut Vec<CipherSuite>, pattern: &GreasePattern, avoid: &[u16]) -> (g: Option<u16>)
        ensures
            final(self).level == old(self).level,
            final(self).naturalness_filter == old(self).naturalness_filter,
            with_suite(old(cipher_suites)@, final(cipher_suites)@, g, pattern.cipher_suite_positions@),
            g matches Some(v) ==> fresh_pick(pattern.grease_values@, avoid@, v),
            pattern.cipher_suite_probability >= 1000 && pattern.grease_values@.len() > 0 ==> g is Some,
    {
        if !self.rng.chance(pattern.cipher_suite_probability) {
            return None;
        }
        match self.select_unused_grease(pattern.grease_values.as_slice(), avoid) {
            Some(g) => {
                let idx = self.grease_index(&pattern.cipher_suite_positions, cipher_suites.len());
                let ghost before = cipher_suites@;
                cipher_suites.insert(idx, CipherSuite(g));
                assert(before.insert(idx as int, CipherSuite(g)) == cipher_suites@);
                assert(with_suite(before, cipher_suites@, Some(g), pattern.cipher_suite_positions@));
                Some(g)
            },
            None => None,
        }
    }

    /// With the pattern's extension probability, inserts one GREASE extension at a preferred
    /// position before a trailing pre-shared key, preferring a value not in `avoid`.
    fn inject_extension_grease(&mut self, extensions: &mut Vec<ClientExtension>, pattern: &GreasePattern, avoid: &[u16]) -> (g: Option<u16>)
        ensures
            final(self).level == old(self).level,
            final(self).naturalness_filter == old(self).naturalness_filter,
            with_ext(old(extensions)@, final(extensions)@, g, pattern.extension_positions@),
            g matches Some(v) ==> fresh_pick(pattern.grease_values@, avoid@, v),
            pattern.extension_probability >= 1000 && pattern.grease_values@.len() > 0 ==> g is Some,
            old(extensions)@.len() > 0 && old(extensions)@.last().ext_type == ExtensionType::PreSharedKey
                ==> final(extensions)@.len() > 0 && final(extensions)@.last().ext_type == ExtensionType::PreSharedKey,
    {
        if !self.rng.chance(pattern.extension_probability) {
            return None;
        }
        match self.select_unused_grease(pattern.grease_values.as_slice(), avoid) {
            Some(g) => {
                let len = extensions.len();
                let keep_last = len > 0 && matches!(extensions[len - 1].ext_type, ExtensionType::PreSharedKey);
                let limit = if keep_last { len - 1 } else { len };
                let idx = self.grease_index(&pattern.extension_positions, limit);
                let ghost before = extensions@;
                let e = ClientExtension { ext_type: ExtensionType::Unknown(g), data: Vec::new() };
                extensions.insert(idx, e);
                proof {
                    assert(extensions@.remove(idx as int) =~= before);
                    if keep_last {
                        assert(extensions@.last() == before.last());
                    }
                }
                Some(g)
            },
            None => None,
        }
    }

    /// Inserts GREASE values, with the template's probabilities, into the cipher suites
    /// and the extensions, preferring values not in `previous_grease_values` and giving
    /// the extension a value other than the cipher suite's when the pool allows.
    /// Returns the values inserted, cipher suite first.
    pub fn inject_grease(
        &mut self,
        cipher_suites: &mut Vec<CipherSuite>,
        extensions: &mut Vec<ClientExtension>,
        template: &TemplateData,
        previous_grease_values: &[u16],
    ) -> (r: Result<Vec<u16>, Error>)
        ensures
            final(self).spec_level() == old(self).spec_level(),
            final(self).spec_filter() == old(self).spec_filter(),
            r matches Ok(used) && grease_done(template.grease_pattern, old(self).spec_level(), previous_grease_values@,
                old(cipher_suites)@, final(cipher_suites)@, old(extensions)@, final(extensions)@, used@),
            old(extensions)@.len() > 0 && old(extensions)@.last().ext_type == ExtensionType::PreSharedKey
                ==> final(extensions)@.len() > 0 && final(extensions)@.last().ext_type == ExtensionType::PreSharedKey,
    {
        let mut used: Vec<u16> = Vec::new();
        if self.level == RandomizationLevel::Disabled {
            assert(grease_step(template.grease_pattern, old(self).spec_level(), previous_grease_values@,
                old(cipher_suites)@, cipher_suites@, old(extensions)@, extensions@, used@, None, None));
            assert(grease_done(template.grease_pattern, old(self).spec_level(), previous_grease_values@,
                old(cipher_suites)@, cipher_suites@, old(extensions)@, extensions@, used@));
            return Ok(used);
        }
        let pattern = &template.grease_pattern;
        let cg = self.inject_suite_grease(cipher_suites, pattern, previous_grease_values);
        match cg {
            Some(g) => used.push(g),
            None => {},
        }
        let mut avoid: Vec<u16> = crate::state::copy_vec(&used);
        let mut i: usize = 0;
        while i < previous_grease_values.len()
            invariant
                i <= previous_grease_values@.len(),
                avoid@ == used@ + previous_grease_values@.subrange(0, i as int),
            decreases previous_grease_values@.len() - i,
        {
            avoid.push(previous_grease_values[i]);
            i = i + 1;
            assert(avoid@ =~= used@ + previous_grease_values@.subrange(0, i as int));
        }
        assert(avoid@ =~= used@ + previous_grease_values@);
        if !any_outside(pattern.grease_values.as_slice(), avoid.as_slice()) {
            avoid = crate::state::copy_vec(&used);
        }
        let ghost avoid_v = avoid@;
        let eg = self.inject_extension_grease(extensions, pattern, avoid.as_slice());
        match eg {
            Some(g) => used.push(g),
            None => {},
        }
        proof {
            let pool = pattern.grease_values@;
            assert(used@ =~= opt_seq(cg) + opt_seq(eg));
            if cg is None {
                if exists|j: int| 0 <= j < pool.len() && !previous_grease_values@.contains(#[trigger] pool[j]) {
                    assert(avoid_v =~= previous_grease_values@);
                }
            }
            if let Some(c) = cg {
                assert(avoid_v[0] == c);
                if exists|j: int| 0 <= j < pool.len() && #[trigger] pool[j] != c {
                    let j = choose|j: int| 0 <= j < pool.len() && #[trigger] pool[j] != c;
                    if avoid_v.len() == 1 {
                        assert(!avoid_v.contains(pool[j]));
                    }
                }
            }
            assert(grease_step(template.grease_pattern, old(self).spec_level(), previous_grease_values@,
                old(cipher_suites)@, cipher_suites@, old(extensions)@, extensions@, used@, cg, eg));
            assert(grease_done(template.grease_pattern, old(self).spec_level(), previous_grease_values@,
                old(cipher_suites)@, cipher_suites@, old(extensions)@, extensions@, used@));
        }
        Ok(used)
    }

    /// The value of `POWERS_OF_2` nearest to `value` within `[min, max]`, the first on a
    /// tie; `value` clamped to `[min, max]` when none lies there.
    pub fn nearest_power_of_2(&self, value: u16, min: u16, max: u16) -> (r: u16)
        ensures
            r == nearest_power_spec(value, min, max),
    {
        nearest_power(value, min, max)
    }

    /// A padding length from the template: at level `Disabled`, the first PMF entry (or 0).
    /// Otherwise, with the chance `pmf_permille(level)`, a PMF sample, else a uniform length in range
    /// pulled toward a power of two with the template's bias; up to five tries to avoid
    /// `previous_padding_lengths`, then the last try is kept. The result is clamped to the range.
    pub fn generate_padding_len(&mut self, template: &TemplateData, previous_padding_lengths: &[u16]) -> (r: u16)
        ensures
            final(self).spec_level() == old(self).spec_level(),
            final(self).spec_filter() == old(self).spec_filter(),
            old(self).spec_level() == RandomizationLevel::Disabled ==> r == if template.padding_distribution.pmf@.len() > 0 {
                template.padding_distribution.pmf@[0].0
            } else {
                0
            },
            old(self).spec_level() != RandomizationLevel::Disabled
                && template.padding_distribution.min_length <= template.padding_distribution.max_length
                ==> template.padding_distribution.min_length <= r <= template.padding_distribution.max_length,
            old(self).spec_level() != RandomizationLevel::Disabled ==> {
                let tries = final(self).spec_tries();
                &&& 1 <= tries.len() <= 5
                &&& r == tries.last()
                &&& forall|i: int| 0 <= i < tries.len() - 1 ==> previous_padding_lengths@.contains(#[trigger] tries[i])
                &&& previous_padding_lengths@.contains(r) ==> tries.len() == 5
            },
    {
        let dist = &template.padding_distribution;
        if self.level == RandomizationLevel::Disabled {
            if dist.pmf.len() > 0 {
                return dist.pmf[0].0;
            }
            return 0;
        }
        let chance = self.pmf_chance();
        let use_pmf = self.rng.chance(chance);
        let mut candidate: u16 = clamp(dist.min_length, dist.min_length, dist.max_length);
        let mut attempt: u32 = 0;
        self.tries = Ghost(Seq::empty());
        while attempt < 5
            invariant
                attempt <= 5,
                self.tries@.len() == attempt,
                attempt > 0 ==> candidate == self.tries@.last(),
                forall|i: int| 0 <= i < self.tries@.len() ==> previous_padding_lengths@.contains(#[trigger] self.tries@[i]),
                self.level == old(self).level,
                self.naturalness_filter == old(self).naturalness_filter,
                self.level != RandomizationLevel::Disabled,
                *dist == template.padding_distribution,
                dist.min_length <= dist.max_length ==> dist.min_length <= candidate <= dist.max_length,
            decreases 5 - attempt,
        {
            let raw: u16 = match (if use_pmf { crate::utils::sample_from_pmf(dist.pmf.as_slice(), &mut self.rng) } else { None }) {
                Some(v) => v,
                None => {
                    let v = self.rng.gen_range(dist.min_length, dist.max_length);
                    if self.rng.chance(dist.power_of_2_bias) {
                        nearest_power(v, dist.min_length, dist.max_length)
                    } else {
                        v
                    }
                },
            };
            candidate = clamp(raw, dist.min_length, dist.max_length);
            assert(dist.min_length <= dist.max_length ==> dist.min_length <= candidate <= dist.max_length);
            let ghost before = self.tries@;
            self.tries = Ghost(self.tries@.push(candidate));
            if !contains_value(previous_padding_lengths, candidate) {
                proof {
                    assert forall|i: int| 0 <= i < self.tries@.len() - 1 implies previous_padding_lengths@.contains(#[trigger] self.tries@[i]) by {
                        assert(self.tries@[i] == before[i]);
                    }
                }
                return candidate;
            }
            attempt = attempt + 1;
        }
        candidate
    }
}

/// The types of the extensions, in order.
pub fn extension_types(extensions: &Vec<ClientExtension>) -> (r: Vec<ExtensionType>)
    ensures
        r@ == types_of(extensions@),
{
    let mut r: Vec<ExtensionType> = Vec::new();
    let mut i: usize = 0;
    while i < extensions.len()
        invariant
            i <= extensions@.len(),
            r@.len() == i,
            forall|j: int| 0 <= j < i ==> r@[j] == (#[trigger] extensions@[j]).ext_type,
        decreases extensions@.len() - i,
    {
        r.push(extensions[i].ext_type);
        i = i + 1;
    }
    assert(r@ =~= types_of(extensions@));
    r
}

/// The powers of two that padding lengths are pulled toward, with 0.
pub const POWERS_OF_2: [u16; 13] = [0, 1, 2, 4, 8, 16, 32, 64, 128, 256, 512, 1024, 2048];

/// The powers of two considered, with 0.
pub open spec fn powers() -> Seq<u16> {
    seq![0u16, 1, 2, 4, 8, 16, 32, 64, 128, 256, 512, 1024, 2048]
}

/// `v` brought into `[min, max]`: raised to `min`, then lowered to `max`.
pub open spec fn clamp_spec(v: u16, min: u16, max: u16) -> u16 {
    if v < min { min } else if v > max { max } else { v }
}

pub fn clamp(v: u16, min: u16, max: u16) -> (r: u16)
    ensures
        r == clamp_spec(v, min, max),
{
    if v < min { min } else if v > max { max } else { v }
}

/// The distance between two lengths.
pub open spec fn dist(a: u16, b: u16) -> int {
    if a >= b { a - b } else { b - a }
}

/// Scans `ps` from the front for the nearest in-range value to `v`, keeping the first on ties;
/// `best` is the nearest found so far.
pub open spec fn nearest_from(ps: Seq<u16>, v: u16, min: u16, max: u16, best: Option<u16>) -> Option<u16>
    decreases ps.len(),
{
    if ps.len() == 0 {
        best
    } else {
        let p = ps[0];
        let next = if min <= p <= max {
            match best {
                None => Some(p),
                Some(b) => if dist(p, v) < dist(b, v) { Some(p) } else { Some(b) },
            }
        } else {
            best
        };
        nearest_from(ps.drop_first(), v, min, max, next)
    }
}

/// The nearest power of two to `v` in `[min, max]`, or `v` clamped when there is none.
pub open spec fn nearest_power_spec(v: u16, min: u16, max: u16) -> u16 {
    match nearest_from(powers(), v, min, max, None) {
        Some(p) => p,
        None => clamp_spec(v, min, max),
    }
}

fn nearest_power(value: u16, min: u16, max: u16) -> (r: u16)
    ensures
        r == nearest_power_spec(value, min, max),
{
    let ps: [u16; 13] = POWERS_OF_2;
    assert(ps@ =~= powers());
    let mut best: Option<u16> = None;
    let mut i: usize = 0;
    assert(powers().subrange(0, 13) =~= powers());
    while i < 13
        invariant
            i <= 13,
            ps@ == powers(),
            nearest_from(powers(), value, min, max, None) == nearest_from(powers().subrange(i as int, 13), value, min, max, best),
        decreases 13 - i,
    {
        let p = ps[i];
        proof {
            assert(powers().subrange(i as int, 13).drop_first() =~= powers().subrange(i + 1, 13));
        }
        if min <= p && p <= max {
            best = match best {
                None => Some(p),
                Some(b) => {
                    let dp: u16 = if p >= value { p - value } else { value - p };
                    let db: u16 = if b >= value { b - value } else { value - b };
                    if dp < db { Some(p) } else { Some(b) }
                },
            };
        }
        i = i + 1;
    }
    assert(powers().subrange(13, 13) =~= seq![]);
    match best {
        Some(p) => p,
        None => clamp(value, min, max),
    }
}

/// `new` is `old`, or `old` with one GREASE cipher suite `g` inserted.
pub open spec fn with_suite(old: Seq<CipherSuite>, new: Seq<CipherSuite>, g: Option<u16>, positions: Seq<u16>) -> bool {
    match g {
        None => new == old,
        Some(v) => new.len() == old.len() + 1 && exists|k: int| 0 <= k <= old.len()
            && at_grease_index(positions, old.len() as int, k) && new == #[trigger] old.insert(k, CipherSuite(v)),
    }
}

/// A per-mille position `p` scaled to a list of `len`.
pub open spec fn grease_scaled(p: u16, len: int) -> int {
    p as int * len / 1000
}

/// A per-mille position `p` scaled to a list of `len`, kept within the list.
pub open spec fn grease_pos(p: u16, len: int) -> int {
    if grease_scaled(p, len) >= len { len } else { grease_scaled(p, len) }
}

/// `k` is where a GREASE value goes in a list of `len`: 0 with no preferred positions, else
/// one of the preferred positions scaled to the length.
pub open spec fn at_grease_index(positions: Seq<u16>, len: int, k: int) -> bool {
    ||| positions.len() == 0 && k == 0
    ||| exists|j: int| 0 <= j < positions.len() && k == grease_pos(#[trigger] positions[j], len)
}

/// The part of an extension list before a trailing pre-shared key.
pub open spec fn grease_limit(ex: Seq<ClientExtension>) -> int {
    if ex.len() > 0 && ex.last().ext_type == ExtensionType::PreSharedKey { ex.len() - 1 } else { ex.len() as int }
}

/// `new` is `old`, or `old` with one empty GREASE extension of type `g` inserted.
pub open spec fn with_ext(old: Seq<ClientExtension>, new: Seq<ClientExtension>, g: Option<u16>, positions: Seq<u16>) -> bool {
    match g {
        None => new == old,
        Some(v) => new.len() == old.len() + 1 && exists|k: int| 0 <= k < new.len()
            && at_grease_index(positions, grease_limit(old), k) && #[trigger] new.remove(k) == old
            && new[k].ext_type == ExtensionType::Unknown(v) && new[k].data@.len() == 0,
    }
}

/// The inserted values, in order.
pub open spec fn opt_seq(g: Option<u16>) -> Seq<u16> {
    match g {
        None => seq![],
        Some(v) => seq![v],
    }
}

/// `v` comes from `pool`, and avoids `avoid` whenever the pool has a value outside it.
pub open spec fn fresh_pick(pool: Seq<u16>, avoid: Seq<u16>, v: u16) -> bool {
    &&& pool.contains(v)
    &&& (exists|j: int| 0 <= j < pool.len() && !avoid.contains(#[trigger] pool[j])) ==> !avoid.contains(v)
}

/// One GREASE injection: cipher suite value `cg`, extension value `eg`, returned as `used`.
pub open spec fn grease_step(
    pattern: GreasePattern,
    level: RandomizationLevel,
    previous: Seq<u16>,
    old_cs: Seq<CipherSuite>,
    new_cs: Seq<CipherSuite>,
    old_ex: Seq<ClientExtension>,
    new_ex: Seq<ClientExtension>,
    used: Seq<u16>,
    cg: Option<u16>,
    eg: Option<u16>,
) -> bool {
    let pool = pattern.grease_values@;
    let active = level != RandomizationLevel::Disabled;
    &&& used == opt_seq(cg) + opt_seq(eg)
    &&& with_suite(old_cs, new_cs, cg, pattern.cipher_suite_positions@)
    &&& with_ext(old_ex, new_ex, eg, pattern.extension_positions@)
    &&& !active ==> cg is None && eg is None
    &&& active && pattern.cipher_suite_probability >= 1000 && pool.len() > 0 ==> cg is Some
    &&& active && pattern.extension_probability >= 1000 && pool.len() > 0 ==> eg is Some
    &&& cg matches Some(v) ==> fresh_pick(pool, previous, v)
    &&& eg matches Some(v) ==> pool.contains(v)
    &&& eg is Some && cg is Some && (exists|j: int| 0 <= j < pool.len() && #[trigger] pool[j] != cg.unwrap())
        ==> eg.unwrap() != cg.unwrap()
    &&& eg is Some && cg is None ==> fresh_pick(pool, previous, eg.unwrap())
}

/// Over two connections to one target, once the first connection's cipher-suite GREASE value
/// is among the target's recent values, the second connection's differs from it, unless
/// every value of the pool is recent.
pub proof fn lemma_grease_step_varies(
    pattern: GreasePattern,
    level: RandomizationLevel,
    previous: Seq<u16>,
    old_cs: Seq<CipherSuite>,
    new_cs: Seq<CipherSuite>,
    old_ex: Seq<ClientExtension>,
    new_ex: Seq<ClientExtension>,
    used: Seq<u16>,
    cg: Option<u16>,
    eg: Option<u16>,
    first: u16,
)
    requires
        grease_step(pattern, level, previous, old_cs, new_cs, old_ex, new_ex, used, cg, eg),
        cg is Some,
        previous.contains(first),
        exists|j: int| 0 <= j < pattern.grease_values@.len() && !previous.contains(#[trigger] pattern.grease_values@[j]),
    ensures
        used[0] != first,
{
}

/// Some choice of cipher suite and extension values makes a GREASE step.
pub open spec fn grease_done(
    pattern: GreasePattern,
    level: RandomizationLevel,
    previous: Seq<u16>,
    old_cs: Seq<CipherSuite>,
    new_cs: Seq<CipherSuite>,
    old_ex: Seq<ClientExtension>,
    new_ex: Seq<ClientExtension>,
    used: Seq<u16>,
) -> bool {
    exists|cg: Option<u16>, eg: Option<u16>| #[trigger] grease_step(pattern, level, previous, old_cs, new_cs, old_ex, new_ex, used, cg, eg)
}

/// Whether some value of `pool` is not in `avoid`.
fn any_outside(pool: &[u16], avoid: &[u16]) -> (r: bool)
    ensures
        r == exists|i: int| 0 <= i < pool@.len() && !avoid@.contains(#[trigger] pool@[i]),
{
    let mut i: usize = 0;
    while i < pool.len()
        invariant
            i <= pool@.len(),
            forall|j: int| 0 <= j < i ==> avoid@.contains(#[trigger] pool@[j]),
        decreases pool@.len() - i,
    {
        if !contains_value(avoid, pool[i]) {
            return true;
        }
        i = i + 1;
    }
    false
}

fn contains_value(s: &[u16], v: u16) -> (r: bool)
    ensures
        r == s@.contains(v),
{
    let mut i: usize = 0;
    while i < s.len()
        invariant
            i <= s@.len(),
            forall|j: int| 0 <= j < i ==> s@[j] != v,
        decreases s@.len() - i,
    {
        if s[i] == v {
            return true;
        }
        i = i + 1;
    }
    false
}

/// Over two connections to one target, the second GREASE value differs from the first
/// once the first is remembered, unless the pool holds a single value.
pub proof fn lemma_grease_varies(pool: Seq<u16>, first: u16, previous: Seq<u16>, second: u16)
    requires
        pool.contains(first),
        previous.contains(first),
        exists|i: int| 0 <= i < pool.len() && !previous.contains(#[trigger] pool[i]),
        !previous.contains(second),
    ensures
        first != second,
{
}

/// The position of `t` in a template's extension order: its first index, or the length
/// of the order when it does not occur.
pub open spec fn order_pos(order: Seq<ExtensionType>, t: ExtensionType) -> int
    decreases order.len(),
{
    if order.len() == 0 {
        0
    } else if order[0] == t {
        0
    } else {
        1 + order_pos(order.drop_first(), t)
    }
}

proof fn lemma_order_pos(order: Seq<ExtensionType>, t: ExtensionType)
    ensures
        0 <= order_pos(order, t) <= order.len(),
        order_pos(order, t) < order.len() ==> order[order_pos(order, t)] == t,
        forall|j: int| 0 <= j < order.len() && order[j] == t ==> order_pos(order, t) <= j,
    decreases order.len(),
{
    if order.len() > 0 && order[0] != t {
        lemma_order_pos(order.drop_first(), t);
        assert forall|j: int| 0 <= j < order.len() && order[j] == t implies order_pos(order, t) <= j by {
            assert(j > 0);
            assert(order.drop_first()[j - 1] == t);
        }
    }
}

/// The list follows the order: an extension never comes before one placed earlier in it,
/// and extensions absent from the order come last.
pub open spec fn follows_order(s: Seq<ClientExtension>, order: Seq<ExtensionType>) -> bool {
    forall|a: int, b: int| #![trigger s[a], s[b]] 0 <= a < b < s.len() ==> order_pos(order, s[a].ext_type) <= order_pos(order, s[b].ext_type)
}

/// Rearranges `extensions` into the template's extension order; extensions of one type keep
/// their relative order, and those the order does not name follow, in their relative order.
pub fn arrange_by_template(extensions: &mut Vec<ClientExtension>, order: &Vec<ExtensionType>)
    ensures
        final(extensions)@.to_multiset() == old(extensions)@.to_multiset(),
        follows_order(final(extensions)@, order@),
{
    let mut rest: Vec<ClientExtension> = Vec::new();
    std::mem::swap(extensions, &mut rest);
    let ghost orig = rest@;
    let mut out: Vec<ClientExtension> = Vec::new();
    let mut j: usize = 0;
    proof {
        assert forall|k: int| 0 <= k < rest@.len() implies order_pos(order@, (#[trigger] rest@[k]).ext_type) >= 0 by {
            lemma_order_pos(order@, rest@[k].ext_type);
        }
        assert(out@.to_multiset() =~= Multiset::empty());
        assert(rest@.to_multiset().add(out@.to_multiset()) =~= orig.to_multiset());
    }
    while j < order.len()
        invariant
            j <= order@.len(),
            rest@.to_multiset().add(out@.to_multiset()) == orig.to_multiset(),
            follows_order(out@, order@),
            forall|k: int| 0 <= k < out@.len() ==> order_pos(order@, (#[trigger] out@[k]).ext_type) < j,
            forall|k: int| 0 <= k < rest@.len() ==> order_pos(order@, (#[trigger] rest@[k]).ext_type) >= j,
        decreases order@.len() - j,
    {
        let t = order[j];
        let ghost out_before = out@.len();
        let mut i: usize = 0;
        while i < rest.len()
            invariant
                j < order@.len(),
                t == order@[j as int],
                i <= rest@.len(),
                out_before <= out@.len(),
                rest@.to_multiset().add(out@.to_multiset()) == orig.to_multiset(),
                follows_order(out@, order@),
                forall|k: int| 0 <= k < out@.len() ==> order_pos(order@, (#[trigger] out@[k]).ext_type) <= j,
                forall|k: int| 0 <= k < out_before ==> order_pos(order@, (#[trigger] out@[k]).ext_type) < j,
                forall|k: int| 0 <= k < rest@.len() ==> order_pos(order@, (#[trigger] rest@[k]).ext_type) >= j,
                forall|k: int| 0 <= k < i ==> (#[trigger] rest@[k]).ext_type != t,
            decreases rest@.len() - i,
        {
            if rest[i].ext_type == t {
                let ghost before = rest@;
                let ghost ob = out@;
                let e = rest.remove(i);
                proof {
                    lemma_order_pos(order@, e.ext_type);
                    assert(order_pos(order@, e.ext_type) == j);
                    assert(rest@.to_multiset() == before.to_multiset().remove(e));
                    assert(before.to_multiset().count(e) > 0);
                }
                out.push(e);
                proof {
                    assert(out@ == ob.push(e));
                    assert(rest@.to_multiset().add(out@.to_multiset()) =~= orig.to_multiset());
                    assert forall|a: int, b: int| #![trigger out@[a], out@[b]] 0 <= a < b < out@.len() implies order_pos(order@, out@[a].ext_type)
                        <= order_pos(order@, out@[b].ext_type) by {
                        if b < ob.len() {
                            assert(out@[a] == ob[a] && out@[b] == ob[b]);
                            assert(order_pos(order@, ob[a].ext_type) <= order_pos(order@, ob[b].ext_type));
                        } else {
                            assert(out@[a] == ob[a]);
                            assert(order_pos(order@, ob[a].ext_type) <= j);
                        }
                    }
                    assert forall|k: int| 0 <= k < out@.len() implies order_pos(order@, (#[trigger] out@[k]).ext_type) <= j by {
                        if k < ob.len() {
                            assert(out@[k] == ob[k]);
                        }
                    }
                    assert forall|k: int| 0 <= k < out_before implies order_pos(order@, (#[trigger] out@[k]).ext_type) < j by {
                        assert(out@[k] == ob[k]);
                    }
                    assert forall|k: int| 0 <= k < rest@.len() implies order_pos(order@, (#[trigger] rest@[k]).ext_type) >= j by {
                        if k < i {
                            assert(rest@[k] == before[k]);
                        } else {
                            assert(rest@[k] == before[k + 1]);
                        }
                    }
                    assert forall|k: int| 0 <= k < i implies (#[trigger] rest@[k]).ext_type != t by {
                        assert(rest@[k] == before[k]);
                    }
                }
            } else {
                i = i + 1;
            }
        }
        proof {
            assert forall|k: int| 0 <= k < rest@.len() implies order_pos(order@, (#[trigger] rest@[k]).ext_type) >= j + 1 by {
                lemma_order_pos(order@, rest@[k].ext_type);
                if order_pos(order@, rest@[k].ext_type) == j {
                    assert(order@[j as int] == rest@[k].ext_type);
                }
            }
        }
        j = j + 1;
    }
    let ghost ob = out@;
    let ghost rb = rest@;
    out.append(&mut rest);
    proof {
        assert(out@ == ob + rb);
        vstd::seq_lib::lemma_multiset_commutative(ob, rb);
        assert(out@.to_multiset() =~= orig.to_multiset());
        assert forall|a: int, b: int| #![trigger out@[a], out@[b]] 0 <= a < b < out@.len() implies order_pos(order@, out@[a].ext_type)
            <= order_pos(order@, out@[b].ext_type) by {
            if b < ob.len() {
                assert(out@[a] == ob[a] && out@[b] == ob[b]);
                assert(order_pos(order@, ob[a].ext_type) <= order_pos(order@, ob[b].ext_type));
            } else if a < ob.len() {
                assert(out@[a] == ob[a] && out@[b] == rb[b - ob.len()]);
                lemma_order_pos(order@, rb[b - ob.len()].ext_type);
            } else {
                assert(out@[a] == rb[a - ob.len()] && out@[b] == rb[b - ob.len()]);
                lemma_order_pos(order@, rb[a - ob.len()].ext_type);
                lemma_order_pos(order@, rb[b - ob.len()].ext_type);
            }
        }
    }
    *extensions = out;
}

/// The position of `t` in a template's cipher suite order: its first index, or the length
/// of the order when it does not occur.
pub open spec fn suite_pos(order: Seq<CipherSuite>, t: CipherSuite) -> int
    decreases order.len(),
{
    if order.len() == 0 {
        0
    } else if order[0] == t {
        0
    } else {
        1 + suite_pos(order.drop_first(), t)
    }
}

proof fn lemma_suite_pos(order: Seq<CipherSuite>, t: CipherSuite)
    ensures
        0 <= suite_pos(order, t) <= order.len(),
        suite_pos(order, t) < order.len() ==> order[suite_pos(order, t)] == t,
        forall|j: int| 0 <= j < order.len() && order[j] == t ==> suite_pos(order, t) <= j,
    decreases order.len(),
{
    if order.len() > 0 && order[0] != t {
        lemma_suite_pos(order.drop_first(), t);
        assert forall|j: int| 0 <= j < order.len() && order[j] == t implies suite_pos(order, t) <= j by {
            assert(j > 0);
            assert(order.drop_first()[j - 1] == t);
        }
    }
}

/// The list follows the order: a suite never comes before one placed earlier in it, and
/// suites absent from the order come last.
pub open spec fn follows_suite_order(s: Seq<CipherSuite>, order: Seq<CipherSuite>) -> bool {
    forall|a: int, b: int| #![trigger s[a], s[b]] 0 <= a < b < s.len() ==> suite_pos(order, s[a]) <= suite_pos(order, s[b])
}

/// Rearranges `suites` into the template's cipher suite order; suites the order does not
/// name follow, in their relative order.
pub fn arrange_suites_by_template(suites: &mut Vec<CipherSuite>, order: &Vec<CipherSuite>)
    ensures
        final(suites)@.to_multiset() == old(suites)@.to_multiset(),
        follows_suite_order(final(suites)@, order@),
{
    let mut rest: Vec<CipherSuite> = Vec::new();
    std::mem::swap(suites, &mut rest);
    let ghost orig = rest@;
    let mut out: Vec<CipherSuite> = Vec::new();
    let mut j: usize = 0;
    proof {
        assert forall|k: int| 0 <= k < rest@.len() implies suite_pos(order@, (#[trigger] rest@[k])) >= 0 by {
            lemma_suite_pos(order@, rest@[k]);
        }
        assert(out@.to_multiset() =~= Multiset::empty());
        assert(rest@.to_multiset().add(out@.to_multiset()) =~= orig.to_multiset());
    }
    while j < order.len()
        invariant
            j <= order@.len(),
            rest@.to_multiset().add(out@.to_multiset()) == orig.to_multiset(),
            follows_suite_order(out@, order@),
            forall|k: int| 0 <= k < out@.len() ==> suite_pos(order@, (#[trigger] out@[k])) < j,
            forall|k: int| 0 <= k < rest@.len() ==> suite_pos(order@, (#[trigger] rest@[k])) >= j,
        decreases order@.len() - j,
    {
        let t = order[j];
        let ghost out_before = out@.len();
        let mut i: usize = 0;
        while i < rest.len()
            invariant
                j < order@.len(),
                t == order@[j as int],
                i <= rest@.len(),
                out_before <= out@.len(),
                rest@.to_multiset().add(out@.to_multiset()) == orig.to_multiset(),
                follows_suite_order(out@, order@),
                forall|k: int| 0 <= k < out@.len() ==> suite_pos(order@, (#[trigger] out@[k])) <= j,
                forall|k: int| 0 <= k < out_before ==> suite_pos(order@, (#[trigger] out@[k])) < j,
                forall|k: int| 0 <= k < rest@.len() ==> suite_pos(order@, (#[trigger] rest@[k])) >= j,
                forall|k: int| 0 <= k < i ==> #[trigger] rest@[k] != t,
            decreases rest@.len() - i,
        {
            if rest[i] == t {
                let ghost before = rest@;
                let ghost ob = out@;
                let e = rest.remove(i);
                proof {
                    lemma_suite_pos(order@, e);
                    assert(suite_pos(order@, e) == j);
                    assert(rest@.to_multiset() == before.to_multiset().remove(e));
                    assert(before.to_multiset().count(e) > 0);
                }
                out.push(e);
                proof {
                    assert(out@ == ob.push(e));
                    assert(rest@.to_multiset().add(out@.to_multiset()) =~= orig.to_multiset());
                    assert forall|a: int, b: int| #![trigger out@[a], out@[b]] 0 <= a < b < out@.len() implies suite_pos(order@, out@[a])
                        <= suite_pos(order@, out@[b]) by {
                        if b < ob.len() {
                            assert(out@[a] == ob[a] && out@[b] == ob[b]);
                            assert(suite_pos(order@, ob[a]) <= suite_pos(order@, ob[b]));
                        } else {
                            assert(out@[a] == ob[a]);
                            assert(suite_pos(order@, ob[a]) <= j);
                        }
                    }
                    assert forall|k: int| 0 <= k < out@.len() implies suite_pos(order@, (#[trigger] out@[k])) <= j by {
                        if k < ob.len() {
                            assert(out@[k] == ob[k]);
                        }
                    }
                    assert forall|k: int| 0 <= k < out_before implies suite_pos(order@, (#[trigger] out@[k])) < j by {
                        assert(out@[k] == ob[k]);
                    }
                    assert forall|k: int| 0 <= k < rest@.len() implies suite_pos(order@, (#[trigger] rest@[k])) >= j by {
                        if k < i {
                            assert(rest@[k] == before[k]);
                        } else {
                            assert(rest@[k] == before[k + 1]);
                        }
                    }
                    assert forall|k: int| 0 <= k < i implies #[trigger] rest@[k] != t by {
                        assert(rest@[k] == before[k]);
                    }
                }
            } else {
                i = i + 1;
            }
        }
        proof {
            assert forall|k: int| 0 <= k < rest@.len() implies suite_pos(order@, (#[trigger] rest@[k])) >= j + 1 by {
                lemma_suite_pos(order@, rest@[k]);
                if suite_pos(order@, rest@[k]) == j {
                    assert(order@[j as int] == rest@[k]);
                }
            }
        }
        j = j + 1;
    }
    let ghost ob = out@;
    let ghost rb = rest@;
    out.append(&mut rest);
    proof {
        assert(out@ == ob + rb);
        vstd::seq_lib::lemma_multiset_commutative(ob, rb);
        assert(out@.to_multiset() =~= orig.to_multiset());
        assert forall|a: int, b: int| #![trigger out@[a], out@[b]] 0 <= a < b < out@.len() implies suite_pos(order@, out@[a])
            <= suite_pos(order@, out@[b]) by {
            if b < ob.len() {
                assert(out@[a] == ob[a] && out@[b] == ob[b]);
                assert(suite_pos(order@, ob[a]) <= suite_pos(order@, ob[b]));
            } else if a < ob.len() {
                assert(out@[a] == ob[a] && out@[b] == rb[b - ob.len()]);
                lemma_suite_pos(order@, rb[b - ob.len()]);
            } else {
                assert(out@[a] == rb[a - ob.len()] && out@[b] == rb[b - ob.len()]);
                lemma_suite_pos(order@, rb[a - ob.len()]);
                lemma_suite_pos(order@, rb[b - ob.len()]);
            }
        }
    }
    *suites = out;
}

} // verus!
