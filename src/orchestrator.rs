//! The default customizer: template choice and rotation, randomization, padding,
//! the per-target cache and the session tracker behind the four-phase contract.
use vstd::prelude::*;
use crate::config::{BrowserTemplate, CustlsConfig, RandomizationLevel, TemplateRotationPolicy, same_template};
use crate::error::Error;
use crate::extensions::{PaddingExtension, zeros};
use crate::hooks::{ClientExtension, ClientHelloPayload, ConfigParams, payload_wire};
use crate::randomizer::{BrowserRandomizer, arrange_by_template, arrange_suites_by_template, extension_types, follows_order, follows_suite_order, grease_done, grouped};
use crate::rng::SimpleRng;
use crate::security::{SessionId, SessionState, SessionStateTracker};
use crate::state::{ClientHelloConfig, FingerprintManager, TargetKey, copy_vec, push_all};
use crate::templates::{NaturalnessFilter, TemplateData, chrome_130, edge_130, firefox_135, safari_17, is_builtin, is_grease_value, template_valid};
use crate::types::{CipherSuite, ExtensionType};

verus! {

broadcast use vstd::seq_lib::group_to_multiset_ensures;

/// The odd multiplier that scrambles the connection counter.
pub const ROTATION_MULTIPLIER: u64 = 2654435761;

/// The four built-in templates, the rotation list when none is configured.
pub open spec fn builtin_rotation() -> Seq<BrowserTemplate> {
    seq![BrowserTemplate::Chrome130, BrowserTemplate::Firefox135, BrowserTemplate::Safari17, BrowserTemplate::Edge130]
}

/// The first position of a template with tag `tag`, or -1.
pub open spec fn first_with_tag(s: Seq<BrowserTemplate>, tag: int) -> int
    decreases s.len(),
{
    if s.len() == 0 {
        -1
    } else if s[0].tag() == tag {
        0
    } else {
        let r = first_with_tag(s.drop_first(), tag);
        if r < 0 { -1 } else { r + 1 }
    }
}

/// The position of the first template with `tag`, or `fallback`.
pub open spec fn pick_tag(s: Seq<BrowserTemplate>, tag: int, fallback: int) -> int {
    if first_with_tag(s, tag) >= 0 { first_with_tag(s, tag) } else { fallback }
}

/// The position chosen from a non-empty rotation list of `n` templates for connection `counter`.
pub open spec fn rotation_index(policy: TemplateRotationPolicy, s: Seq<BrowserTemplate>, counter: int) -> int {
    let n = s.len() as int;
    match policy {
        TemplateRotationPolicy::RoundRobin => counter % n,
        TemplateRotationPolicy::Random => (counter * ROTATION_MULTIPLIER) % n,
        TemplateRotationPolicy::WeightedRandom => {
            let w = (counter * ROTATION_MULTIPLIER) % 100;
            if w < 40 {
                pick_tag(s, 0, 0)
            } else if w < 65 {
                pick_tag(s, 1, 1int % n)
            } else if w < 85 {
                pick_tag(s, 2, 2int % n)
            } else {
                pick_tag(s, 3, 3int % n)
            }
        },
        TemplateRotationPolicy::Disabled => 0,
    }
}

/// Under round-robin, `n` consecutive connections over a list of `n` templates pick each
/// position exactly once, and the choice repeats with period `n`.
pub proof fn lemma_round_robin_uniform(counter: nat, s: Seq<BrowserTemplate>, k1: nat, k2: nat)
    requires
        s.len() > 0,
        k1 < s.len(),
        k2 < s.len(),
        k1 != k2,
    ensures
        rotation_index(TemplateRotationPolicy::RoundRobin, s, (counter + k1) as int)
            != rotation_index(TemplateRotationPolicy::RoundRobin, s, (counter + k2) as int),
        rotation_index(TemplateRotationPolicy::RoundRobin, s, (counter + s.len()) as int)
            == rotation_index(TemplateRotationPolicy::RoundRobin, s, counter as int),
{
    let n = s.len() as int;
    let c = counter as int;
    vstd::arithmetic::div_mod::lemma_mod_add_multiples_vanish(c, n);
    if (c + k1) % n == (c + k2) % n {
        vstd::arithmetic::div_mod::lemma_fundamental_div_mod(c + k1, n);
        vstd::arithmetic::div_mod::lemma_fundamental_div_mod(c + k2, n);
        let q1 = (c + k1) / n;
        let q2 = (c + k2) / n;
        assert(n * q1 - n * q2 == k1 - k2);
        assert(n * (q1 - q2) == k1 - k2) by (nonlinear_arith)
            requires n * q1 - n * q2 == k1 - k2;
        if q1 - q2 >= 1 {
            assert(n * (q1 - q2) >= n) by (nonlinear_arith)
                requires q1 - q2 >= 1, n > 0;
        } else if q1 - q2 <= -1 {
            assert(n * (q1 - q2) <= -n) by (nonlinear_arith)
                requires q1 - q2 <= -1, n > 0;
        }
    }
}

/// Under the random policy, two consecutive connections pick different positions of a list
/// of `n >= 2` templates, whenever the multiplier is not a multiple of `n`.
pub proof fn lemma_random_rotation_varies(counter: nat, s: Seq<BrowserTemplate>)
    requires
        s.len() >= 2,
        ROTATION_MULTIPLIER as int % s.len() as int != 0,
    ensures
        rotation_index(TemplateRotationPolicy::Random, s, counter as int)
            != rotation_index(TemplateRotationPolicy::Random, s, counter as int + 1),
{
    let n = s.len() as int;
    let k = ROTATION_MULTIPLIER as int;
    let a = counter as int * k;
    assert((counter + 1) * k == a + k) by (nonlinear_arith)
        requires a == counter as int * k;
    vstd::arithmetic::div_mod::lemma_fundamental_div_mod(a, n);
    vstd::arithmetic::div_mod::lemma_fundamental_div_mod(a + k, n);
    vstd::arithmetic::div_mod::lemma_fundamental_div_mod(k, n);
    vstd::arithmetic::div_mod::lemma_mod_bound(a, n);
    vstd::arithmetic::div_mod::lemma_mod_bound(a + k, n);
    vstd::arithmetic::div_mod::lemma_mod_bound(k, n);
    if a % n == (a + k) % n {
        let q1 = a / n;
        let q2 = (a + k) / n;
        let q3 = k / n;
        assert(n * (q2 - q1 - q3) == -(k % n)) by (nonlinear_arith)
            requires a == n * q1 + a % n, a + k == n * q2 + (a + k) % n, k == n * q3 + k % n, a % n == (a + k) % n;
        assert(0 < k % n < n);
        if q2 - q1 - q3 >= 0 {
            assert(n * (q2 - q1 - q3) >= 0) by (nonlinear_arith)
                requires q2 - q1 - q3 >= 0, n > 0;
        } else {
            assert(n * (q2 - q1 - q3) <= -n) by (nonlinear_arith)
                requires q2 - q1 - q3 <= -1, n > 0;
        }
    }
}

/// Under the random policy, over a list of distinct templates, two consecutive connections
/// use different templates, whenever the multiplier is not a multiple of the list length.
pub proof fn lemma_random_rotation_two_templates(counter: nat, s: Seq<BrowserTemplate>)
    requires
        s.len() >= 2,
        ROTATION_MULTIPLIER as int % s.len() as int != 0,
        forall|i: int, j: int| 0 <= i < j < s.len() ==> s[i] != s[j],
    ensures
        s[rotation_index(TemplateRotationPolicy::Random, s, counter as int)]
            != s[rotation_index(TemplateRotationPolicy::Random, s, counter as int + 1)],
        0 <= rotation_index(TemplateRotationPolicy::Random, s, counter as int) < s.len(),
        0 <= rotation_index(TemplateRotationPolicy::Random, s, counter as int + 1) < s.len(),
{
    lemma_random_rotation_varies(counter, s);
    let n = s.len() as int;
    vstd::arithmetic::div_mod::lemma_mod_bound(counter as int * ROTATION_MULTIPLIER as int, n);
    vstd::arithmetic::div_mod::lemma_mod_bound((counter as int + 1) * ROTATION_MULTIPLIER as int, n);
    let i1 = rotation_index(TemplateRotationPolicy::Random, s, counter as int);
    let i2 = rotation_index(TemplateRotationPolicy::Random, s, counter as int + 1);
    if i1 < i2 {
        assert(s[i1] != s[i2]);
    } else {
        assert(s[i2] != s[i1]);
    }
}

proof fn lemma_first_with_tag_found(s: Seq<BrowserTemplate>, tag: int)
    requires
        first_with_tag(s, tag) >= 0,
    ensures
        first_with_tag(s, tag) < s.len(),
        s[first_with_tag(s, tag)].tag() == tag,
    decreases s.len(),
{
    if s[0].tag() != tag {
        lemma_first_with_tag_found(s.drop_first(), tag);
    }
}

/// The weighted policy's bucket for a weight: 0 Chrome, 1 Firefox, 2 Safari, 3 Edge.
pub open spec fn weight_bucket(w: int) -> int {
    if w < 40 { 0 } else if w < 65 { 1 } else if w < 85 { 2 } else { 3 }
}

proof fn lemma_next_weight(counter: int)
    requires
        counter >= 0,
    ensures
        ((counter + 1) * ROTATION_MULTIPLIER) % 100 == ((counter * ROTATION_MULTIPLIER) % 100 + 61) % 100,
        0 <= (counter * ROTATION_MULTIPLIER) % 100 < 100,
{
    let k = ROTATION_MULTIPLIER as int;
    assert((counter + 1) * k == counter * k + k) by (nonlinear_arith);
    assert(k % 100 == 61);
    vstd::arithmetic::div_mod::lemma_add_mod_noop(counter * k, k, 100);
    vstd::arithmetic::div_mod::lemma_mod_bound(counter * k, 100);
}

proof fn lemma_bucket_changes(w: int)
    requires
        0 <= w < 100,
        w != 39,
    ensures
        weight_bucket(w) != weight_bucket((w + 61) % 100),
{
    if w + 61 < 100 {
        vstd::arithmetic::div_mod::lemma_small_mod((w + 61) as nat, 100);
    } else {
        vstd::arithmetic::div_mod::lemma_mod_add_multiples_vanish(w - 39, 100);
        vstd::arithmetic::div_mod::lemma_small_mod((w - 39) as nat, 100);
    }
}

/// Under the weighted policy, over a list holding all four built-in browsers, three
/// consecutive connections never all use the same template.
pub proof fn lemma_weighted_rotation_varies(counter: nat, s: Seq<BrowserTemplate>)
    requires
        forall|t: int| 0 <= t < 4 ==> #[trigger] first_with_tag(s, t) >= 0,
    ensures
        ({
            let p = TemplateRotationPolicy::WeightedRandom;
            let a = rotation_index(p, s, counter as int);
            let b = rotation_index(p, s, counter as int + 1);
            let c = rotation_index(p, s, counter as int + 2);
            &&& 0 <= a < s.len() && 0 <= b < s.len() && 0 <= c < s.len()
            &&& (s[a] != s[b] || s[b] != s[c])
        }),
{
    let k = ROTATION_MULTIPLIER as int;
    let c0 = counter as int;
    lemma_next_weight(c0);
    lemma_next_weight(c0 + 1);
    lemma_next_weight(c0 + 2);
    let w0 = (c0 * k) % 100;
    let w1 = ((c0 + 1) * k) % 100;
    let w2 = ((c0 + 2) * k) % 100;
    assert(c0 + 1 + 1 == c0 + 2);
    assert(forall|t: int| 0 <= t < 4 ==> pick_tag(s, t, 0) == first_with_tag(s, t));
    lemma_first_with_tag_found(s, 0);
    lemma_first_with_tag_found(s, 1);
    lemma_first_with_tag_found(s, 2);
    lemma_first_with_tag_found(s, 3);
    assert(s.len() > 0);
    if w0 != 39 {
        lemma_bucket_changes(w0);
    } else {
        vstd::arithmetic::div_mod::lemma_mod_self_0(100);
        assert(w1 == 0);
        lemma_bucket_changes(w1);
    }
}

fn first_with_tag_exec(s: &Vec<BrowserTemplate>, tag: u8) -> (r: Option<usize>)
    ensures
        match r {
            Some(i) => i as int == first_with_tag(s@, tag as int),
            None => first_with_tag(s@, tag as int) < 0,
        },
{
    let mut i: usize = 0;
    assert(s@.subrange(0, s@.len() as int) =~= s@);
    while i < s.len()
        invariant
            i <= s@.len(),
            first_with_tag(s@, tag as int) == if first_with_tag(s@.subrange(i as int, s@.len() as int), tag as int) < 0 {
                -1
            } else {
                first_with_tag(s@.subrange(i as int, s@.len() as int), tag as int) + i
            },
        decreases s@.len() - i,
    {
        proof {
            assert(s@.subrange(i as int, s@.len() as int).drop_first() =~= s@.subrange(i + 1, s@.len() as int));
        }
        let t: u8 = match &s[i] {
            BrowserTemplate::Chrome130 => 0,
            BrowserTemplate::Firefox135 => 1,
            BrowserTemplate::Safari17 => 2,
            BrowserTemplate::Edge130 => 3,
            BrowserTemplate::Custom(_) => 4,
        };
        if t == tag {
            return Some(i);
        }
        i = i + 1;
    }
    None
}

/// The data of a template; a custom template falls back to Chrome's data.
pub fn resolve_template(template: &BrowserTemplate) -> (r: TemplateData)
    ensures
        is_builtin(r, template.tag()),
{
    match template {
        BrowserTemplate::Chrome130 => chrome_130(),
        BrowserTemplate::Firefox135 => firefox_135(),
        BrowserTemplate::Safari17 => safari_17(),
        BrowserTemplate::Edge130 => edge_130(),
        BrowserTemplate::Custom(_) => chrome_130(),
    }
}

/// The extensions in the template's order, a trailing pre-shared key of `old_ex` kept last.
pub open spec fn in_template_order(oe: Seq<ClientExtension>, order: Seq<ExtensionType>, old_ex: Seq<ClientExtension>) -> bool {
    if old_ex.len() > 0 && old_ex.last().ext_type == ExtensionType::PreSharedKey {
        oe.len() > 0 && oe.last() == old_ex.last() && follows_order(oe.drop_last(), order)
    } else {
        follows_order(oe, order)
    }
}

/// Phase 2 through the intermediate lists: `mc` the suites in template order, `oe` the
/// extensions in template order, `me` the extensions after grouping.
pub open spec fn phase_two_via(
    t: TemplateData,
    level: RandomizationLevel,
    previous: Seq<u16>,
    old_cs: Seq<CipherSuite>,
    old_ex: Seq<ClientExtension>,
    new_cs: Seq<CipherSuite>,
    new_ex: Seq<ClientExtension>,
    grease: Seq<u16>,
    mc: Seq<CipherSuite>,
    me: Seq<ClientExtension>,
    oe: Seq<ClientExtension>,
) -> bool {
    &&& mc.to_multiset() == old_cs.to_multiset()
    &&& follows_suite_order(mc, t.cipher_suites@)
    &&& oe.to_multiset() == old_ex.to_multiset()
    &&& in_template_order(oe, t.extension_order@, old_ex)
    &&& level == RandomizationLevel::Disabled ==> new_cs == mc && new_ex == oe && grease.len() == 0
    &&& level != RandomizationLevel::Disabled ==> {
        &&& me.to_multiset() == old_ex.to_multiset()
        &&& grouped(me)
        &&& grease_done(t.grease_pattern, level, previous, mc, new_cs, me, new_ex, grease)
    }
}

/// What phase 2 does with template `t` (nothing without one), at `level`, given the peer's
/// recent GREASE values `previous`, injecting `grease`.
pub open spec fn phase_two(
    t: Option<TemplateData>,
    level: RandomizationLevel,
    previous: Seq<u16>,
    old_cs: Seq<CipherSuite>,
    old_ex: Seq<ClientExtension>,
    new_cs: Seq<CipherSuite>,
    new_ex: Seq<ClientExtension>,
    grease: Seq<u16>,
) -> bool {
    match t {
        None => new_cs == old_cs && new_ex == old_ex && grease.len() == 0,
        Some(t) => exists|mc: Seq<CipherSuite>, me: Seq<ClientExtension>, oe: Seq<ClientExtension>|
            #[trigger] phase_two_via(t, level, previous, old_cs, old_ex, new_cs, new_ex, grease, mc, me, oe),
    }
}

/// Where phase 3 puts the padding extension: before a trailing pre-shared key, else last.
pub open spec fn padding_index(ex: Seq<ClientExtension>) -> int {
    if ex.len() > 0 && ex.last().ext_type == ExtensionType::PreSharedKey { ex.len() - 1 } else { ex.len() as int }
}

/// What phase 3 does with template `t` (nothing without one): a padding extension of
/// `padding` zero bytes inserted at `padding_index`, the length drawn as the level says.
pub open spec fn phase_three(t: Option<TemplateData>, level: RandomizationLevel, old_ex: Seq<ClientExtension>, new_ex: Seq<ClientExtension>, padding: u16) -> bool {
    match t {
        None => new_ex == old_ex,
        Some(t) => {
            let k = padding_index(old_ex);
            let d = t.padding_distribution;
            &&& new_ex.len() == old_ex.len() + 1
            &&& new_ex.remove(k) == old_ex
            &&& new_ex[k].ext_type == ExtensionType::Padding
            &&& new_ex[k].data@ == zeros(padding as nat)
            &&& level != RandomizationLevel::Disabled && d.min_length <= d.max_length ==> d.min_length <= padding <= d.max_length
            &&& level == RandomizationLevel::Disabled ==> padding == if d.pmf@.len() > 0 { d.pmf@[0].0 } else { 0 }
        },
    }
}

/// The four phases over the host's lists: phase 2 turns them into `cs2` and `ex2`, the
/// payload holds `cs2`, and its extensions are `ex2` as phase 3 left them.
pub open spec fn built(
    t: Option<TemplateData>,
    level: RandomizationLevel,
    old_cs: Seq<CipherSuite>,
    old_ex: Seq<ClientExtension>,
    p: ClientHelloPayload,
    cs2: Seq<CipherSuite>,
    ex2: Seq<ClientExtension>,
    prev: Seq<u16>,
    grease: Seq<u16>,
    pad: u16,
) -> bool {
    &&& phase_two(t, level, prev, old_cs, old_ex, cs2, ex2, grease)
    &&& p.cipher_suites@ == cs2
    &&& phase_three(t, level, ex2, p.extensions@, pad)
}

/// The default customizer.
pub struct DefaultCustomizer {
    config: CustlsConfig,
    template: Option<TemplateData>,
    randomizer: BrowserRandomizer,
    cache: Option<FingerprintManager>,
    session_tracker: Option<SessionStateTracker>,
    connection_counter: usize,
    active: Option<BrowserTemplate>,
    target: Option<TargetKey>,
    jitter_rng: SimpleRng,
    realized: Option<ClientHelloConfig>,
    working: Option<ClientHelloConfig>,
    active_data: Option<TemplateData>,
    grease: Vec<u16>,
}

impl DefaultCustomizer {
    pub closed spec fn spec_config(&self) -> CustlsConfig {
        self.config
    }

    /// The per-target cache, when enabled.
    pub closed spec fn spec_cache(&self) -> Option<FingerprintManager> {
        self.cache
    }

    /// The session tracker, present with the cache.
    pub closed spec fn spec_tracker(&self) -> Option<SessionStateTracker> {
        self.session_tracker
    }

    /// Whether this customizer keeps a cache and a session tracker.
    pub fn has_cache(&self) -> (r: bool)
        requires
            self.wf(),
        ensures
            r == self.spec_cache() is Some,
            r == self.spec_tracker() is Some,
    {
        self.cache.is_some()
    }

    /// The working fingerprint found in the cache by the last phase 1.
    pub closed spec fn spec_working(&self) -> Option<ClientHelloConfig> {
        self.working
    }

    /// The working fingerprint found in the cache for this connection's peer, if any.
    pub fn working_fingerprint(&self) -> (r: Option<&ClientHelloConfig>)
        ensures
            r is Some == self.spec_working() is Some,
            r matches Some(c) ==> *c == self.spec_working().unwrap(),
    {
        match &self.working {
            Some(c) => Some(c),
            None => None,
        }
    }

    /// The data of the template this connection uses: the one picked by phase 1, or the
    /// configured one before any phase 1.
    pub closed spec fn spec_active_data(&self) -> Option<TemplateData> {
        self.active_data
    }

    /// The peer noted by the last phase 1.
    pub closed spec fn spec_target(&self) -> Option<TargetKey> {
        self.target
    }

    /// The GREASE values injected by the last phase 2, cipher suite first.
    pub closed spec fn spec_grease(&self) -> Seq<u16> {
        self.grease@
    }

    /// The configuration recorded by the last phase 3.
    pub closed spec fn spec_realized(&self) -> Option<ClientHelloConfig> {
        self.realized
    }

    /// The GREASE values recently used for the noted peer, oldest first.
    pub open spec fn recent_grease(&self) -> Seq<u16> {
        if self.spec_cache() is Some && self.spec_target() is Some
            && self.spec_cache().unwrap().view().contains_key(self.spec_target().unwrap()@) {
            self.spec_cache().unwrap().view()[self.spec_target().unwrap()@].previous_grease_values@
        } else {
            Seq::empty()
        }
    }

    pub closed spec fn spec_counter(&self) -> usize {
        self.connection_counter
    }

    /// The template chosen by the last phase 1.
    pub closed spec fn spec_active(&self) -> Option<BrowserTemplate> {
        self.active
    }

    pub closed spec fn wf(&self) -> bool {
        &&& self.cache is Some == self.config.enable_cache
        &&& self.session_tracker is Some == self.config.enable_cache
        &&& (self.cache matches Some(c) ==> c.wf())
        &&& (self.session_tracker matches Some(t) ==> t.wf())
        &&& (self.template matches Some(t) ==> is_builtin(t, self.config.template.unwrap().tag()))
        &&& self.template is Some == self.config.template is Some
        &&& (self.active_data matches Some(t) ==> template_valid(t))
        &&& self.randomizer.spec_level() == self.config.randomization_level
    }

    /// The rotation list in use: the configured one, or the four built-in templates.
    pub open spec fn rotation_list(&self) -> Seq<BrowserTemplate> {
        if self.spec_config().rotation_templates@.len() == 0 {
            builtin_rotation()
        } else {
            self.spec_config().rotation_templates@
        }
    }

    /// A customizer for `config`; the cache and session tracker exist when it enables them.
    pub fn new(config: CustlsConfig) -> (r: Self)
        ensures
            r.wf(),
            r.spec_config() == config,
            r.spec_counter() == 0,
            r.spec_cache() is Some == config.enable_cache,
            r.spec_tracker() is Some == config.enable_cache,
            r.spec_active_data() is Some == config.template is Some,
            r.spec_active_data() matches Some(d) ==> is_builtin(d, config.template.unwrap().tag()),
            r.spec_grease().len() == 0,
    {
        let template = match &config.template {
            Some(t) => Some(resolve_template(t)),
            None => None,
        };
        let active_data = match &config.template {
            Some(t) => Some(resolve_template(t)),
            None => None,
        };
        let randomizer = BrowserRandomizer::new(config.randomization_level, NaturalnessFilter::default());
        let cache = if config.enable_cache { Some(FingerprintManager::new(config.max_cache_size)) } else { None };
        let session_tracker = if config.enable_cache {
            Some(SessionStateTracker::new(config.max_cache_size))
        } else {
            None
        };
        DefaultCustomizer {
            config,
            template,
            randomizer,
            cache,
            session_tracker,
            connection_counter: 0,
            active: None,
            target: None,
            jitter_rng: SimpleRng::new(),
            realized: None,
            working: None,
            active_data,
            grease: Vec::new(),
        }
    }

    /// A shared handle to a new customizer.
    pub fn new_arc(config: CustlsConfig) -> (r: std::sync::Arc<Self>)
        ensures
            r.wf(),
            r.spec_config() == config,
    {
        std::sync::Arc::new(DefaultCustomizer::new(config))
    }

    pub fn config(&self) -> (r: &CustlsConfig)
        ensures
            *r == self.spec_config(),
    {
        &self.config
    }

    /// The data of the configured template, if any.
    pub fn template(&self) -> (r: Option<&TemplateData>)
        requires
            self.wf(),
        ensures
            r is Some == self.spec_config().template is Some,
            r matches Some(t) ==> is_builtin(*t, self.spec_config().template.unwrap().tag()),
    {
        match &self.template {
            Some(t) => Some(t),
            None => None,
        }
    }

    /// The ClientHello configuration realized by the last phase 3.
    pub fn realized_config(&self) -> (r: Option<&ClientHelloConfig>)
        ensures
            r is Some == self.spec_realized() is Some,
            r matches Some(c) ==> *c == self.spec_realized().unwrap(),
    {
        match &self.realized {
            Some(c) => Some(c),
            None => None,
        }
    }

    /// Picks the template for the next connection. Under a rotation policy the connection
    /// counter advances and the pick follows the policy over the rotation list; without
    /// one the configured template is returned.
    pub fn select_rotated_template(&mut self) -> (r: Option<BrowserTemplate>)
        requires
            old(self).wf(),
        ensures
            final(self).wf(),
            final(self).spec_config() == old(self).spec_config(),
            final(self).spec_active() == old(self).spec_active(),
            final(self).spec_cache() == old(self).spec_cache(),
            final(self).spec_tracker() == old(self).spec_tracker(),
            final(self).spec_active_data() == old(self).spec_active_data(),
            final(self).spec_target() == old(self).spec_target(),
            final(self).spec_grease() == old(self).spec_grease(),
            old(self).spec_config().rotation_policy == TemplateRotationPolicy::Disabled ==> {
                &&& final(self).spec_counter() == old(self).spec_counter()
                &&& r is Some == old(self).spec_config().template is Some
                &&& r matches Some(t) ==> same_template(t, old(self).spec_config().template.unwrap())
            },
            old(self).spec_config().rotation_policy != TemplateRotationPolicy::Disabled ==> {
                let s = old(self).rotation_list();
                let i = rotation_index(old(self).spec_config().rotation_policy, s, old(self).spec_counter() as int);
                &&& final(self).spec_counter() == if old(self).spec_counter() == usize::MAX { 0 } else { old(self).spec_counter() + 1 }
                &&& 0 <= i < s.len()
                &&& r matches Some(t) && same_template(t, s[i])
            },
    {
        if self.config.rotation_policy == TemplateRotationPolicy::Disabled {
            return match &self.config.template {
                Some(t) => Some(t.duplicate()),
                None => None,
            };
        }
        let counter = self.connection_counter;
        self.connection_counter = if counter == usize::MAX { 0 } else { counter + 1 };
        let defaults: Vec<BrowserTemplate> = vec![
            BrowserTemplate::Chrome130,
            BrowserTemplate::Firefox135,
            BrowserTemplate::Safari17,
            BrowserTemplate::Edge130,
        ];
        let list: &Vec<BrowserTemplate> = if self.config.rotation_templates.len() == 0 {
            &defaults
        } else {
            &self.config.rotation_templates
        };
        proof {
            if self.config.rotation_templates@.len() == 0 {
                assert(defaults@ =~= builtin_rotation());
            }
        }
        let n = list.len();
        let scrambled: u128 = counter as u128 * ROTATION_MULTIPLIER as u128;
        let idx: usize = match self.config.rotation_policy {
            TemplateRotationPolicy::RoundRobin => counter % n,
            TemplateRotationPolicy::Random => (scrambled % n as u128) as usize,
            TemplateRotationPolicy::WeightedRandom => {
                let w = scrambled % 100;
                if w < 40 {
                    match first_with_tag_exec(list, 0) { Some(i) => i, None => 0 }
                } else if w < 65 {
                    match first_with_tag_exec(list, 1) { Some(i) => i, None => 1 % n }
                } else if w < 85 {
                    match first_with_tag_exec(list, 2) { Some(i) => i, None => 2 % n }
                } else {
                    match first_with_tag_exec(list, 3) { Some(i) => i, None => 3 % n }
                }
            },
            TemplateRotationPolicy::Disabled => 0,
        };
        proof {
            assert(idx as int == rotation_index(self.config.rotation_policy, list@, counter as int));
            lemma_first_with_tag_bound(list@, 0);
            lemma_first_with_tag_bound(list@, 1);
            lemma_first_with_tag_bound(list@, 2);
            lemma_first_with_tag_bound(list@, 3);
        }
        Some(list[idx].duplicate())
    }

    /// Phase 1: picks the template for this connection, notes the peer and looks up the
    /// peer's working fingerprint in the cache, which marks it as just used.
    pub fn on_config_resolve(&mut self, params: &mut ConfigParams) -> (r: Result<(), Error>)
        requires
            old(self).wf(),
        ensures
            final(self).wf(),
            r is Ok,
            final(self).spec_config() == old(self).spec_config(),
            final(self).spec_active() is Some == final(params).template is Some,
            final(self).spec_active() matches Some(t) ==> same_template(t, final(params).template.unwrap()),
            final(self).spec_active_data() is Some == final(params).template is Some,
            final(self).spec_active_data() matches Some(d) ==> is_builtin(d, final(params).template.unwrap().tag()),
            final(self).spec_target() is Some == old(params).target is Some,
            final(self).spec_target() matches Some(t) ==> t@ == old(params).target.unwrap()@,
            final(self).spec_grease() == old(self).spec_grease(),
            final(params).target == old(params).target,
            old(self).spec_config().rotation_policy == TemplateRotationPolicy::Disabled ==> {
                &&& final(self).spec_counter() == old(self).spec_counter()
                &&& final(params).template is Some == old(self).spec_config().template is Some
                &&& final(params).template matches Some(t) ==> same_template(t, old(self).spec_config().template.unwrap())
            },
            old(self).spec_config().rotation_policy != TemplateRotationPolicy::Disabled ==> {
                let s = old(self).rotation_list();
                let i = rotation_index(old(self).spec_config().rotation_policy, s, old(self).spec_counter() as int);
                &&& 0 <= i < s.len()
                &&& final(params).template matches Some(t) && same_template(t, s[i])
                &&& final(self).spec_counter() == if old(self).spec_counter() == usize::MAX { 0 } else { old(self).spec_counter() + 1 }
            },
            final(self).spec_working() is Some == (old(self).spec_cache() matches Some(c)
                && old(params).target matches Some(t) && c.view().contains_key(t@)),
            final(self).spec_working() matches Some(w) ==> old(self).spec_cache() matches Some(c)
                && old(params).target matches Some(t) && crate::state::same_config(w, c.view()[t@].config),
    {
        let chosen = self.select_rotated_template();
        params.template = match &chosen {
            Some(t) => Some(t.duplicate()),
            None => None,
        };
        self.active_data = match &chosen {
            Some(t) => Some(resolve_template(t)),
            None => None,
        };
        self.active = chosen;
        self.target = match &params.target {
            Some(t) => Some(t.duplicate()),
            None => None,
        };
        self.working = match (&mut self.cache, &params.target) {
            (Some(c), Some(t)) => c.get_working_fingerprint(t),
            _ => None,
        };
        Ok(())
    }

    /// How long to wait at a hook boundary, if timing jitter is configured and fires.
    pub fn jitter_delay(&mut self) -> (r: Option<u64>)
        requires
            old(self).wf(),
        ensures
            final(self).wf(),
            final(self).spec_config() == old(self).spec_config(),
            final(self).spec_active() == old(self).spec_active(),
            old(self).spec_config().timing_jitter is None ==> r is None,
            r matches Some(d) ==> old(self).spec_config().timing_jitter matches Some(j)
                && j.valid() && j.min_delay_micros <= d <= j.max_delay_micros,
            old(self).spec_config().timing_jitter matches Some(j) && j.valid() && j.apply_probability >= 1000 ==> r is Some,
    {
        match &self.config.timing_jitter {
            Some(j) => {
                if j.min_delay_micros <= j.max_delay_micros && j.apply_probability <= 1000 {
                    j.delay(&mut self.jitter_rng)
                } else {
                    None
                }
            },
            None => None,
        }
    }

    /// Phase 2: with an active template, puts the cipher suites and the extensions in the
    /// template's order (a trailing pre-shared key stays last); then, at a level other than
    /// `Disabled`, reorders the extensions into their groups and injects GREASE, avoiding the
    /// values recently used for the peer and remembering the new ones for that peer.
    pub fn on_components_ready(&mut self, cipher_suites: &mut Vec<CipherSuite>, extensions: &mut Vec<ClientExtension>) -> (r: Result<(), Error>)
        requires
            old(self).wf(),
        ensures
            final(self).wf(),
            r is Ok,
            final(self).spec_config() == old(self).spec_config(),
            final(self).spec_active() == old(self).spec_active(),
            final(self).spec_active_data() == old(self).spec_active_data(),
            final(self).spec_target() == old(self).spec_target(),
            final(self).spec_counter() == old(self).spec_counter(),
            final(self).spec_tracker() == old(self).spec_tracker(),
            final(self).spec_cache() is Some == old(self).spec_cache() is Some,
            phase_two(old(self).spec_active_data(), old(self).spec_config().randomization_level, old(self).recent_grease(),
                old(cipher_suites)@, old(extensions)@, final(cipher_suites)@, final(extensions)@, final(self).spec_grease()),
            old(self).spec_cache() matches Some(c0) ==> final(self).spec_cache().unwrap().view().dom() == c0.view().dom(),
            old(self).spec_cache() is Some && old(self).spec_target() is Some
                && old(self).spec_cache().unwrap().view().contains_key(old(self).spec_target().unwrap()@)
                ==> final(self).recent_grease() == push_all(old(self).recent_grease(), final(self).spec_grease()),
            old(extensions)@.len() > 0 && old(extensions)@.last().ext_type == ExtensionType::PreSharedKey
                ==> final(extensions)@.len() > 0 && final(extensions)@.last().ext_type == ExtensionType::PreSharedKey,
    {
        let ghost prev = self.recent_grease();
        let template = match &self.active_data {
            Some(t) => t,
            None => {
                self.grease = Vec::new();
                return Ok(());
            },
        };
        let ghost old_cs = cipher_suites@;
        let ghost old_ex = extensions@;
        arrange_suites_by_template(cipher_suites, &template.cipher_suites);
        let ghost mc = cipher_suites@;
        let n = extensions.len();
        let psk_last = n > 0 && matches!(extensions[n - 1].ext_type, ExtensionType::PreSharedKey);
        let tail = if psk_last { extensions.pop() } else { None };
        let ghost body = extensions@;
        arrange_by_template(extensions, &template.extension_order);
        match tail {
            Some(e) => {
                let ghost arranged = extensions@;
                extensions.push(e);
                proof {
                    assert(old_ex =~= body.push(e));
                    assert(extensions@.to_multiset() =~= arranged.to_multiset().insert(e));
                    assert(extensions@.drop_last() =~= arranged);
                }
            },
            None => {
                assert(old_ex =~= body);
            },
        }
        let ghost oe = extensions@;
        assert(in_template_order(oe, template.extension_order@, old_ex));
        if self.randomizer.level() == RandomizationLevel::Disabled {
            self.grease = Vec::new();
            assert(phase_two_via(*template, self.config.randomization_level, prev, old_cs, old_ex,
                cipher_suites@, extensions@, self.grease@, mc, oe, oe));
            return Ok(());
        }
        let _ = self.randomizer.shuffle_extensions(extensions, template);
        let ghost me = extensions@;
        proof {
            if old_ex.len() > 0 && old_ex.last().ext_type == ExtensionType::PreSharedKey {
                assert(me.to_multiset().count(old_ex.last()) > 0);
                assert(me.contains(old_ex.last()));
                let i = choose|i: int| 0 <= i < me.len() && me[i] == old_ex.last();
                crate::randomizer::lemma_psk_last(me, i);
            }
        }
        let previous: Vec<u16> = match (&self.cache, &self.target) {
            (Some(c), Some(t)) => c.get_previous_grease_values(t),
            _ => Vec::new(),
        };
        assert(previous@ == prev);
        let used = match self.randomizer.inject_grease(cipher_suites, extensions, template, previous.as_slice()) {
            Ok(u) => u,
            Err(e) => { return Err(e); },
        };
        let ghost fin_cs = cipher_suites@;
        let ghost fin_ex = extensions@;
        assert(phase_two_via(*template, self.config.randomization_level, prev, old_cs, old_ex,
            fin_cs, fin_ex, used@, mc, me, oe));
        match (&mut self.cache, &self.target) {
            (Some(c), Some(t)) => {
                let ghost c0 = *c;
                let mut i: usize = 0;
                while i < used.len()
                    invariant
                        c.wf(),
                        i <= used@.len(),
                        c.view().dom() == c0.view().dom(),
                        c0.view().contains_key(t@) ==> c.view()[t@].previous_grease_values@
                            == push_all(c0.view()[t@].previous_grease_values@, used@.subrange(0, i as int)),
                    decreases used@.len() - i,
                {
                    c.track_grease_value(t, used[i]);
                    proof {
                        assert(used@.subrange(0, i + 1).drop_last() =~= used@.subrange(0, i as int));
                    }
                    i = i + 1;
                }
                assert(used@.subrange(0, used@.len() as int) =~= used@);
            },
            _ => {},
        }
        self.grease = used;
        Ok(())
    }

    /// Phase 3: with an active template, draws a padding length (avoiding the peer's recent
    /// lengths), inserts a padding extension of that many zero bytes before a trailing
    /// pre-shared key (else at the end), remembers the length for the peer and records the
    /// realized configuration.
    pub fn on_struct_ready(&mut self, payload: &mut ClientHelloPayload) -> (r: Result<(), Error>)
        requires
            old(self).wf(),
        ensures
            final(self).wf(),
            r is Ok,
            final(self).spec_config() == old(self).spec_config(),
            final(self).spec_active() == old(self).spec_active(),
            final(self).spec_active_data() == old(self).spec_active_data(),
            final(self).spec_target() == old(self).spec_target(),
            final(self).spec_counter() == old(self).spec_counter(),
            final(self).spec_grease() == old(self).spec_grease(),
            final(self).spec_tracker() == old(self).spec_tracker(),
            final(self).spec_cache() is Some == old(self).spec_cache() is Some,
            final(payload).cipher_suites == old(payload).cipher_suites,
            old(self).spec_active_data() is None ==> final(payload).extensions@ == old(payload).extensions@,
            old(self).spec_active_data() is Some ==> (final(self).spec_realized() matches Some(c)
                && phase_three(old(self).spec_active_data(), old(self).spec_config().randomization_level,
                    old(payload).extensions@, final(payload).extensions@, c.padding_length)
                && c.cipher_suites@ == final(payload).cipher_suites@
                && c.extension_order@ == crate::randomizer::types_of(final(payload).extensions@)),
            old(payload).extensions@.len() > 0 && old(payload).extensions@.last().ext_type == ExtensionType::PreSharedKey
                ==> final(payload).extensions@.last().ext_type == ExtensionType::PreSharedKey,
    {
        let template = match &self.active_data {
            Some(t) => t,
            None => { return Ok(()); },
        };
        let previous: Vec<u16> = match (&self.cache, &self.target) {
            (Some(c), Some(t)) => c.get_previous_padding_lengths(t),
            _ => Vec::new(),
        };
        let len = self.randomizer.generate_padding_len(template, previous.as_slice());
        let mut data: Vec<u8> = Vec::new();
        PaddingExtension::new(len).encode(&mut data);
        assert(data@ =~= zeros(len as nat));
        let ext = ClientExtension { ext_type: ExtensionType::Padding, data };
        let n = payload.extensions.len();
        let k = if n > 0 && matches!(payload.extensions[n - 1].ext_type, ExtensionType::PreSharedKey) { n - 1 } else { n };
        let ghost before = payload.extensions@;
        let ghost ev = ext;
        payload.extensions.insert(k, ext);
        proof {
            assert(payload.extensions@[k as int] == ev);
            assert(payload.extensions@.remove(k as int) =~= before);
            if n > 0 && before.last().ext_type == ExtensionType::PreSharedKey {
                assert(payload.extensions@.last() == before.last());
            }
        }
        match (&mut self.cache, &self.target) {
            (Some(c), Some(t)) => c.track_padding_length(t, len),
            _ => {},
        }
        let chosen = match &self.active {
            Some(t) => t.duplicate(),
            None => match &self.config.template {
                Some(t) => t.duplicate(),
                None => BrowserTemplate::Chrome130,
            },
        };
        let types = extension_types(&payload.extensions);
        let mut extension_data: Vec<(ExtensionType, Vec<u8>)> = Vec::new();
        let mut grease_extension_positions: Vec<usize> = Vec::new();
        let mut j: usize = 0;
        while j < payload.extensions.len()
            invariant
                j <= payload.extensions@.len(),
            decreases payload.extensions@.len() - j,
        {
            let e = &payload.extensions[j];
            extension_data.push((e.ext_type, copy_vec(&e.data)));
            if let ExtensionType::Unknown(v) = e.ext_type {
                if is_grease_value(v) {
                    grease_extension_positions.push(j);
                }
            }
            j = j + 1;
        }
        let mut grease_cipher_positions: Vec<usize> = Vec::new();
        let mut j: usize = 0;
        while j < payload.cipher_suites.len()
            invariant
                j <= payload.cipher_suites@.len(),
            decreases payload.cipher_suites@.len() - j,
        {
            if is_grease_value(payload.cipher_suites[j].0) {
                grease_cipher_positions.push(j);
            }
            j = j + 1;
        }
        self.realized = Some(ClientHelloConfig {
            template: chosen,
            cipher_suites: copy_vec(&payload.cipher_suites),
            extension_order: types,
            extension_data,
            grease_cipher_positions,
            grease_extension_positions,
            padding_length: len,
            random_seed: self.randomizer.seed_state(),
            supported_groups: copy_vec(&template.supported_groups),
            signature_algorithms: copy_vec(&template.signature_algorithms),
        });
        Ok(())
    }

    /// Phase 4: the bytes pass through unchanged.
    pub fn transform_wire_bytes(&self, bytes: Vec<u8>) -> (r: Result<Vec<u8>, Error>)
        ensures
            r == Ok::<Vec<u8>, Error>(bytes),
    {
        Ok(bytes)
    }

    /// Runs the four phases in order over the host's lists: the payload that phase 3 sees is
    /// built from the lists as phase 2 left them, and the bytes are the marshaled payload as
    /// phase 3 left it, passed through phase 4. Returns the final payload and its bytes.
    pub fn build_client_hello(
        &mut self,
        params: &mut ConfigParams,
        cipher_suites: Vec<CipherSuite>,
        extensions: Vec<ClientExtension>,
    ) -> (r: Result<(ClientHelloPayload, Vec<u8>), Error>)
        requires
            old(self).wf(),
        ensures
            final(self).wf(),
            final(self).spec_config() == old(self).spec_config(),
            r is Ok,
            r matches Ok((p, bytes)) && bytes@ == payload_wire(p),
            r matches Ok((p, _)) ==> (extensions@.len() > 0 && extensions@.last().ext_type == ExtensionType::PreSharedKey
                ==> p.extensions@.last().ext_type == ExtensionType::PreSharedKey),
            final(self).spec_active_data() is Some == final(params).template is Some,
            final(self).spec_active_data() matches Some(d) ==> is_builtin(d, final(params).template.unwrap().tag()),
            r matches Ok((p, _)) ==> exists|cs2: Seq<CipherSuite>, ex2: Seq<ClientExtension>, prev: Seq<u16>, grease: Seq<u16>, pad: u16|
                #[trigger] built(final(self).spec_active_data(), final(self).spec_config().randomization_level,
                    cipher_suites@, extensions@, p, cs2, ex2, prev, grease, pad),
    {
        match self.on_config_resolve(params) {
            Ok(()) => {},
            Err(e) => { return Err(e); },
        }
        let ghost prev = self.recent_grease();
        let ghost in_cs = cipher_suites@;
        let ghost in_ex = extensions@;
        let mut suites = cipher_suites;
        let mut exts = extensions;
        match self.on_components_ready(&mut suites, &mut exts) {
            Ok(()) => {},
            Err(e) => { return Err(e); },
        }
        let ghost cs2 = suites@;
        let ghost ex2 = exts@;
        let ghost grease = self.spec_grease();
        let mut payload = ClientHelloPayload { cipher_suites: suites, extensions: exts };
        match self.on_struct_ready(&mut payload) {
            Ok(()) => {},
            Err(e) => { return Err(e); },
        }
        let ghost pad: u16 = match self.spec_realized() {
            Some(c) => c.padding_length,
            None => 0,
        };
        let encoded = payload.encode();
        proof {
            assert(built(self.spec_active_data(), self.spec_config().randomization_level,
                in_cs, in_ex, payload, cs2, ex2, prev, grease, pad));
        }
        match self.transform_wire_bytes(encoded) {
            Ok(bytes) => Ok((payload, bytes)),
            Err(e) => Err(e),
        }
    }

    /// Records a handshake outcome in the cache, when there is one.
    pub fn record_handshake_result(&mut self, target: &TargetKey, config: ClientHelloConfig, success: bool)
        requires
            old(self).wf(),
        ensures
            final(self).wf(),
            final(self).spec_config() == old(self).spec_config(),
            final(self).spec_active() == old(self).spec_active(),
            final(self).spec_tracker() == old(self).spec_tracker(),
            old(self).spec_cache() is None ==> final(self).spec_cache() is None,
            old(self).spec_cache() matches Some(c0) ==> final(self).spec_cache() matches Some(c1)
                && (c0.spec_max_size() > 0 ==> c1.view().contains_key(target@) && c1.view()[target@].config == config),
    {
        match &mut self.cache {
            Some(c) => c.record_result(target, config, success),
            None => {},
        }
    }

    /// Empties the cache, when there is one.
    pub fn clear_cache(&mut self)
        requires
            old(self).wf(),
        ensures
            final(self).wf(),
            final(self).spec_config() == old(self).spec_config(),
            final(self).spec_cache() matches Some(c) ==> c.view().dom().len() == 0,
    {
        match &mut self.cache {
            Some(c) => c.clear_cache(),
            None => {},
        }
    }

    /// Drops the cache entry of `target`; says whether there was one.
    pub fn invalidate_target(&mut self, target: &TargetKey) -> (r: bool)
        requires
            old(self).wf(),
        ensures
            final(self).wf(),
            final(self).spec_config() == old(self).spec_config(),
            r == (old(self).spec_cache() matches Some(c) && c.view().contains_key(target@)),
    {
        match &mut self.cache {
            Some(c) => c.invalidate_target(target),
            None => false,
        }
    }

    /// Pins `config` for a session, when sessions are tracked.
    pub fn record_session(&mut self, session_id: &SessionId, config: ClientHelloConfig)
        requires
            old(self).wf(),
        ensures
            final(self).wf(),
            final(self).spec_config() == old(self).spec_config(),
            final(self).spec_tracker() is Some == old(self).spec_tracker() is Some,
            final(self).spec_tracker() matches Some(t) ==> t.spec_max() > 0 ==> t.view().contains_key(session_id@)
                && t.view()[session_id@].config == config,
    {
        match &mut self.session_tracker {
            Some(t) => t.record_session(session_id, config),
            None => {},
        }
    }

    /// A copy of the configuration pinned for a session.
    pub fn get_session_config(&self, session_id: &SessionId) -> (r: Option<ClientHelloConfig>)
        requires
            self.wf(),
        ensures
            r is Some == (self.spec_tracker() matches Some(t) && t.view().contains_key(session_id@)),
            r matches Some(c) ==> crate::state::same_config(c, self.spec_tracker().unwrap().view()[session_id@].config),
    {
        match &self.session_tracker {
            Some(t) => match t.get_session_config(session_id) {
                Some(c) => Some(c.duplicate()),
                None => None,
            },
            None => None,
        }
    }

    pub fn mark_session_established(&mut self, session_id: &SessionId)
        requires
            old(self).wf(),
        ensures
            final(self).wf(),
            final(self).spec_config() == old(self).spec_config(),
            old(self).spec_tracker() is None ==> final(self).spec_tracker() is None,
            old(self).spec_tracker() matches Some(t0) ==> final(self).spec_tracker() matches Some(t1) && (
                if t0.view().contains_key(session_id@) {
                    t1.view() == t0.view().insert(session_id@, SessionState { established: true, ..t0.view()[session_id@] })
                } else {
                    t1.view() == t0.view()
                }),
    {
        match &mut self.session_tracker {
            Some(t) => t.mark_established(session_id),
            None => {},
        }
    }

    pub fn record_session_ticket(&mut self, session_id: &SessionId, ticket: Vec<u8>)
        requires
            old(self).wf(),
        ensures
            final(self).wf(),
            final(self).spec_config() == old(self).spec_config(),
            old(self).spec_tracker() is None ==> final(self).spec_tracker() is None,
            old(self).spec_tracker() matches Some(t0) ==> final(self).spec_tracker() matches Some(t1) && (
                if t0.view().contains_key(session_id@) {
                    t1.view() == t0.view().insert(session_id@, SessionState { ticket: Some(ticket), ..t0.view()[session_id@] })
                } else {
                    t1.view() == t0.view()
                }),
    {
        match &mut self.session_tracker {
            Some(t) => t.record_ticket(session_id, ticket),
            None => {},
        }
    }

    pub fn record_session_resumption(&mut self, session_id: &SessionId)
        requires
            old(self).wf(),
        ensures
            final(self).wf(),
            final(self).spec_config() == old(self).spec_config(),
            old(self).spec_tracker() is None ==> final(self).spec_tracker() is None,
            old(self).spec_tracker() matches Some(t0) ==> final(self).spec_tracker() matches Some(t1) && (
                if t0.view().contains_key(session_id@) {
                    t1.view() == t0.view().insert(session_id@, SessionState {
                        resume_count: if t0.view()[session_id@].resume_count < u32::MAX {
                            (t0.view()[session_id@].resume_count + 1) as u32
                        } else {
                            t0.view()[session_id@].resume_count
                        },
                        ..t0.view()[session_id@]
                    })
                } else {
                    t1.view() == t0.view()
                }),
    {
        match &mut self.session_tracker {
            Some(t) => t.record_resumption(session_id),
            None => {},
        }
    }
}

proof fn lemma_first_with_tag_bound(s: Seq<BrowserTemplate>, tag: int)
    ensures
        first_with_tag(s, tag) < s.len(),
        first_with_tag(s, tag) >= -1,
    decreases s.len(),
{
    if s.len() > 0 {
        lemma_first_with_tag_bound(s.drop_first(), tag);
    }
}

} // verus!
