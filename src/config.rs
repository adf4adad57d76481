//! User-facing configuration: template choice, randomization level, cache and rotation.
use vstd::prelude::*;
use crate::utils::TimingJitterConfig;

verus! {

/// How strongly each ClientHello is perturbed.
#[derive(Debug, Clone, Copy, PartialEq, Eq, Structural)]
pub enum RandomizationLevel {
    /// The template is used exactly.
    Disabled,
    /// Small browser-style perturbations.
    Light,
    /// Moderate variation within browser norms.
    Medium,
    /// The most variation the naturalness rules allow.
    High,
}

impl Default for RandomizationLevel {
    fn default() -> (r: Self)
        ensures
            r == RandomizationLevel::Light,
    {
        RandomizationLevel::Light
    }
}

/// How a template is picked for each connection.
#[derive(Debug, Clone, Copy, PartialEq, Eq, Structural)]
pub enum TemplateRotationPolicy {
    /// The configured template is used for every connection.
    Disabled,
    /// The rotation list is walked in order.
    RoundRobin,
    /// A scrambled index into the rotation list.
    Random,
    /// Chrome 40%, Firefox 25%, Safari 20%, Edge 15%.
    WeightedRandom,
}

/// A user-defined template, named.
#[derive(Debug, Clone, Hash)]
pub struct CustomTemplate {
    pub name: String,
    pub description: String,
}

/// The browsers whose ClientHello can be simulated.
#[derive(Debug, Clone, Hash)]
pub enum BrowserTemplate {
    Chrome130,
    Firefox135,
    Safari17,
    Edge130,
    Custom(Box<CustomTemplate>),
}

/// Two templates are the same browser, or custom ones with the same name and description.
pub open spec fn same_template(a: BrowserTemplate, b: BrowserTemplate) -> bool {
    match (a, b) {
        (BrowserTemplate::Chrome130, BrowserTemplate::Chrome130) => true,
        (BrowserTemplate::Firefox135, BrowserTemplate::Firefox135) => true,
        (BrowserTemplate::Safari17, BrowserTemplate::Safari17) => true,
        (BrowserTemplate::Edge130, BrowserTemplate::Edge130) => true,
        (BrowserTemplate::Custom(x), BrowserTemplate::Custom(y)) => x.name@ == y.name@
            && x.description@ == y.description@,
        _ => false,
    }
}

impl PartialEq for CustomTemplate {
    fn eq(&self, o: &CustomTemplate) -> (r: bool) {
        self.name == o.name && self.description == o.description
    }
}

impl vstd::std_specs::cmp::PartialEqSpecImpl for CustomTemplate {
    open spec fn obeys_eq_spec() -> bool {
        true
    }

    open spec fn eq_spec(&self, o: &CustomTemplate) -> bool {
        self.name@ == o.name@ && self.description@ == o.description@
    }
}

impl Eq for CustomTemplate {}

impl PartialEq for BrowserTemplate {
    fn eq(&self, o: &BrowserTemplate) -> (r: bool) {
        match (self, o) {
            (BrowserTemplate::Chrome130, BrowserTemplate::Chrome130) => true,
            (BrowserTemplate::Firefox135, BrowserTemplate::Firefox135) => true,
            (BrowserTemplate::Safari17, BrowserTemplate::Safari17) => true,
            (BrowserTemplate::Edge130, BrowserTemplate::Edge130) => true,
            (BrowserTemplate::Custom(x), BrowserTemplate::Custom(y)) => x.name == y.name
                && x.description == y.description,
            _ => false,
        }
    }
}

impl vstd::std_specs::cmp::PartialEqSpecImpl for BrowserTemplate {
    open spec fn obeys_eq_spec() -> bool {
        true
    }

    open spec fn eq_spec(&self, o: &BrowserTemplate) -> bool {
        same_template(*self, *o)
    }
}

impl Eq for BrowserTemplate {}

impl BrowserTemplate {
    /// The template as a plain tag: 0 Chrome, 1 Firefox, 2 Safari, 3 Edge, 4 custom.
    pub open spec fn tag(self) -> int {
        match self {
            BrowserTemplate::Chrome130 => 0,
            BrowserTemplate::Firefox135 => 1,
            BrowserTemplate::Safari17 => 2,
            BrowserTemplate::Edge130 => 3,
            BrowserTemplate::Custom(_) => 4,
        }
    }

    /// A copy of this template.
    pub fn duplicate(&self) -> (r: Self)
        ensures
            same_template(r, *self),
            self.tag() < 4 ==> r == *self,
    {
        match self {
            BrowserTemplate::Chrome130 => BrowserTemplate::Chrome130,
            BrowserTemplate::Firefox135 => BrowserTemplate::Firefox135,
            BrowserTemplate::Safari17 => BrowserTemplate::Safari17,
            BrowserTemplate::Edge130 => BrowserTemplate::Edge130,
            BrowserTemplate::Custom(c) => BrowserTemplate::Custom(
                Box::new(CustomTemplate { name: c.name.clone(), description: c.description.clone() }),
            ),
        }
    }
}

/// The configuration of the customization layer.
#[derive(Debug, Clone)]
pub struct CustlsConfig {
    /// Browser template to simulate, if any.
    pub template: Option<BrowserTemplate>,
    pub randomization_level: RandomizationLevel,
    /// Whether the per-target cache and the session tracker exist.
    pub enable_cache: bool,
    /// Upper bound for both the cache and the session tracker.
    pub max_cache_size: usize,
    pub rotation_policy: TemplateRotationPolicy,
    /// Templates to rotate through; empty means all four built-in ones.
    pub rotation_templates: Vec<BrowserTemplate>,
    pub timing_jitter: Option<TimingJitterConfig>,
}

/// The default cache size.
pub const DEFAULT_CACHE_SIZE: usize = 1000;

impl Default for CustlsConfig {
    fn default() -> (r: Self)
        ensures
            r.template is None,
            r.randomization_level == RandomizationLevel::Light,
            r.enable_cache,
            r.max_cache_size == DEFAULT_CACHE_SIZE,
            r.rotation_policy == TemplateRotationPolicy::Disabled,
            r.rotation_templates@.len() == 0,
            r.timing_jitter is None,
    {
        CustlsConfig {
            template: None,
            randomization_level: RandomizationLevel::Light,
            enable_cache: true,
            max_cache_size: DEFAULT_CACHE_SIZE,
            rotation_policy: TemplateRotationPolicy::Disabled,
            rotation_templates: Vec::new(),
            timing_jitter: None,
        }
    }
}

impl CustlsConfig {
    /// A builder holding the default values.
    pub fn builder() -> (r: CustlsConfigBuilder)
        ensures
            r.is_default(),
    {
        CustlsConfigBuilder::new()
    }
}

/// Fluent builder for `CustlsConfig`.
#[derive(Debug, Clone)]
pub struct CustlsConfigBuilder {
    pub template: Option<BrowserTemplate>,
    pub randomization_level: RandomizationLevel,
    pub enable_cache: bool,
    pub max_cache_size: usize,
    pub rotation_policy: TemplateRotationPolicy,
    pub rotation_templates: Vec<BrowserTemplate>,
    pub timing_jitter: Option<TimingJitterConfig>,
}

impl Default for CustlsConfigBuilder {
    fn default() -> (r: Self)
        ensures
            r.is_default(),
    {
        CustlsConfigBuilder::new()
    }
}

impl CustlsConfigBuilder {
    /// The builder holds the default values.
    pub open spec fn is_default(&self) -> bool {
        &&& self.template is None
        &&& self.randomization_level == RandomizationLevel::Light
        &&& self.enable_cache
        &&& self.max_cache_size == DEFAULT_CACHE_SIZE
        &&& self.rotation_policy == TemplateRotationPolicy::Disabled
        &&& self.rotation_templates@.len() == 0
        &&& self.timing_jitter is None
    }

    pub fn new() -> (r: Self)
        ensures
            r.is_default(),
    {
        CustlsConfigBuilder {
            template: None,
            randomization_level: RandomizationLevel::Light,
            enable_cache: true,
            max_cache_size: DEFAULT_CACHE_SIZE,
            rotation_policy: TemplateRotationPolicy::Disabled,
            rotation_templates: Vec::new(),
            timing_jitter: None,
        }
    }

    pub fn with_template(self, template: BrowserTemplate) -> (r: Self)
        ensures
            r == (CustlsConfigBuilder { template: Some(template), ..self }),
    {
        CustlsConfigBuilder { template: Some(template), ..self }
    }

    pub fn with_randomization_level(self, level: RandomizationLevel) -> (r: Self)
        ensures
            r == (CustlsConfigBuilder { randomization_level: level, ..self }),
    {
        CustlsConfigBuilder { randomization_level: level, ..self }
    }

    pub fn with_cache(self, enable: bool) -> (r: Self)
        ensures
            r == (CustlsConfigBuilder { enable_cache: enable, ..self }),
    {
        CustlsConfigBuilder { enable_cache: enable, ..self }
    }

    pub fn with_max_cache_size(self, size: usize) -> (r: Self)
        ensures
            r == (CustlsConfigBuilder { max_cache_size: size, ..self }),
    {
        CustlsConfigBuilder { max_cache_size: size, ..self }
    }

    pub fn with_timing_jitter(self, config: TimingJitterConfig) -> (r: Self)
        ensures
            r == (CustlsConfigBuilder { timing_jitter: Some(config), ..self }),
    {
        CustlsConfigBuilder { timing_jitter: Some(config), ..self }
    }

    pub fn with_rotation_policy(self, policy: TemplateRotationPolicy) -> (r: Self)
        ensures
            r == (CustlsConfigBuilder { rotation_policy: policy, ..self }),
    {
        CustlsConfigBuilder { rotation_policy: policy, ..self }
    }

    pub fn with_rotation_templates(self, templates: Vec<BrowserTemplate>) -> (r: Self)
        ensures
            r == (CustlsConfigBuilder { rotation_templates: templates, ..self }),
    {
        CustlsConfigBuilder { rotation_templates: templates, ..self }
    }

    /// The configuration holding the values set on this builder.
    pub fn build(self) -> (r: CustlsConfig)
        ensures
            r.template == self.template,
            r.randomization_level == self.randomization_level,
            r.enable_cache == self.enable_cache,
            r.max_cache_size == self.max_cache_size,
            r.rotation_policy == self.rotation_policy,
            r.rotation_templates == self.rotation_templates,
            r.timing_jitter == self.timing_jitter,
    {
        CustlsConfig {
            template: self.template,
            randomization_level: self.randomization_level,
            enable_cache: self.enable_cache,
            max_cache_size: self.max_cache_size,
            rotation_policy: self.rotation_policy,
            rotation_templates: self.rotation_templates,
            timing_jitter: self.timing_jitter,
        }
    }
}

} // verus!
