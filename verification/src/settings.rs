//! Settings: service providers, their services, the repository location,
//! the report format, the review type and the sensitive API key.
use crate::retrieval::data::str_eq;
use crate::review::report::OutputType;
use crate::text::{chars_of, push_all, string_of};
use vstd::prelude::*;

verus! {

/// Configuration of the code review.
///
/// * `providers` - the configured providers of language model services
/// * `chosen_provider` - the provider the user chose, if any
/// * `chosen_service` - the service the user chose, if any
/// * `default_provider` - the provider used when none is chosen
/// * `output_type` - the report format
/// * `review_type` - the kind of review
/// * `repository_path` - the repository to review
/// * `report_output_path` - where the report is written
/// * `developer_mode` - settings for development runs
/// * `sensitive` - the API key and organisation
pub struct Settings {
    pub providers: Vec<ProviderSettings>,
    pub chosen_provider: Option<String>,
    pub chosen_service: Option<String>,
    pub default_provider: String,
    pub output_type: OutputType,
    pub review_type: ReviewType,
    pub review_cycles: Option<i32>,
    pub repository_path: String,
    pub report_output_path: String,
    pub developer_mode: Option<DeveloperMode>,
    pub sensitive: SensitiveSettings,
}

/// A provider of language model services.
#[derive(Debug)]
pub struct ProviderSettings {
    pub name: String,
    pub services: Vec<ServiceSettings>,
    pub chosen_service: Option<String>,
    pub default_service: String,
    pub api_url: String,
    pub api_timeout: Option<u64>,
    pub max_tokens: Option<i64>,
    pub max_retries: Option<i64>,
}

/// A service of a provider and the model it runs.
#[derive(Clone, Debug)]
pub struct ServiceSettings {
    pub name: String,
    pub model: String,
}

/// No provider of the given name is configured.
#[derive(Clone, Debug)]
pub enum ProviderError {
    NotFound(String),
}

/// No service of the given name is configured.
#[derive(Clone, Debug)]
pub enum ServiceError {
    NotFound(String),
}

impl ProviderError {
    /// The error as text: `ProviderSettings not found: ` and the name.
    pub fn to_text(&self) -> (r: String)
        ensures
            r@ == "ProviderSettings not found: "@ + match self {
                ProviderError::NotFound(n) => n@,
            },
    {
        let mut out = chars_of("ProviderSettings not found: ");
        let ProviderError::NotFound(name) = self;
        let n = chars_of(name.as_str());
        push_all(&mut out, &n);
        string_of(&out)
    }
}

impl ServiceError {
    /// The error as text: `ServiceSettings not found: ` and the name.
    pub fn to_text(&self) -> (r: String)
        ensures
            r@ == "ServiceSettings not found: "@ + match self {
                ServiceError::NotFound(n) => n@,
            },
    {
        let mut out = chars_of("ServiceSettings not found: ");
        let ServiceError::NotFound(name) = self;
        let n = chars_of(name.as_str());
        push_all(&mut out, &n);
        string_of(&out)
    }
}

/// The kind of review: a general code review, a security review, or code
/// statistics only.
#[derive(Clone, Copy, Debug, PartialEq, Eq, Structural)]
pub enum ReviewType {
    General,
    Security,
    CodeStats,
}

impl Default for ReviewType {
    fn default() -> (r: Self)
        ensures
            r == ReviewType::General,
    {
        ReviewType::General
    }
}

/// Settings for development runs.
///
/// * `max_file_count` - review at most this many files, to sample big repositories
/// * `verbose_data_output` - write the full JSON data whatever the report format
/// * `test_path` - take the developer path through the programme
/// * `test_file` - a file of test data
#[derive(Clone, Debug)]
pub struct DeveloperMode {
    pub max_file_count: Option<i32>,
    pub verbose_data_output: bool,
    pub test_path: bool,
    pub test_file: Option<String>,
}

/// The sensitive settings: API key and organisation.
pub struct SensitiveSettings {
    pub api_key: APIKey,
    pub org_id: Option<String>,
    pub org_name: Option<String>,
}

/// An API key; it is handed only to a closure, to keep it from being displayed.
pub struct APIKey(String);

impl APIKey {
    /// The key's text.
    pub closed spec fn view(&self) -> Seq<char> {
        self.0@
    }

    /// Holds `key` as an API key.
    pub fn new(key: String) -> (r: APIKey)
        ensures
            r@ == key@,
    {
        APIKey(key)
    }

    /// Calls `f` with the key and returns what it returns.
    pub fn use_key<T, F>(&self, f: F) -> (r: T) where F: FnOnce(&str) -> T
        requires
            forall|k: &str| k@ == self@ ==> call_requires(f, (k,)),
        ensures
            exists|k: &str| k@ == self@ && call_ensures(f, (k,), r),
    {
        f(self.0.as_str())
    }
}

/// The default of a flag that is not set: false.
pub fn default_false() -> (r: bool)
    ensures
        r == false,
{
    false
}

/// Index of the first provider named `name`.
pub open spec fn first_provider_named(ps: Seq<ProviderSettings>, name: Seq<char>) -> Option<int> {
    if exists|i: int| 0 <= i < ps.len() && (#[trigger] ps[i]).name@ == name {
        Some(choose|i: int| 0 <= i < ps.len() && (#[trigger] ps[i]).name@ == name && forall|j: int| 0 <= j < i ==> ps[j].name@ != name)
    } else {
        None
    }
}

/// Index of the first service named `name`.
pub open spec fn first_service_named(ss: Seq<ServiceSettings>, name: Seq<char>) -> Option<int> {
    if exists|i: int| 0 <= i < ss.len() && (#[trigger] ss[i]).name@ == name {
        Some(choose|i: int| 0 <= i < ss.len() && (#[trigger] ss[i]).name@ == name && forall|j: int| 0 <= j < i ==> ss[j].name@ != name)
    } else {
        None
    }
}

impl Settings {
    /// The name of the active provider: the chosen one, else the default.
    pub open spec fn active_provider_name(self) -> Seq<char> {
        match self.chosen_provider {
            Some(n) => n@,
            None => self.default_provider@,
        }
    }

    /// The index of the active provider, if it is configured.
    pub open spec fn active_provider_index(self) -> Option<int> {
        first_provider_named(self.providers@, self.active_provider_name())
    }

    /// Gets the chosen provider, or the default one when none is chosen: the
    /// first configured provider of that name, or an error naming it.
    pub fn get_active_provider(&self) -> (r: Result<&ProviderSettings, ProviderError>)
        ensures
            match self.active_provider_index() {
                Some(i) => r matches Ok(p) && *p == self.providers@[i],
                None => r matches Err(ProviderError::NotFound(n)) && n@ == self.active_provider_name(),
            },
            r matches Ok(p) ==> p.name@ == self.active_provider_name(),
    {
        let provider_name: &String = match &self.chosen_provider {
            Some(n) => n,
            None => &self.default_provider,
        };
        let mut i: usize = 0;
        while i < self.providers.len()
            invariant
                provider_name@ == self.active_provider_name(),
                i <= self.providers@.len(),
                forall|j: int| 0 <= j < i ==> self.providers@[j].name@ != provider_name@,
            decreases self.providers@.len() - i,
        {
            if str_eq(self.providers[i].name.as_str(), provider_name.as_str()) {
                proof {
                    lemma_first_provider(self.providers@, provider_name@, i as int);
                }
                return Ok(&self.providers[i]);
            }
            i = i + 1;
        }
        Err(ProviderError::NotFound(provider_name.clone()))
    }

    /// Whether developer mode is configured.
    pub fn is_developer_mode(&self) -> (r: bool)
        ensures
            r == self.developer_mode is Some,
    {
        self.developer_mode.is_some()
    }

    /// Whether the walk of a repository skips a file because developer mode
    /// caps the number of files processed (`max_file_count`, when it is not
    /// negative) and `processed_files` have been processed already.
    pub fn file_count_reached(&self, processed_files: i32) -> (r: bool)
        ensures
            r == (self.developer_mode matches Some(d) && d.max_file_count matches Some(m) && m >= 0
                && processed_files >= m),
    {
        match &self.developer_mode {
            Some(d) => match d.max_file_count {
                Some(m) => m >= 0 && processed_files >= m,
                None => false,
            },
            None => false,
        }
    }
}

proof fn lemma_first_provider(ps: Seq<ProviderSettings>, name: Seq<char>, i: int)
    requires
        0 <= i < ps.len(),
        ps[i].name@ == name,
        forall|j: int| 0 <= j < i ==> ps[j].name@ != name,
    ensures
        first_provider_named(ps, name) == Some(i),
{
    let k = choose|k: int| 0 <= k < ps.len() && (#[trigger] ps[k]).name@ == name && forall|j: int| 0 <= j < k ==> ps[j].name@ != name;
    assert(0 <= k < ps.len() && ps[k].name@ == name && forall|j: int| 0 <= j < k ==> ps[j].name@ != name);
    if k < i {
        assert(ps[k].name@ != name);
    } else if k > i {
        assert(ps[i].name@ != name);
    }
}

proof fn lemma_first_service(ss: Seq<ServiceSettings>, name: Seq<char>, i: int)
    requires
        0 <= i < ss.len(),
        ss[i].name@ == name,
        forall|j: int| 0 <= j < i ==> ss[j].name@ != name,
    ensures
        first_service_named(ss, name) == Some(i),
{
    let k = choose|k: int| 0 <= k < ss.len() && (#[trigger] ss[k]).name@ == name && forall|j: int| 0 <= j < k ==> ss[j].name@ != name;
    assert(0 <= k < ss.len() && ss[k].name@ == name && forall|j: int| 0 <= j < k ==> ss[j].name@ != name);
    if k < i {
        assert(ss[k].name@ != name);
    } else if k > i {
        assert(ss[i].name@ != name);
    }
}

impl ProviderSettings {
    /// The name of the active service: the chosen one, else the default.
    pub open spec fn active_service_name(self) -> Seq<char> {
        match self.chosen_service {
            Some(n) => n@,
            None => self.default_service@,
        }
    }

    /// The index of the active service, if it is configured.
    pub open spec fn active_service_index(self) -> Option<int> {
        first_service_named(self.services@, self.active_service_name())
    }

    /// Gets the chosen service, or the default one when none is chosen: the
    /// first configured service of that name, or an error naming it.
    pub fn get_active_service(&self) -> (r: Result<&ServiceSettings, ServiceError>)
        ensures
            match self.active_service_index() {
                Some(i) => r matches Ok(s) && *s == self.services@[i],
                None => r matches Err(ServiceError::NotFound(n)) && n@ == self.active_service_name(),
            },
    {
        let name: &String = match &self.chosen_service {
            Some(n) => n,
            None => &self.default_service,
        };
        match self.get_service_by_name(name.as_str()) {
            Some(s) => Ok(s),
            None => Err(ServiceError::NotFound(name.clone())),
        }
    }

    /// Gets the first service named `name`.
    pub fn get_service_by_name(&self, name: &str) -> (r: Option<&ServiceSettings>)
        ensures
            match first_service_named(self.services@, name@) {
                Some(i) => r matches Some(s) && *s == self.services@[i],
                None => r is None,
            },
    {
        let mut i: usize = 0;
        while i < self.services.len()
            invariant
                i <= self.services@.len(),
                forall|j: int| 0 <= j < i ==> self.services@[j].name@ != name@,
            decreases self.services@.len() - i,
        {
            if str_eq(self.services[i].name.as_str(), name) {
                proof {
                    lemma_first_service(self.services@, name@, i as int);
                }
                return Some(&self.services[i]);
            }
            i = i + 1;
        }
        None
    }
}

} // verus!
