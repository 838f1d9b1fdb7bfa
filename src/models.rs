//! Sites, pages, audit profiles and the measurement requests built from them.
use vstd::prelude::*;
use vstd::string::*;

verus! {

/// A decoded inbound message: a request to audit a whole site, or one page.
#[derive(Debug, Default)]
pub struct ScoreParameters {
    pub page: Option<PageScoreParameters>,
    pub site: Option<SiteScoreParameters>,
}

/// One measurement request sent to the auditing backend.
#[derive(Debug, Default)]
pub struct PageScoreParameters {
    pub url: String,
    pub throttling: Option<String>,
    pub attempts: Option<i8>,
    pub device: Option<String>,
    pub lighthouse_version: Option<String>,
    pub blocked_url_patterns: Option<Vec<String>>,
    pub cookie: Option<Cookie>,
}

/// A request to audit every page of a site under each of its enabled profiles.
#[derive(Debug, Default)]
pub struct SiteScoreParameters {
    pub site_id: String,
    pub cookie: Option<Cookie>,
}

/// A session cookie sent along with each measurement.
#[derive(Debug, Default)]
pub struct Cookie {
    pub name: String,
    pub value: String,
}

/// The devices and backend versions a site may be audited with.
#[derive(Debug, Default)]
pub struct LighthouseSettings {
    pub devices: Vec<String>,
    pub versions: Vec<String>,
}

/// A site as stored: its pages, its audit profiles and the last run id used.
#[derive(Debug, Default)]
pub struct Site {
    pub id: String,
    pub name: String,
    pub pages: Vec<Page>,
    pub audit_profiles: Vec<AuditProfile>,
    pub lighthouse_settings: LighthouseSettings,
    pub last_run_id: i32,
}

/// One page of a site.
#[derive(Debug, Default)]
pub struct Page {
    pub id: String,
    pub name: String,
    pub url: String,
}

/// A combination of device, backend version and blocked URL patterns under
/// which pages are measured. A profile without an `enabled` flag is enabled.
#[derive(Debug, Default)]
pub struct AuditProfile {
    pub id: String,
    pub name: String,
    pub device: String,
    pub lighthouse_version: String,
    pub blocked_url_patterns: Option<Vec<String>>,
    pub enabled: Option<bool>,
}

/// Whether `profile` takes part in site audits.
pub open spec fn profile_enabled(profile: AuditProfile) -> bool {
    match profile.enabled {
        Some(flag) => flag,
        None => true,
    }
}

impl AuditProfile {
    /// A profile for `device` and `lighthouse_version`, named
    /// `"<device>-<lighthouse_version>"`, with no blocked patterns.
    pub fn new(device: String, lighthouse_version: String) -> (r: AuditProfile)
        ensures
            r.name@ == device@ + "-"@ + lighthouse_version@,
            r.device@ == device@,
            r.lighthouse_version@ == lighthouse_version@,
            r.id@ == Seq::<char>::empty(),
            r.blocked_url_patterns is None,
            r.enabled is None,
    {
        let name = device.clone().concat("-").concat(lighthouse_version.as_str());
        AuditProfile {
            id: String::new(),
            name,
            device,
            lighthouse_version,
            blocked_url_patterns: None,
            enabled: None,
        }
    }

    /// Whether this profile takes part in site audits.
    pub fn is_enabled(&self) -> (r: bool)
        ensures
            r == profile_enabled(*self),
    {
        match self.enabled {
            Some(flag) => flag,
            None => true,
        }
    }
}

impl Cookie {
    /// A copy of this cookie.
    pub fn duplicate(&self) -> (r: Cookie)
        ensures
            r.name@ == self.name@,
            r.value@ == self.value@,
    {
        Cookie { name: self.name.clone(), value: self.value.clone() }
    }
}

/// A copy of an optional cookie.
pub fn duplicate_cookie(cookie: &Option<Cookie>) -> (r: Option<Cookie>)
    ensures
        r is None <==> cookie is None,
        r matches Some(c) ==> c.name@ == cookie->Some_0.name@ && c.value@ == cookie->Some_0.value@,
{
    match cookie {
        Some(c) => Some(c.duplicate()),
        None => None,
    }
}

/// A copy of a list of strings.
pub fn duplicate_strings(v: &Vec<String>) -> (r: Vec<String>)
    ensures
        r.len() == v.len(),
        forall|i: int| 0 <= i < v.len() ==> #[trigger] r[i]@ == v[i]@,
{
    let mut r: Vec<String> = Vec::new();
    let mut i: usize = 0;
    while i < v.len()
        invariant
            i <= v.len(),
            r.len() == i,
            forall|j: int| 0 <= j < i ==> #[trigger] r[j]@ == v[j]@,
        decreases v.len() - i,
    {
        r.push(v[i].clone());
        i = i + 1;
    }
    r
}

/// A copy of an optional list of strings.
pub fn duplicate_patterns(v: &Option<Vec<String>>) -> (r: Option<Vec<String>>)
    ensures
        r is None <==> v is None,
        r matches Some(p) ==> p.len() == v->Some_0.len()
            && forall|i: int| 0 <= i < p.len() ==> #[trigger] p[i]@ == v->Some_0[i]@,
{
    match v {
        Some(p) => Some(duplicate_strings(p)),
        None => None,
    }
}

/// `r` is the measurement request for `page` under `profile` with `cookie`:
/// the page's URL, the profile's device, backend version and blocked
/// patterns, the cookie, and no throttling or attempt count of its own.
pub open spec fn is_request_for(
    r: PageScoreParameters,
    page: Page,
    profile: AuditProfile,
    cookie: Option<Cookie>,
) -> bool {
    &&& r.url@ == page.url@
    &&& r.device matches Some(d) && d@ == profile.device@
    &&& r.lighthouse_version matches Some(v) && v@ == profile.lighthouse_version@
    &&& r.throttling is None
    &&& r.attempts is None
    &&& (r.blocked_url_patterns is None <==> profile.blocked_url_patterns is None)
    &&& (r.blocked_url_patterns matches Some(p) ==> p.len() == profile.blocked_url_patterns->Some_0.len()
        && forall|i: int| 0 <= i < p.len()
            ==> #[trigger] p[i]@ == profile.blocked_url_patterns->Some_0[i]@)
    &&& (r.cookie is None <==> cookie is None)
    &&& (r.cookie matches Some(c) ==> c.name@ == cookie->Some_0.name@
        && c.value@ == cookie->Some_0.value@)
}

/// The measurement request for `page` under `profile`.
pub fn build_page_score_parameters(page: &Page, profile: &AuditProfile, cookie: &Option<Cookie>)
    -> (r: PageScoreParameters)
    ensures
        is_request_for(r, *page, *profile, *cookie),
{
    PageScoreParameters {
        url: page.url.clone(),
        throttling: None,
        attempts: None,
        device: Some(profile.device.clone()),
        lighthouse_version: Some(profile.lighthouse_version.clone()),
        blocked_url_patterns: duplicate_patterns(&profile.blocked_url_patterns),
        cookie: duplicate_cookie(cookie),
    }
}

} // verus!
