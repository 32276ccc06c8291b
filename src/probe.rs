//! Probe configuration, the per-backend probe state, and the health verdict
//! a backend reports.

use vstd::prelude::*;
use vstd::string::StrSliceExecFns;

use std::sync::atomic::{AtomicU64, Ordering};

use crate::foreign::{parse_url, url_accepted};
use crate::health::{bit_set, is_healthy, record_outcome, seed_history, shifted, verdict};
use crate::transaction::{concat, opt_str};

verus! {

/// What a probe requests.
pub enum ProbeRequest {
    /// A path (joined to the client's base URL) or an absolute URL.
    Url(String),
    /// A raw request text, which this backend cannot send.
    Text(String),
}

/// A probe as configured; durations are in milliseconds, zero meaning unset.
pub struct ProbeSpec {
    pub request: ProbeRequest,
    pub timeout_ms: u64,
    pub interval_ms: u64,
    pub window: u32,
    pub threshold: u32,
    pub exp_status: u32,
    pub initial: u32,
}

pub open spec fn or_default_u64(v: u64, d: u64) -> u64 {
    if v == 0 {
        d
    } else {
        v
    }
}

pub open spec fn or_default_u32(v: u32, d: u32) -> u32 {
    if v == 0 {
        d
    } else {
        v
    }
}

/// The threshold after defaults.
pub open spec fn threshold_of(p: ProbeSpec) -> u32 {
    or_default_u32(p.threshold, 3)
}

/// The number of initial passes after defaults: one short of the threshold
/// where unset, and never above the threshold.
pub open spec fn initial_of(p: ProbeSpec) -> u32 {
    let t = threshold_of(p);
    let i = if p.initial == 0 {
        (t - 1) as u32
    } else {
        p.initial
    };
    if i < t {
        i
    } else {
        t
    }
}

/// The window after defaults, at most the 64 outcomes the history holds.
pub open spec fn window_of(p: ProbeSpec) -> u32 {
    let w = or_default_u32(p.window, 8);
    if w < 64 {
        w
    } else {
        64
    }
}

/// `s` is `p` with every unset field given its default.
pub open spec fn is_sanitized(s: ProbeSpec, p: ProbeSpec) -> bool {
    &&& s.request == p.request
    &&& s.timeout_ms == or_default_u64(p.timeout_ms, 2000)
    &&& s.interval_ms == or_default_u64(p.interval_ms, 5000)
    &&& s.window == window_of(p)
    &&& s.threshold == threshold_of(p)
    &&& s.exp_status == or_default_u32(p.exp_status, 200)
    &&& s.initial == initial_of(p)
}

/// Gives every unset field of a probe its default.
pub fn sanitize(p: ProbeSpec) -> (r: ProbeSpec)
    ensures
        is_sanitized(r, p),
        1 <= r.window <= 64,
        1 <= r.threshold,
        r.initial <= r.threshold,
{
    let timeout_ms = if p.timeout_ms == 0 {
        2000
    } else {
        p.timeout_ms
    };
    let interval_ms = if p.interval_ms == 0 {
        5000
    } else {
        p.interval_ms
    };
    let window = if p.window == 0 {
        8
    } else if p.window > 64 {
        64
    } else {
        p.window
    };
    let threshold = if p.threshold == 0 {
        3
    } else {
        p.threshold
    };
    let initial = if p.initial == 0 {
        threshold - 1
    } else {
        p.initial
    };
    let initial = if initial < threshold {
        initial
    } else {
        threshold
    };
    ProbeSpec {
        request: p.request,
        timeout_ms,
        interval_ms,
        window,
        threshold,
        exp_status: if p.exp_status == 0 {
            200
        } else {
            p.exp_status
        },
        initial,
    }
}

/// Whether text starts with a slash (a path rather than a full URL).
pub open spec fn is_path(s: Seq<char>) -> bool {
    s.len() > 0 && s[0] == '/'
}

pub fn starts_with_slash(s: &str) -> (r: bool)
    ensures
        r == is_path(s@),
{
    if s.is_empty() {
        false
    } else {
        s.get_char(0) == '/'
    }
}

/// The text a probe's URL is parsed from, or `None` where the probe has no
/// usable URL.
pub open spec fn probe_url_text(p: ProbeSpec, base_url: Option<Seq<char>>) -> Option<Seq<char>> {
    match p.request {
        ProbeRequest::Text(_) => None,
        ProbeRequest::Url(u) => match base_url {
            Some(b) => Some(b + u@),
            None => if is_path(u@) {
                None
            } else {
                Some(u@)
            },
        },
    }
}

/// A probe ready to run: its sanitized configuration, its target, and the
/// rolling history of its outcomes (bit 0 the most recent, 1 a pass).
pub struct ProbeState {
    pub spec: ProbeSpec,
    pub url: reqwest::Url,
    pub history: AtomicU64,
}

impl ProbeState {
    pub open spec fn wf(&self) -> bool {
        &&& 1 <= self.spec.window <= 64
        &&& 1 <= self.spec.threshold
        &&& self.spec.initial <= self.spec.threshold
    }

    /// The history a run starts from: `initial` passes, stored at once so a
    /// fresh backend is judged on them before its first probe completes.
    pub fn start(&self) -> (r: u64)
        ensures
            forall|i: nat| #[trigger] bit_set(r, i) <==> i < self.spec.initial && i < 64,
    {
        let h = seed_history(self.spec.initial);
        self.history.store(h, Ordering::Relaxed);
        h
    }

    /// Records one probe outcome on top of `history` (the value this run
    /// stored last), stores it, and reports whether the verdict flipped.
    pub fn record(&self, history: u64, pass: bool) -> (r: (u64, bool))
        requires
            self.wf(),
        ensures
            r.0 == shifted(history, pass),
            r.1 == (verdict(history, self.spec.window as nat, self.spec.threshold as nat) != verdict(
                r.0,
                self.spec.window as nat,
                self.spec.threshold as nat,
            )),
    {
        let r = record_outcome(history, pass, self.spec.window, self.spec.threshold);
        self.history.store(r.0, Ordering::Relaxed);
        r
    }
}

/// Builds the probe state of a backend: sanitizes the probe and resolves its
/// URL against the client's base URL. Fails where the probe has no URL, where
/// a path has no base URL to join, and where the URL does not parse.
pub fn build_probe_state(probe: ProbeSpec, base_url: Option<&str>) -> (r: Result<ProbeState, String>)
    ensures
        r is Ok <==> (probe_url_text(probe, opt_str(base_url)) is Some && url_accepted(
            probe_url_text(probe, opt_str(base_url))->Some_0,
        )),
        r is Ok ==> is_sanitized(r->Ok_0.spec, probe) && r->Ok_0.wf(),
        probe.request is Text ==> r is Err && r->Err_0@ == "can't use a probe without .url"@,
        probe.request is Url && base_url is None && is_path(probe.request->Url_0@) ==> r is Err
            && r->Err_0@
            == "client has no .base_url, and the probe doesn't have a fully-qualified URL as .url"@,
{
    let spec = sanitize(probe);
    let parsed = match &spec.request {
        ProbeRequest::Text(_) => {
            return Err("can't use a probe without .url".to_owned());
        },
        ProbeRequest::Url(u) => match base_url {
            Some(b) => {
                let full = concat(b, u.as_str());
                parse_url(full.as_str())
            },
            None => {
                if starts_with_slash(u.as_str()) {
                    return Err(
                        "client has no .base_url, and the probe doesn't have a fully-qualified URL as .url".to_owned(),
                    );
                }
                parse_url(u.as_str())
            },
        },
    };
    match parsed {
        Ok(url) => Ok(ProbeState { spec, url, history: AtomicU64::new(0) }),
        Err(e) => Err(e),
    }
}

/// The health a backend reports: healthy without a probe, else the probe's
/// verdict on `history` (the probe's history word as last stored).
pub fn backend_healthy(probe: Option<&ProbeState>, history: u64) -> (r: bool)
    requires
        probe is Some ==> probe->Some_0.wf(),
    ensures
        probe is None ==> r,
        probe is Some ==> r == verdict(
            history,
            probe->Some_0.spec.window as nat,
            probe->Some_0.spec.threshold as nat,
        ),
{
    match probe {
        None => true,
        Some(p) => is_healthy(history, p.spec.window, p.spec.threshold),
    }
}

} // verus!
